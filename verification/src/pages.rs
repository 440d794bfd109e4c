//! Concrete page kinds of the shell, as pure logic: each page renders itself
//! from the stored entities it is given and turns one line of raw input into
//! an optional navigation action. Reading input and reaching the store are
//! the surrounding application's work.

use vstd::prelude::*;
use vstd::string::*;

use crate::navigator::Action;
use crate::page_helpers::{draw_table_text, render_table};
use crate::text::total_width;

verus! {

/// A stored record as pages see it: an identifier and a name.
#[derive(Debug, PartialEq, Eq)]
pub struct Entity {
    pub id: u64,
    pub name: String,
}

/// A page could not produce its rendering: the entity it refers to is no
/// longer stored.
#[derive(Debug, PartialEq, Eq, Structural, Clone, Copy)]
pub enum DrawError {
    EntityNotFound { entity_id: u64 },
}

/// A page's input handler hit an unrecoverable condition while attempting a
/// mutation. The page kinds here mutate nothing themselves, so they never
/// return it; unrecognized input yields no action instead of an error.
#[derive(Debug, PartialEq, Eq, Structural, Clone, Copy)]
pub enum InputError {
    WriteFailed,
}

/// The page kinds: the home page lists every entity; a detail page shows
/// the fields of the one entity it refers to.
#[derive(Debug, PartialEq, Eq, Structural, Clone, Copy)]
pub enum Page {
    Home,
    EntityDetail { entity_id: u64 },
}

pub const ENTITY_ID_WIDTH: usize = 6;

pub const ENTITY_NAME_WIDTH: usize = 16;

/// The decimal digit characters.
pub open spec fn digit_char(d: nat) -> char {
    if d == 0 {
        '0'
    } else if d == 1 {
        '1'
    } else if d == 2 {
        '2'
    } else if d == 3 {
        '3'
    } else if d == 4 {
        '4'
    } else if d == 5 {
        '5'
    } else if d == 6 {
        '6'
    } else if d == 7 {
        '7'
    } else {
        if d == 8 {
            '8'
        } else {
            '9'
        }
    }
}

/// The decimal representation of a number, most significant digit first,
/// with no leading zeros (zero itself is the single digit `0`).
pub open spec fn dec_rep(n: nat) -> Seq<char>
    decreases n,
{
    if n < 10 {
        seq![digit_char(n)]
    } else {
        dec_rep(n / 10) + seq![digit_char(n % 10)]
    }
}

pub open spec fn is_digit(c: char) -> bool {
    48 <= (c as u32) && (c as u32) <= 57
}

pub open spec fn digit_val(c: char) -> nat {
    ((c as u32) - 48) as nat
}

/// A non-empty sequence of decimal digit characters.
pub open spec fn all_digits(s: Seq<char>) -> bool {
    s.len() > 0 && forall|i: int| 0 <= i < s.len() ==> is_digit(#[trigger] s[i])
}

/// The number that a sequence of digit characters denotes.
pub open spec fn dec_value(s: Seq<char>) -> nat
    decreases s.len(),
{
    if s.len() == 0 {
        0
    } else {
        dec_value(s.drop_last()) * 10 + digit_val(s.last())
    }
}

proof fn lemma_dec_value_take_step(s: Seq<char>, i: int)
    requires
        0 <= i < s.len(),
    ensures
        dec_value(s.take(i + 1)) == dec_value(s.take(i)) * 10 + digit_val(s[i]),
{
    assert(s.take(i + 1).drop_last() =~= s.take(i));
    assert(s.take(i + 1).last() == s[i]);
}

proof fn lemma_dec_value_take_le(s: Seq<char>, i: int)
    requires
        0 <= i <= s.len(),
    ensures
        dec_value(s.take(i)) <= dec_value(s),
    decreases s.len() - i,
{
    if i == s.len() {
        assert(s.take(i) =~= s);
    } else {
        lemma_dec_value_take_step(s, i);
        lemma_dec_value_take_le(s, i + 1);
    }
}

/// One decimal digit as text.
fn digit_str(d: u64) -> (r: &'static str)
    requires
        d < 10,
    ensures
        r@ == seq![digit_char(d as nat)],
{
    if d == 0 {
        proof {
            reveal_strlit("0");
        }
        assert("0"@ =~= seq![digit_char(d as nat)]);
        "0"
    } else if d == 1 {
        proof {
            reveal_strlit("1");
        }
        assert("1"@ =~= seq![digit_char(d as nat)]);
        "1"
    } else if d == 2 {
        proof {
            reveal_strlit("2");
        }
        assert("2"@ =~= seq![digit_char(d as nat)]);
        "2"
    } else if d == 3 {
        proof {
            reveal_strlit("3");
        }
        assert("3"@ =~= seq![digit_char(d as nat)]);
        "3"
    } else if d == 4 {
        proof {
            reveal_strlit("4");
        }
        assert("4"@ =~= seq![digit_char(d as nat)]);
        "4"
    } else if d == 5 {
        proof {
            reveal_strlit("5");
        }
        assert("5"@ =~= seq![digit_char(d as nat)]);
        "5"
    } else if d == 6 {
        proof {
            reveal_strlit("6");
        }
        assert("6"@ =~= seq![digit_char(d as nat)]);
        "6"
    } else if d == 7 {
        proof {
            reveal_strlit("7");
        }
        assert("7"@ =~= seq![digit_char(d as nat)]);
        "7"
    } else if d == 8 {
        proof {
            reveal_strlit("8");
        }
        assert("8"@ =~= seq![digit_char(d as nat)]);
        "8"
    } else {
        proof {
            reveal_strlit("9");
        }
        assert("9"@ =~= seq![digit_char(d as nat)]);
        "9"
    }
}

/// The decimal text of a number.
pub fn u64_to_string(n: u64) -> (r: String)
    ensures
        r@ == dec_rep(n as nat),
    decreases n,
{
    if n < 10 {
        let r = digit_str(n).to_owned();
        r
    } else {
        let mut r = u64_to_string(n / 10);
        r.append(digit_str(n % 10));
        proof {
            assert(r@ =~= dec_rep(n as nat));
        }
        r
    }
}

/// Reads a line of digits as a number: the value when the whole line is
/// digits and the value fits in a machine word, and nothing otherwise.
pub fn parse_u64(s: &str) -> (r: Option<u64>)
    ensures
        (r is Some <==> (all_digits(s@) && dec_value(s@) <= u64::MAX)),
        r matches Some(v) ==> v == dec_value(s@),
{
    let n = s.unicode_len();
    if n == 0 {
        return None;
    }
    let mut val: u64 = 0;
    let mut i: usize = 0;
    assert(s@.take(0) =~= Seq::<char>::empty());
    while i < n
        invariant
            0 < n == s@.len(),
            i <= n,
            forall|j: int| 0 <= j < i ==> is_digit(#[trigger] s@[j]),
            val == dec_value(s@.take(i as int)),
        decreases n - i,
    {
        let c = s.get_char(i);
        let cu = c as u32;
        if cu < 48 || cu > 57 {
            return None;
        }
        let d = (cu - 48) as u64;
        proof {
            lemma_dec_value_take_step(s@, i as int);
        }
        if val > 1844674407370955161 || (val == 1844674407370955161 && d > 5) {
            proof {
                lemma_dec_value_take_le(s@, i as int + 1);
                assert(dec_value(s@.take(i as int + 1)) > u64::MAX);
            }
            return None;
        }
        val = val * 10 + d;
        i = i + 1;
    }
    proof {
        assert(s@.take(n as int) =~= s@);
    }
    Some(val)
}

/// The first stored entity with the given identifier, if any.
pub open spec fn find_entity(entities: Seq<Entity>, entity_id: u64) -> Option<Entity>
    decreases entities.len(),
{
    if entities.len() == 0 {
        None
    } else if entities[0].id == entity_id {
        Some(entities[0])
    } else {
        find_entity(entities.drop_first(), entity_id)
    }
}

proof fn lemma_find_entity_skip(entities: Seq<Entity>, entity_id: u64, i: int)
    requires
        0 <= i <= entities.len(),
        forall|j: int| 0 <= j < i ==> entities[j].id != entity_id,
    ensures
        find_entity(entities, entity_id) == find_entity(entities.skip(i), entity_id),
    decreases i,
{
    if i == 0 {
        assert(entities.skip(0) =~= entities);
    } else {
        lemma_find_entity_skip(entities, entity_id, i - 1);
        assert(entities.skip(i - 1)[0] == entities[i - 1]);
        assert(entities.skip(i - 1).drop_first() =~= entities.skip(i));
        assert(find_entity(entities.skip(i - 1), entity_id) == find_entity(
            entities.skip(i),
            entity_id,
        ));
    }
}

/// The first stored entity with the given identifier.
pub fn lookup_entity<'a>(entities: &'a Vec<Entity>, entity_id: u64) -> (r: Option<&'a Entity>)
    ensures
        (r is Some <==> find_entity(entities@, entity_id) is Some),
        r matches Some(e) ==> find_entity(entities@, entity_id) == Some(*e),
{
    let mut i: usize = 0;
    while i < entities.len()
        invariant
            i <= entities@.len(),
            forall|j: int| 0 <= j < i ==> entities@[j].id != entity_id,
        decreases entities@.len() - i,
    {
        if entities[i].id == entity_id {
            proof {
                lemma_find_entity_skip(entities@, entity_id, i as int);
                assert(entities@.skip(i as int)[0] == entities@[i as int]);
            }
            return Some(&entities[i]);
        }
        i = i + 1;
    }
    proof {
        lemma_find_entity_skip(entities@, entity_id, entities@.len() as int);
        assert(entities@.skip(entities@.len() as int) =~= Seq::<Entity>::empty());
    }
    None
}

/// The column widths every entity table uses.
pub open spec fn page_widths() -> Seq<usize> {
    seq![ENTITY_ID_WIDTH, ENTITY_NAME_WIDTH]
}

/// The column headers every entity table uses.
pub open spec fn page_headers() -> Seq<Seq<char>> {
    seq!["id"@, "name"@]
}

/// One entity as a table row: its identifier in decimal, then its name.
pub open spec fn entity_row(e: Entity) -> Seq<Seq<char>> {
    seq![dec_rep(e.id as nat), e.name@]
}

pub open spec fn entity_rows(entities: Seq<Entity>) -> Seq<Seq<Seq<char>>> {
    Seq::new(entities.len(), |i: int| entity_row(entities[i]))
}

/// The home page's text: every stored entity in a table titled `entities`.
pub open spec fn home_text(entities: Seq<Entity>) -> Seq<char> {
    draw_table_text("entities"@, page_headers(), entity_rows(entities), page_widths())
}

/// A detail page's text: the one entity's fields in a table titled `entity`.
pub open spec fn detail_text(e: Entity) -> Seq<char> {
    draw_table_text("entity"@, page_headers(), seq![entity_row(e)], page_widths())
}

proof fn lemma_page_widths_total()
    ensures
        total_width(page_widths()) == ENTITY_ID_WIDTH + ENTITY_NAME_WIDTH,
{
    assert(page_widths().drop_last() =~= seq![ENTITY_ID_WIDTH]);
    assert(seq![ENTITY_ID_WIDTH].drop_last() =~= Seq::<usize>::empty());
    assert(total_width(Seq::<usize>::empty()) == 0);
    assert(page_widths().last() == ENTITY_NAME_WIDTH);
    assert(seq![ENTITY_ID_WIDTH].last() == ENTITY_ID_WIDTH);
    assert(total_width(seq![ENTITY_ID_WIDTH]) == total_width(Seq::<usize>::empty())
        + ENTITY_ID_WIDTH);
    assert(total_width(page_widths()) == total_width(seq![ENTITY_ID_WIDTH]) + ENTITY_NAME_WIDTH);
}

/// The action the home page takes for a line of input: `q` exits; a decimal
/// number that names a stored entity opens that entity's detail page; any
/// other input is unrecognized and yields no action.
pub open spec fn home_action(input: Seq<char>, entities: Seq<Entity>) -> Option<Action<Page>> {
    if input == "q"@ {
        Some(Action::Exit)
    } else if all_digits(input) && dec_value(input) <= u64::MAX && find_entity(
        entities,
        dec_value(input) as u64,
    ) is Some {
        Some(Action::NavigateToPage(Page::EntityDetail { entity_id: dec_value(input) as u64 }))
    } else {
        None
    }
}

/// The action a detail page takes for a line of input: `b` goes back to the
/// previous page; `q` exits; any other input yields no action.
pub open spec fn detail_action(input: Seq<char>) -> Option<Action<Page>> {
    if input == "b"@ {
        Some(Action::NavigateToPreviousPage)
    } else if input == "q"@ {
        Some(Action::Exit)
    } else {
        None
    }
}

fn entity_table_headers() -> (r: Vec<String>)
    ensures
        r.deep_view() == page_headers(),
{
    let mut headers: Vec<String> = Vec::new();
    headers.push("id".to_owned());
    headers.push("name".to_owned());
    proof {
        assert(headers.deep_view() =~= page_headers());
    }
    headers
}

fn entity_table_widths() -> (r: Vec<usize>)
    ensures
        r@ == page_widths(),
        total_width(r@) <= usize::MAX,
{
    let mut widths: Vec<usize> = Vec::new();
    widths.push(ENTITY_ID_WIDTH);
    widths.push(ENTITY_NAME_WIDTH);
    proof {
        assert(widths@ =~= page_widths());
        lemma_page_widths_total();
    }
    widths
}

fn entity_row_cells(e: &Entity) -> (r: Vec<String>)
    ensures
        r.deep_view() == entity_row(*e),
{
    let mut row: Vec<String> = Vec::new();
    row.push(u64_to_string(e.id));
    row.push(e.name.clone());
    proof {
        assert(row.deep_view() =~= entity_row(*e));
    }
    row
}

impl Page {
    /// Renders this page over the given stored entities: the home page
    /// always renders the table of all entities; a detail page renders the
    /// fields of its entity, or fails when that entity is no longer stored.
    pub fn draw(&self, entities: &Vec<Entity>) -> (r: Result<String, DrawError>)
        ensures
            match *self {
                Page::Home => r matches Ok(s) && s@ == home_text(entities@),
                Page::EntityDetail { entity_id } => {
                    &&& (r is Ok <==> find_entity(entities@, entity_id) is Some)
                    &&& (r matches Ok(s) ==> (find_entity(entities@, entity_id) matches Some(e)
                        && s@ == detail_text(e)))
                    &&& (r matches Err(er) ==> er == DrawError::EntityNotFound { entity_id })
                },
            },
    {
        match *self {
            Page::Home => {
                let headers = entity_table_headers();
                let widths = entity_table_widths();
                let mut rows: Vec<Vec<String>> = Vec::new();
                let mut i: usize = 0;
                proof {
                    assert(rows.deep_view() =~= entity_rows(entities@).take(0));
                }
                while i < entities.len()
                    invariant
                        i <= entities@.len(),
                        rows@.len() == i,
                        rows.deep_view() == entity_rows(entities@).take(i as int),
                    decreases entities@.len() - i,
                {
                    let row = entity_row_cells(&entities[i]);
                    let ghost prev = rows.deep_view();
                    rows.push(row);
                    proof {
                        assert forall|j: int| 0 <= j < i + 1 implies #[trigger] rows.deep_view()[j]
                            == entity_rows(entities@)[j] by {
                            if j < i {
                                assert(rows.deep_view()[j] == prev[j]);
                            } else {
                                assert(rows@[j] == row);
                                assert(rows.deep_view()[j] == entity_row(entities@[j]));
                            }
                        }
                        assert(rows.deep_view() =~= entity_rows(entities@).take(i as int + 1));
                    }
                    i = i + 1;
                }
                proof {
                    assert(entity_rows(entities@).take(entities@.len() as int) =~= entity_rows(
                        entities@,
                    ));
                    assert(headers.deep_view().len() == headers@.len());
                    assert(page_headers().len() == 2);
                    assert forall|j: int| 0 <= j < rows@.len() implies #[trigger] rows@[j]@.len()
                        == headers@.len() by {
                        assert(rows.deep_view()[j] == rows@[j].deep_view());
                        assert(rows@[j].deep_view().len() == rows@[j]@.len());
                        assert(rows.deep_view()[j] == entity_rows(entities@)[j]);
                        assert(entity_rows(entities@)[j] == entity_row(entities@[j]));
                        assert(entity_row(entities@[j]).len() == 2);
                    }
                }
                match render_table("entities", &headers, &rows, &widths) {
                    Ok(s) => {
                        proof {
                            assert(s@ == home_text(entities@));
                        }
                        Ok(s)
                    },
                    Err(_) => {
                        proof {
                            assert(false);
                        }
                        Err(DrawError::EntityNotFound { entity_id: 0 })
                    },
                }
            },
            Page::EntityDetail { entity_id } => {
                match lookup_entity(entities, entity_id) {
                    None => Err(DrawError::EntityNotFound { entity_id }),
                    Some(e) => {
                        let headers = entity_table_headers();
                        let widths = entity_table_widths();
                        let mut rows: Vec<Vec<String>> = Vec::new();
                        let row = entity_row_cells(e);
                        rows.push(row);
                        proof {
                            assert(rows.deep_view() =~= seq![entity_row(*e)]);
                            assert(headers.deep_view().len() == headers@.len());
                            assert(page_headers().len() == 2);
                            assert forall|j: int|
                                0 <= j < rows@.len() implies #[trigger] rows@[j]@.len()
                                == headers@.len() by {
                                assert(rows.deep_view()[j] == rows@[j].deep_view());
                                assert(rows@[j].deep_view().len() == rows@[j]@.len());
                                assert(rows.deep_view()[j] == entity_row(*e));
                                assert(entity_row(*e).len() == 2);
                            }
                        }
                        match render_table("entity", &headers, &rows, &widths) {
                            Ok(s) => {
                                proof {
                                    assert(s@ == detail_text(*e));
                                }
                                Ok(s)
                            },
                            Err(_) => {
                                proof {
                                    assert(false);
                                }
                                Err(DrawError::EntityNotFound { entity_id })
                            },
                        }
                    },
                }
            },
        }
    }

    /// Interprets one line of raw input in the context of this page.
    /// Unrecognized input is not an error: it yields no action, so the loop
    /// re-prompts on the same page. The page kinds here mutate nothing
    /// themselves, so they never fail.
    pub fn handle_input(&self, input: &str, entities: &Vec<Entity>) -> (r: Result<
        Option<Action<Page>>,
        InputError,
    >)
        ensures
            r is Ok,
            r matches Ok(a) ==> match *self {
                Page::Home => a == home_action(input@, entities@),
                Page::EntityDetail { .. } => a == detail_action(input@),
            },
    {
        let n = input.unicode_len();
        match *self {
            Page::Home => {
                proof {
                    reveal_strlit("q");
                }
                if n == 1 {
                    let c = input.get_char(0);
                    if c == 'q' {
                        proof {
                            assert(input@ =~= "q"@);
                        }
                        return Ok(Some(Action::Exit));
                    }
                }
                proof {
                    assert(input@ != "q"@);
                }
                match parse_u64(input) {
                    Some(v) => {
                        match lookup_entity(entities, v) {
                            Some(_) => Ok(
                                Some(Action::NavigateToPage(Page::EntityDetail { entity_id: v })),
                            ),
                            None => Ok(None),
                        }
                    },
                    None => Ok(None),
                }
            },
            Page::EntityDetail { entity_id: _ } => {
                proof {
                    reveal_strlit("b");
                    reveal_strlit("q");
                }
                if n == 1 {
                    let c = input.get_char(0);
                    if c == 'b' {
                        proof {
                            assert(input@ =~= "b"@);
                        }
                        return Ok(Some(Action::NavigateToPreviousPage));
                    }
                    if c == 'q' {
                        proof {
                            assert(input@ =~= "q"@);
                        }
                        return Ok(Some(Action::Exit));
                    }
                }
                proof {
                    assert(input@ != "b"@);
                    assert(input@ != "q"@);
                }
                Ok(None)
            },
        }
    }
}

} // verus!
