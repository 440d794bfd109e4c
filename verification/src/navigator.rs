//! The page-stack state machine: a navigator owns an ordered stack of pages,
//! exposes the current (top) page, and applies navigation actions that push,
//! pop, clear, or keep the stack while an entity mutation happens elsewhere.

use vstd::prelude::*;

verus! {

/// What a persistence mutation asks of the store, extracted from an action
/// so that the caller can perform it before the stack transition commits.
#[derive(Debug, PartialEq, Eq, Structural, Clone, Copy)]
pub enum MutationRequest {
    Create,
    Update { entity_id: u64 },
    Delete { entity_id: u64 },
}

/// A navigation intent produced by a page and consumed by the navigator.
/// The mutation intents carry whether the issuing page should be popped once
/// the store has been changed; one that does not pop leaves the current page
/// in place so it can re-render the updated data.
pub enum Action<P> {
    NavigateToPage(P),
    NavigateToPreviousPage,
    CreateItem { pop_after: bool },
    UpdateItem { entity_id: u64, pop_after: bool },
    DeleteItem { entity_id: u64, pop_after: bool },
    Exit,
}

/// The navigator could not apply a transition because the persistence effect
/// that the action asked for did not happen.
#[derive(Debug, PartialEq, Eq, Structural, Clone, Copy)]
pub enum ActionError {
    MutationFailed,
}

/// The persistence effect that an action asks for, if any.
pub open spec fn spec_mutation_request<P>(a: Action<P>) -> Option<MutationRequest> {
    match a {
        Action::CreateItem { pop_after } => Some(MutationRequest::Create),
        Action::UpdateItem { entity_id, pop_after } => Some(
            MutationRequest::Update { entity_id },
        ),
        Action::DeleteItem { entity_id, pop_after } => Some(
            MutationRequest::Delete { entity_id },
        ),
        _ => None,
    }
}

/// The stack after an action is applied: a navigation push adds the new
/// page on top; popping removes the top page (popping the last page empties
/// the stack, which is how the application exits by going back); a mutation
/// pops the issuing page only when it says so; exit clears the whole stack.
pub open spec fn stack_after<P>(stack: Seq<P>, a: Action<P>) -> Seq<P> {
    match a {
        Action::NavigateToPage(p) => stack.push(p),
        Action::NavigateToPreviousPage => if stack.len() == 0 {
            stack
        } else {
            stack.drop_last()
        },
        Action::CreateItem { pop_after } => if pop_after && stack.len() > 0 {
            stack.drop_last()
        } else {
            stack
        },
        Action::UpdateItem { entity_id, pop_after } => if pop_after && stack.len() > 0 {
            stack.drop_last()
        } else {
            stack
        },
        Action::DeleteItem { entity_id, pop_after } => if pop_after && stack.len() > 0 {
            stack.drop_last()
        } else {
            stack
        },
        Action::Exit => Seq::empty(),
    }
}

impl<P> Action<P> {
    /// The persistence effect this action asks of the store, to be carried
    /// out by the caller before the stack transition is applied.
    pub fn mutation_request(&self) -> (r: Option<MutationRequest>)
        ensures
            r == spec_mutation_request(*self),
    {
        match self {
            Action::CreateItem { pop_after: _ } => Some(MutationRequest::Create),
            Action::UpdateItem { entity_id, pop_after: _ } => Some(
                MutationRequest::Update { entity_id: *entity_id },
            ),
            Action::DeleteItem { entity_id, pop_after: _ } => Some(
                MutationRequest::Delete { entity_id: *entity_id },
            ),
            _ => None,
        }
    }
}

/// The stack-based page navigator. Its view is the stack of pages, the last
/// element being the currently visible page; an empty stack means the
/// application terminates.
pub struct Navigator<P> {
    stack: Vec<P>,
}

impl<P> View for Navigator<P> {
    type V = Seq<P>;

    closed spec fn view(&self) -> Seq<P> {
        self.stack@
    }
}

impl<P> Navigator<P> {
    /// A navigator starts with exactly one page: the home page.
    pub fn new(home: P) -> (r: Self)
        ensures
            r@ == seq![home],
    {
        let mut stack: Vec<P> = Vec::new();
        stack.push(home);
        proof {
            assert(stack@ =~= seq![home]);
        }
        Navigator { stack }
    }

    /// The currently visible page: the top of the stack, or nothing when
    /// the stack is empty and the application should terminate.
    pub fn current_page(&self) -> (r: Option<&P>)
        ensures
            (r is Some <==> self@.len() > 0),
            r matches Some(p) ==> *p == self@.last(),
    {
        if self.stack.len() == 0 {
            None
        } else {
            Some(&self.stack[self.stack.len() - 1])
        }
    }

    /// Applies an action to the stack. `mutation_succeeded` reports whether
    /// the persistence effect the action asked for (if any) was carried out;
    /// when it was not, nothing is applied and the stack is left exactly as
    /// it was, so persistence effect and stack change commit together or not
    /// at all. Actions that ask for no effect always succeed.
    pub fn apply(&mut self, action: Action<P>, mutation_succeeded: bool) -> (r: Result<
        (),
        ActionError,
    >)
        ensures
            (r is Ok <==> (mutation_succeeded || spec_mutation_request(action) is None)),
            r is Ok ==> final(self)@ == stack_after(old(self)@, action),
            r is Err ==> final(self)@ == old(self)@ && r == Err::<(), ActionError>(
                ActionError::MutationFailed,
            ),
    {
        match action {
            Action::NavigateToPage(p) => {
                self.stack.push(p);
                Ok(())
            },
            Action::NavigateToPreviousPage => {
                if self.stack.len() > 0 {
                    self.stack.pop();
                    proof {
                        assert(self@ =~= old(self)@.drop_last());
                    }
                }
                Ok(())
            },
            Action::CreateItem { pop_after } => {
                if !mutation_succeeded {
                    return Err(ActionError::MutationFailed);
                }
                self.pop_if(pop_after);
                Ok(())
            },
            Action::UpdateItem { entity_id: _, pop_after } => {
                if !mutation_succeeded {
                    return Err(ActionError::MutationFailed);
                }
                self.pop_if(pop_after);
                Ok(())
            },
            Action::DeleteItem { entity_id: _, pop_after } => {
                if !mutation_succeeded {
                    return Err(ActionError::MutationFailed);
                }
                self.pop_if(pop_after);
                Ok(())
            },
            Action::Exit => {
                self.stack.clear();
                Ok(())
            },
        }
    }

    /// Pops the top page when asked to and the stack is not empty.
    fn pop_if(&mut self, pop: bool)
        ensures
            final(self)@ == if pop && old(self)@.len() > 0 {
                old(self)@.drop_last()
            } else {
                old(self)@
            },
    {
        if pop && self.stack.len() > 0 {
            self.stack.pop();
            proof {
                assert(self@ =~= old(self)@.drop_last());
            }
        }
    }
}

/// Pushing a page and then navigating back restores the stack exactly, so
/// the page that was current before, with its state untouched, is current
/// again.
pub proof fn lemma_navigate_then_back<P>(stack: Seq<P>, page: P)
    ensures
        stack_after(stack_after(stack, Action::NavigateToPage(page)), Action::<
            P,
        >::NavigateToPreviousPage) == stack,
{
    assert(stack.push(page).drop_last() =~= stack);
}

/// The stack after `n` successive `NavigateToPreviousPage` actions.
pub open spec fn after_pops<P>(stack: Seq<P>, n: nat) -> Seq<P>
    decreases n,
{
    if n == 0 {
        stack
    } else {
        after_pops(stack_after(stack, Action::<P>::NavigateToPreviousPage), (n - 1) as nat)
    }
}

/// Navigating back once per page on the stack empties it, so the loop that
/// watches the current page terminates.
pub proof fn lemma_back_until_empty<P>(stack: Seq<P>)
    ensures
        after_pops(stack, stack.len()) == Seq::<P>::empty(),
    decreases stack.len(),
{
    if stack.len() == 0 {
        assert(after_pops(stack, 0) == stack);
        assert(stack =~= Seq::<P>::empty());
    } else {
        let popped = stack_after(stack, Action::<P>::NavigateToPreviousPage);
        assert(popped == stack.drop_last());
        lemma_back_until_empty(popped);
    }
}

} // verus!
