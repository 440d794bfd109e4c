use termshell::navigator::{Action, Navigator};
use termshell::pages::{parse_u64, u64_to_string, DrawError, Entity, Page};

fn sample_entities() -> Vec<Entity> {
    vec![
        Entity { id: 1, name: "alpha".to_owned() },
        Entity { id: 2, name: "beta".to_owned() },
    ]
}

#[test]
fn test_u64_to_string_exact() {
    assert_eq!(u64_to_string(0), "0");
    assert_eq!(u64_to_string(7), "7");
    assert_eq!(u64_to_string(10), "10");
    assert_eq!(u64_to_string(90210), "90210");
    assert_eq!(u64_to_string(u64::MAX), "18446744073709551615");
}

#[test]
fn test_parse_u64_exact() {
    assert_eq!(parse_u64("0"), Some(0));
    assert_eq!(parse_u64("42"), Some(42));
    assert_eq!(parse_u64("007"), Some(7));
    assert_eq!(parse_u64("18446744073709551615"), Some(u64::MAX));
    assert_eq!(parse_u64(""), None);
    assert_eq!(parse_u64("x1"), None);
    assert_eq!(parse_u64("1 "), None);
    assert_eq!(parse_u64("18446744073709551616"), None);
}

#[test]
fn test_home_page_lists_every_entity() {
    let entities = sample_entities();
    let text = Page::Home.draw(&entities).unwrap();
    assert!(text.contains("alpha"));
    assert!(text.contains("beta"));
    assert!(text.contains("entities"));
}

#[test]
fn test_detail_page_draw_missing_entity_fails() {
    let entities = sample_entities();
    let err = Page::EntityDetail { entity_id: 9 }.draw(&entities).unwrap_err();
    assert_eq!(err, DrawError::EntityNotFound { entity_id: 9 });
}

#[test]
fn test_home_input_quits_backs_and_ignores() {
    let entities = sample_entities();
    let home = Page::Home;
    assert!(matches!(
        home.handle_input("q", &entities),
        Ok(Some(Action::Exit))
    ));
    // A number that names no stored entity is unrecognized, not an error.
    assert!(matches!(home.handle_input("9", &entities), Ok(None)));
    assert!(matches!(home.handle_input("hello", &entities), Ok(None)));
    assert!(matches!(home.handle_input("", &entities), Ok(None)));
}

#[test]
fn test_detail_input_back_quit_and_ignore() {
    let entities = sample_entities();
    let detail = Page::EntityDetail { entity_id: 1 };
    assert!(matches!(
        detail.handle_input("b", &entities),
        Ok(Some(Action::NavigateToPreviousPage))
    ));
    assert!(matches!(
        detail.handle_input("q", &entities),
        Ok(Some(Action::Exit))
    ));
    assert!(matches!(detail.handle_input("1", &entities), Ok(None)));
}

#[test]
fn test_select_entity_end_to_end() {
    let entities = sample_entities();
    let mut nav = Navigator::new(Page::Home);

    let home = *nav.current_page().unwrap();
    let text = home.draw(&entities).unwrap();
    assert!(text.contains("alpha"));
    assert!(text.contains("beta"));

    let action = home.handle_input("1", &entities).unwrap().unwrap();
    assert!(matches!(
        action,
        Action::NavigateToPage(Page::EntityDetail { entity_id: 1 })
    ));
    nav.apply(action, true).unwrap();

    let current = *nav.current_page().unwrap();
    assert_eq!(current, Page::EntityDetail { entity_id: 1 });
    let detail_text = current.draw(&entities).unwrap();
    assert!(detail_text.contains("alpha"));
    assert!(!detail_text.contains("beta"));

    // Going back restores the home page, whose next draw is unchanged.
    nav.apply(Action::NavigateToPreviousPage, true).unwrap();
    let back = *nav.current_page().unwrap();
    assert_eq!(back, Page::Home);
    assert_eq!(back.draw(&entities).unwrap(), text);
}

#[test]
fn test_detail_draw_exact_text() {
    let entities = sample_entities();
    let text = Page::EntityDetail { entity_id: 2 }.draw(&entities).unwrap();
    assert_eq!(
        text,
        "--------entity--------\nid    |name            \n2     |beta            \n"
    );
}
