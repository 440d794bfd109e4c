use termshell::navigator::{Action, ActionError, MutationRequest, Navigator};
use termshell::pages::Page;

#[test]
fn test_new_navigator_shows_home() {
    let nav = Navigator::new(Page::Home);
    assert_eq!(nav.current_page(), Some(&Page::Home));
}

#[test]
fn test_navigate_then_back_restores_previous_page() {
    let mut nav = Navigator::new(Page::Home);
    nav.apply(
        Action::NavigateToPage(Page::EntityDetail { entity_id: 1 }),
        true,
    )
    .unwrap();
    assert_eq!(nav.current_page(), Some(&Page::EntityDetail { entity_id: 1 }));
    nav.apply(Action::NavigateToPreviousPage, true).unwrap();
    assert_eq!(nav.current_page(), Some(&Page::Home));
}

#[test]
fn test_back_until_empty_terminates() {
    let mut nav = Navigator::new(Page::Home);
    nav.apply(
        Action::NavigateToPage(Page::EntityDetail { entity_id: 1 }),
        true,
    )
    .unwrap();
    nav.apply(
        Action::NavigateToPage(Page::EntityDetail { entity_id: 2 }),
        true,
    )
    .unwrap();
    nav.apply(Action::NavigateToPreviousPage, true).unwrap();
    nav.apply(Action::NavigateToPreviousPage, true).unwrap();
    assert!(nav.current_page().is_some());
    nav.apply(Action::NavigateToPreviousPage, true).unwrap();
    assert!(nav.current_page().is_none());
    // Popping an already empty stack stays a no-op.
    nav.apply(Action::NavigateToPreviousPage, true).unwrap();
    assert!(nav.current_page().is_none());
}

#[test]
fn test_exit_clears_the_whole_stack() {
    let mut nav = Navigator::new(Page::Home);
    nav.apply(
        Action::NavigateToPage(Page::EntityDetail { entity_id: 1 }),
        true,
    )
    .unwrap();
    nav.apply(Action::Exit, true).unwrap();
    assert!(nav.current_page().is_none());
}

#[test]
fn test_failed_mutation_leaves_stack_untouched() {
    let mut nav = Navigator::new(Page::Home);
    nav.apply(
        Action::NavigateToPage(Page::EntityDetail { entity_id: 1 }),
        true,
    )
    .unwrap();
    let err = nav
        .apply(
            Action::DeleteItem { entity_id: 1, pop_after: true },
            false,
        )
        .unwrap_err();
    assert_eq!(err, ActionError::MutationFailed);
    assert_eq!(nav.current_page(), Some(&Page::EntityDetail { entity_id: 1 }));
}

#[test]
fn test_successful_mutation_pops_when_asked() {
    let mut nav = Navigator::new(Page::Home);
    nav.apply(
        Action::NavigateToPage(Page::EntityDetail { entity_id: 1 }),
        true,
    )
    .unwrap();
    nav.apply(
        Action::DeleteItem { entity_id: 1, pop_after: true },
        true,
    )
    .unwrap();
    assert_eq!(nav.current_page(), Some(&Page::Home));
}

#[test]
fn test_successful_mutation_keeps_page_when_not_asked() {
    let mut nav = Navigator::new(Page::Home);
    nav.apply(
        Action::UpdateItem { entity_id: 3, pop_after: false },
        true,
    )
    .unwrap();
    assert_eq!(nav.current_page(), Some(&Page::Home));
}

#[test]
fn test_mutation_request_extraction() {
    let create: Action<Page> = Action::CreateItem { pop_after: false };
    assert_eq!(create.mutation_request(), Some(MutationRequest::Create));
    let update: Action<Page> = Action::UpdateItem { entity_id: 4, pop_after: true };
    assert_eq!(
        update.mutation_request(),
        Some(MutationRequest::Update { entity_id: 4 })
    );
    let delete: Action<Page> = Action::DeleteItem { entity_id: 5, pop_after: true };
    assert_eq!(
        delete.mutation_request(),
        Some(MutationRequest::Delete { entity_id: 5 })
    );
    let nav: Action<Page> = Action::NavigateToPreviousPage;
    assert_eq!(nav.mutation_request(), None);
    let exit: Action<Page> = Action::Exit;
    assert_eq!(exit.mutation_request(), None);
}
