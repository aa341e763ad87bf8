use gh_autopr::tabs::TabsState;

#[test]
fn test_tabs_state_new() {
    let tabs = TabsState::new(vec!["Tab1", "Tab2", "Tab3"]);
    assert_eq!(tabs.titles, vec!["Tab1", "Tab2", "Tab3"]);
    assert_eq!(tabs.index, 0);
}

#[test]
fn test_tabs_state_next() {
    let mut tabs = TabsState::new(vec!["Tab1", "Tab2", "Tab3"]);
    tabs.next();
    assert_eq!(tabs.index, 1);
    tabs.next();
    assert_eq!(tabs.index, 2);
    tabs.next();
    assert_eq!(tabs.index, 0);
}

#[test]
fn test_tabs_state_previous() {
    let mut tabs = TabsState::new(vec!["Tab1", "Tab2", "Tab3"]);
    tabs.previous();
    assert_eq!(tabs.index, 2);
    tabs.previous();
    assert_eq!(tabs.index, 1);
    tabs.previous();
    assert_eq!(tabs.index, 0);
}

#[test]
fn single_tab_stays_selected() {
    let mut tabs = TabsState::new(vec!["Only"]);
    tabs.next();
    assert_eq!(tabs.index, 0);
    tabs.previous();
    assert_eq!(tabs.index, 0);
}
