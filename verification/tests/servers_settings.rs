use vexora::servers::{
    dialog_title, port_of_address, servers_page_scrollable, DialogAction, DialogTitle, servers_view, sort_servers, CellKind, ColumnSort, InstancesViewMode,
    ServerListItem, ServerListItemStatus, ServersTable, ServersView, SortField,
};
use vexora::settings::{language_from_selection, language_items, language_selection, Language};

fn item(name: &str, address: &str) -> ServerListItem {
    ServerListItem {
        name: name.to_string(),
        address: address.to_string(),
        png_icon: None,
        status: ServerListItemStatus::Unknown,
    }
}

fn names(items: &[ServerListItem]) -> Vec<String> {
    items.iter().map(|i| i.name.clone()).collect()
}

#[test]
fn table_columns_and_rows() {
    let t = ServersTable::new(vec![item("a", "1"), item("b", "2")]);
    assert_eq!(t.rows_count(), 2);
    assert_eq!(t.columns_count(), 4);
    assert_eq!(t.column(0), "name");
    assert_eq!(t.column(1), "address");
    assert_eq!(t.column(3), "actions");
}

#[test]
fn sort_by_name_is_stable_both_ways() {
    let mut t = ServersTable::new(vec![
        item("b", "1"),
        item("a", "2"),
        item("b", "3"),
        item("C", "4"),
        item("a", "5"),
    ]);
    t.perform_sort(0, ColumnSort::Ascending);
    assert_eq!(names(&t.items), vec!["C", "a", "a", "b", "b"]);
    let addrs: Vec<&str> = t.items.iter().map(|i| i.address.as_str()).collect();
    assert_eq!(addrs, vec!["4", "2", "5", "1", "3"]);
    t.perform_sort(0, ColumnSort::Descending);
    let addrs: Vec<&str> = t.items.iter().map(|i| i.address.as_str()).collect();
    assert_eq!(addrs, vec!["1", "3", "2", "5", "4"]);
}

#[test]
fn sort_by_address_and_other_columns() {
    let mut t = ServersTable::new(vec![item("x", "b:1"), item("y", "a:2"), item("z", "ab")]);
    t.perform_sort(1, ColumnSort::Default);
    assert_eq!(names(&t.items), vec!["y", "z", "x"]);
    t.perform_sort(1, ColumnSort::Descending);
    assert_eq!(names(&t.items), vec!["x", "z", "y"]);
    t.perform_sort(2, ColumnSort::Ascending);
    assert_eq!(names(&t.items), vec!["x", "z", "y"]);
    t.perform_sort(9, ColumnSort::Ascending);
    assert_eq!(names(&t.items), vec!["x", "z", "y"]);
}

#[test]
fn sort_matches_string_order() {
    let items = vec![item("é", ""), item("z", ""), item("", ""), item("Z", ""), item("zz", "")];
    let mut expected = names(&items);
    expected.sort();
    assert_eq!(names(&sort_servers(items, SortField::Name, false)), expected);
}

#[test]
fn port_is_after_last_colon() {
    assert_eq!(port_of_address("play.example.org:25566"), "25566");
    assert_eq!(port_of_address("[::1]:25565"), "25565");
    assert_eq!(port_of_address("example.org"), "example.org");
    assert_eq!(port_of_address("host:"), "");
    assert_eq!(port_of_address(""), "");
}

#[test]
fn scrollable_only_for_cards() {
    assert!(servers_page_scrollable(InstancesViewMode::Cards));
    assert!(!servers_page_scrollable(InstancesViewMode::List));
}

#[test]
fn language_selection_round_trip() {
    assert!(matches!(language_from_selection("system"), Language::System));
    match language_from_selection("de_DE") {
        Language::Code(c) => assert_eq!(c, "de_DE"),
        Language::System => panic!("expected a code"),
    }
    assert_eq!(language_selection(&Language::System), "system");
    assert_eq!(language_selection(&Language::Code("fr".to_string())), "fr");
    // The code `system` cannot be told from the system language.
    assert!(matches!(language_from_selection(&language_selection(&Language::Code("system".into()))), Language::System));
}

#[test]
fn language_dropdown_lists_system_first() {
    let items = language_items(&vec!["en_US".to_string(), "de_DE".to_string()]);
    assert_eq!(items, vec!["system".to_string(), "en_US".to_string(), "de_DE".to_string()]);
    assert_eq!(language_items(&vec![]), vec!["system".to_string()]);
}

#[test]
fn cells_follow_the_column_keys() {
    let mut t = ServersTable::new(vec![item("a", "1"), item("b", "2")]);
    assert_eq!(t.cell_kind(0, 0), CellKind::Name);
    assert_eq!(t.cell_kind(1, 1), CellKind::Address);
    assert_eq!(t.cell_kind(1, 2), CellKind::Status);
    assert_eq!(t.cell_kind(0, 3), CellKind::Actions);
    assert_eq!(t.cell_kind(0, 4), CellKind::Unknown);
    assert_eq!(t.cell_kind(2, 0), CellKind::Unknown);
    t.columns.push("other".to_string());
    assert_eq!(t.cell_kind(0, 4), CellKind::Unknown);
}

#[test]
fn page_view_follows_count_and_mode() {
    assert_eq!(servers_view(0, InstancesViewMode::Cards), ServersView::Empty);
    assert_eq!(servers_view(0, InstancesViewMode::List), ServersView::Empty);
    assert_eq!(servers_view(3, InstancesViewMode::Cards), ServersView::Cards);
    assert_eq!(servers_view(1, InstancesViewMode::List), ServersView::List);
}

#[test]
fn dialog_titles_follow_the_action() {
    assert_eq!(dialog_title(DialogAction::Add), DialogTitle::AddServer);
    assert_eq!(dialog_title(DialogAction::Edit), DialogTitle::EditServer);
    assert_eq!(dialog_title(DialogAction::Delete), DialogTitle::DeleteServer);
    assert_eq!(dialog_title(DialogAction::Confirm), DialogTitle::Unknown);
    assert_eq!(dialog_title(DialogAction::Cancel), DialogTitle::Unknown);
}
