use hac_core_logic::collection_store::{
    CollectionStore, Directory, Request, RequestKind, RequestMethod, TreeEntry,
};
use hac_core_logic::new_collection_form::{FormFocus, FormState};
use hac_core_logic::sidebar::{build_lines, PaneFocus, Sidebar, SidebarEvent, SidebarKey};

fn store() -> CollectionStore {
    CollectionStore::new(vec![
        TreeEntry { depth: 0, kind: RequestKind::Nested(Directory { id: 1, name: "Auth".to_string() }) },
        TreeEntry {
            depth: 1,
            kind: RequestKind::Single(Request { id: 2, name: "login".to_string(), method: RequestMethod::Post }),
        },
        TreeEntry {
            depth: 0,
            kind: RequestKind::Single(Request { id: 3, name: "health".to_string(), method: RequestMethod::Get }),
        },
    ])
}

#[test]
fn lines_follow_visible_entries() {
    let s = store();
    let lines = build_lines(&s);
    assert_eq!(lines.len(), 2);
    assert_eq!(lines[0].index, 0);
    assert!(lines[0].is_dir && !lines[0].is_expanded && lines[0].is_hovered);
    assert_eq!(lines[1].index, 2);
    assert!(!lines[1].is_dir && !lines[1].is_hovered && !lines[1].is_selected);
}

#[test]
fn enter_toggles_directory_and_selects_request() {
    let mut s = store();
    let mut bar = Sidebar::new(true, true, &s);
    assert!(bar.handle_key_event(SidebarKey::Enter, &mut s).is_none());
    assert!(s.is_dir_expanded(1));
    assert_eq!(bar.lines.len(), 3);
    assert_eq!(bar.lines[1].level, 1);
    bar.handle_key_event(SidebarKey::Down, &mut s);
    assert_eq!(s.get_hovered_request(), Some(2));
    bar.handle_key_event(SidebarKey::Enter, &mut s);
    assert_eq!(s.get_selected_request().as_ref().map(|r| r.id), Some(2));
    assert!(bar.lines[1].is_selected && bar.lines[1].is_hovered);
    bar.handle_key_event(SidebarKey::Up, &mut s);
    assert_eq!(s.get_hovered_request(), Some(1));
}

#[test]
fn keys_that_leave_the_sidebar() {
    let mut s = store();
    let mut bar = Sidebar::new(true, true, &s);
    assert!(matches!(bar.handle_key_event(SidebarKey::Quit, &mut s), Some(SidebarEvent::Quit)));
    assert!(matches!(
        bar.handle_key_event(SidebarKey::New, &mut s),
        Some(SidebarEvent::CreateRequest)
    ));
    assert!(bar.handle_key_event(SidebarKey::Other, &mut s).is_none());
    assert_eq!(s.get_hovered_request(), Some(1));
}

#[test]
fn focus_and_selection_follow_panes() {
    let s = store();
    let mut bar = Sidebar::new(false, false, &s);
    bar.maybe_select(Some(&PaneFocus::Sidebar));
    assert!(bar.is_selected);
    bar.maybe_select(None);
    assert!(!bar.is_selected);
    bar.maybe_focus(&PaneFocus::Sidebar);
    assert!(bar.is_focused);
    bar.maybe_focus(&PaneFocus::Editor);
    assert!(!bar.is_focused);
}

#[test]
fn form_reset_clears_fields() {
    let mut form = FormState::default();
    assert_eq!(form.focused_field, FormFocus::Name);
    form.name.push_str("api");
    form.description.push_str("desc");
    form.focused_field = FormFocus::Cancel;
    form.reset();
    assert_eq!(form.name, "");
    assert_eq!(form.description, "");
    assert_eq!(form.focused_field, FormFocus::Name);
}

#[test]
fn directory_label_lowercases_and_dashes() {
    assert_eq!(hac_core_logic::sidebar::directory_label(1, false, "My Dir"), "  > my-dir/");
    assert_eq!(hac_core_logic::sidebar::directory_label(0, true, "API"), "v api/");
}

#[test]
fn directory_label_from_lower_keeps_case() {
    assert_eq!(hac_core_logic::sidebar::directory_label_from_lower(0, true, "a B"), "v a-B/");
}

#[test]
fn request_label_has_method_and_name() {
    assert_eq!(
        hac_core_logic::sidebar::request_label(1, RequestMethod::Post, "login"),
        "  POST   login"
    );
    assert_eq!(hac_core_logic::sidebar::method_label(RequestMethod::Delete), "DELETE");
    assert_eq!(hac_core_logic::sidebar::method_label(RequestMethod::Get), "GET   ");
}

#[test]
fn lines_carry_their_text() {
    let s = CollectionStore::new(vec![
        TreeEntry { depth: 0, kind: RequestKind::Nested(Directory { id: 1, name: "DirA".to_string() }) },
        TreeEntry {
            depth: 1,
            kind: RequestKind::Single(Request { id: 2, name: "ReqX".to_string(), method: RequestMethod::Get }),
        },
        TreeEntry {
            depth: 0,
            kind: RequestKind::Single(Request { id: 3, name: "ReqY".to_string(), method: RequestMethod::Get }),
        },
    ]);
    let lines = build_lines(&s);
    assert_eq!(lines.len(), 2);
    assert_eq!(lines[0].text, "> dira/");
    assert_eq!(lines[1].text, "GET    ReqY");
}

#[test]
fn keys_without_hover_leave_lines() {
    let mut s = CollectionStore::new(vec![]);
    let mut bar = Sidebar::new(true, true, &s);
    assert!(bar.handle_key_event(SidebarKey::Down, &mut s).is_none());
    assert!(bar.handle_key_event(SidebarKey::Enter, &mut s).is_none());
    assert!(bar.lines.is_empty());
}
