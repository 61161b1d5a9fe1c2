use eladmin_rs::menu::{MenuDTO, MenuType};
use eladmin_rs::menu_build::build_menus;
use eladmin_rs::menu_tree::build_tree;

fn menu(id: i64, pid: Option<i64>, type_: MenuType) -> MenuDTO {
    MenuDTO {
        id,
        pid,
        children: Vec::new(),
        sub_count: 0,
        type_,
        title: None,
        component_name: None,
        component: None,
        menu_sort: 0,
        icon: None,
        path: None,
        i_frame: None,
        cache: None,
        hidden: None,
        permission: None,
        create_by: None,
        update_by: None,
    }
}

#[test]
fn build_tree_attaches_children_under_roots() {
    let mut root = menu(1, None, MenuType::FOLDER);
    root.title = Some("System".to_string());
    root.path = Some("sys".to_string());
    let mut child = menu(2, Some(1), MenuType::MENU);
    child.title = Some("User".to_string());
    child.path = Some("user".to_string());
    child.permission = Some("p".to_string());
    let tree = build_tree(vec![root, child]);
    assert_eq!(tree.len(), 1);
    assert_eq!(tree[0].id, 1);
    assert_eq!(tree[0].children.len(), 1);
    assert_eq!(tree[0].children[0].id, 2);
    assert_eq!(tree[0].children[0].permission.as_deref(), Some("p"));
}

#[test]
fn round_trip_folder_with_entry() {
    // A folder root with one entry under it: the root is always shown,
    // the child keeps its unprefixed path and carries its title.
    let mut root = menu(1, None, MenuType::FOLDER);
    root.title = Some("System".to_string());
    root.path = Some("sys".to_string());
    root.i_frame = Some(false);
    let mut child = menu(2, Some(1), MenuType::MENU);
    child.title = Some("User".to_string());
    child.path = Some("user".to_string());
    child.permission = Some("p".to_string());
    let tree = build_tree(vec![root, child]);
    let vos = build_menus(tree);
    assert_eq!(vos.len(), 1);
    let root_vo = &vos[0];
    assert!(root_vo.always_show);
    assert_eq!(root_vo.redirect.as_deref(), Some("noredirect"));
    assert_eq!(root_vo.path.as_deref(), Some("/sys"));
    assert_eq!(root_vo.children.len(), 1);
    let child_vo = &root_vo.children[0];
    assert_eq!(child_vo.path.as_deref(), Some("user"));
    assert_eq!(child_vo.meta.as_ref().unwrap().title.as_deref(), Some("User"));
    assert!(!child_vo.always_show);
}

#[test]
fn childless_internal_frame_root_wraps_into_layout() {
    // Root with no children, internal frame, empty component: the
    // output demotes the root to a layout wrapper around a synthesized
    // leaf route at "index" reusing the resolved name and component.
    let mut root = menu(1, None, MenuType::MENU);
    root.title = Some("Home".to_string());
    root.component_name = Some("HomeName".to_string());
    root.component = Some(String::new());
    root.path = Some("home".to_string());
    root.i_frame = Some(false);
    let vos = build_menus(build_tree(vec![root]));
    assert_eq!(vos.len(), 1);
    let wrapper = &vos[0];
    assert_eq!(wrapper.component.as_deref(), Some("Layout"));
    assert_eq!(wrapper.name, None);
    assert!(wrapper.meta.is_none());
    assert_eq!(wrapper.path.as_deref(), Some("/home"));
    assert_eq!(wrapper.children.len(), 1);
    let leaf = &wrapper.children[0];
    assert_eq!(leaf.path.as_deref(), Some("index"));
    assert_eq!(leaf.component.as_deref(), Some("Layout"));
    assert_eq!(leaf.name.as_deref(), Some("HomeName"));
    assert_eq!(leaf.meta.as_ref().unwrap().title.as_deref(), Some("Home"));
}

#[test]
fn childless_external_root_keeps_raw_child_path() {
    let mut root = menu(1, None, MenuType::MENU);
    root.title = Some("Docs".to_string());
    root.path = Some("docs".to_string());
    root.i_frame = Some(true);
    let vos = build_menus(build_tree(vec![root]));
    let wrapper = &vos[0];
    assert_eq!(wrapper.component.as_deref(), Some("Layout"));
    let leaf = &wrapper.children[0];
    assert_eq!(leaf.path.as_deref(), Some("docs"));
    assert_eq!(leaf.name, None);
    assert_eq!(leaf.component, None);
}

#[test]
fn nested_folder_without_component_gets_parent_view() {
    let mut root = menu(1, None, MenuType::FOLDER);
    root.path = Some("sys".to_string());
    root.i_frame = Some(false);
    let mut sub = menu(2, Some(1), MenuType::FOLDER);
    sub.path = Some("sub".to_string());
    sub.i_frame = Some(false);
    let vos = build_menus(build_tree(vec![root, sub]));
    let child_vo = &vos[0].children[0];
    assert_eq!(child_vo.component.as_deref(), Some("ParentView"));
}

#[test]
fn build_tree_falls_back_to_unreferenced_records() {
    // No record has an empty parent id: the records never referenced
    // as a parent become the roots.
    let a = menu(1, Some(99), MenuType::MENU);
    let mut b = menu(2, Some(1), MenuType::MENU);
    b.path = Some("b".to_string());
    let tree = build_tree(vec![a, b]);
    // Record 1 is referenced as a parent (by record 2), so only
    // record 2 remains a root; nothing names it as a parent.
    assert_eq!(tree.len(), 1);
    assert_eq!(tree[0].id, 2);
    assert!(tree[0].children.is_empty());
}

#[test]
fn build_tree_on_empty_input_is_empty() {
    let tree = build_tree(Vec::new());
    assert!(tree.is_empty());
}

#[test]
fn no_cache_flag_inverts_cache() {
    let mut root = menu(1, None, MenuType::MENU);
    root.path = Some("a".to_string());
    root.cache = Some(true);
    root.i_frame = Some(true);
    let mut other = menu(2, None, MenuType::MENU);
    other.path = Some("b".to_string());
    let vos = build_menus(build_tree(vec![root, other]));
    assert!(!vos[0].children[0].meta.as_ref().unwrap().no_cache);
    assert!(vos[1].children[0].meta.as_ref().unwrap().no_cache);
}

#[test]
fn menu_type_codes_round_trip() {
    assert_eq!(MenuType::FOLDER.code(), 0);
    assert_eq!(MenuType::MENU.code(), 1);
    assert_eq!(MenuType::BUTTON.code(), 2);
    assert_eq!(MenuType::from_code(0), Some(MenuType::FOLDER));
    assert_eq!(MenuType::from_code(1), Some(MenuType::MENU));
    assert_eq!(MenuType::from_code(2), Some(MenuType::BUTTON));
    assert_eq!(MenuType::from_code(9), None);
}
