use dock::dock::icon_cache::IconCache;
use std::cell::RefCell;

#[test]
fn empty_app_id_gets_the_fallback_icon_and_is_not_cached() {
    let mut c = IconCache::new();
    let icon = c.icon_name_for_app_id("", &|_: &str| -> Option<String> { panic!("no lookup expected") });
    assert_eq!(icon, "application-x-executable-symbolic");
    assert!(c.get("").is_none());
}

#[test]
fn exact_desktop_file_wins() {
    let asked = RefCell::new(Vec::new());
    let lookup = |id: &str| -> Option<String> {
        asked.borrow_mut().push(id.to_string());
        if id == "Firefox.desktop" { Some("firefox-icon".to_string()) } else { None }
    };
    let mut c = IconCache::new();
    assert_eq!(c.icon_name_for_app_id("Firefox", &lookup), "firefox-icon");
    assert_eq!(*asked.borrow(), vec!["Firefox.desktop".to_string()]);
}

#[test]
fn lower_case_desktop_file_is_tried_second() {
    let asked = RefCell::new(Vec::new());
    let lookup = |id: &str| -> Option<String> {
        asked.borrow_mut().push(id.to_string());
        if id == "org.gnome.nautilus.desktop" { Some("nautilus".to_string()) } else { None }
    };
    let mut c = IconCache::new();
    assert_eq!(c.icon_name_for_app_id("org.gnome.Nautilus", &lookup), "nautilus");
    assert_eq!(
        *asked.borrow(),
        vec!["org.gnome.Nautilus.desktop".to_string(), "org.gnome.nautilus.desktop".to_string()]
    );
}

#[test]
fn unknown_app_uses_its_own_id_as_icon_name() {
    let mut c = IconCache::new();
    assert_eq!(c.icon_name_for_app_id("Mystery", &|_: &str| None), "Mystery");
    assert_eq!(c.get("Mystery").as_deref(), Some("Mystery"));
}

#[test]
fn second_request_is_answered_from_the_cache() {
    let calls = RefCell::new(0);
    let lookup = |_: &str| -> Option<String> {
        *calls.borrow_mut() += 1;
        Some("icon-a".to_string())
    };
    let mut c = IconCache::new();
    assert_eq!(c.icon_name_for_app_id("app", &lookup), "icon-a");
    let other = |_: &str| -> Option<String> { Some("icon-b".to_string()) };
    assert_eq!(c.icon_name_for_app_id("app", &other), "icon-a");
    assert_eq!(*calls.borrow(), 1);
    assert_eq!(c.get("app").as_deref(), Some("icon-a"));
}

#[test]
fn clear_forgets_resolved_icons() {
    let mut c = IconCache::new();
    c.icon_name_for_app_id("app", &|_: &str| Some("old".to_string()));
    c.clear();
    assert!(c.get("app").is_none());
    assert_eq!(c.icon_name_for_app_id("app", &|_: &str| Some("new".to_string())), "new");
}
