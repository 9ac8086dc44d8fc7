use novel_downloader::recent_fonts::{
    loaded_fonts, remember_font, resolve_config_dir, store_path, FontCheck, RecentFont, MAX_RECENT_FONTS,
};

fn font(path: &str) -> RecentFont {
    RecentFont { path: path.to_string(), family_name: "F".to_string(), extension: "ttf".to_string(), size: 1 }
}

#[test]
fn xdg_config_home_wins_when_set_and_non_empty() {
    assert_eq!(resolve_config_dir(Some("/xdg"), Some("/home/user")), Some("/xdg".to_string()));
}

#[test]
fn an_empty_xdg_config_home_falls_back_to_home() {
    assert_eq!(resolve_config_dir(Some(""), Some("/home/user")), Some("/home/user/.config".to_string()));
}

#[test]
fn home_is_the_fallback_config_root() {
    assert_eq!(resolve_config_dir(None, Some("/home/user")), Some("/home/user/.config".to_string()));
}

#[test]
fn no_config_root_is_available_without_xdg_or_home() {
    assert_eq!(resolve_config_dir(None, None), None);
    assert_eq!(resolve_config_dir(Some(""), Some("")), None);
}

#[test]
fn the_store_lives_beneath_the_config_dir() {
    assert_eq!(store_path("/home/u/.config"), "/home/u/.config/novel-downloader/recent-fonts.json");
    assert_eq!(store_path("/xdg/"), "/xdg/novel-downloader/recent-fonts.json");
}

#[test]
fn recording_a_font_puts_it_first_and_drops_its_older_entry() {
    let fonts = vec![font("/a.ttf"), font("/b.ttf"), font("/c.ttf")];
    let updated = remember_font(fonts, font("/b.ttf"));
    let paths: Vec<&str> = updated.iter().map(|f| f.path.as_str()).collect();
    assert_eq!(paths, vec!["/b.ttf", "/a.ttf", "/c.ttf"]);
}

#[test]
fn the_list_never_grows_past_its_cap() {
    let fonts: Vec<RecentFont> = (0..MAX_RECENT_FONTS).map(|n| font(&format!("/f{n}.ttf"))).collect();
    let updated = remember_font(fonts, font("/new.ttf"));
    assert_eq!(updated.len(), MAX_RECENT_FONTS);
    assert_eq!(updated[0].path, "/new.ttf");
    assert_eq!(updated[MAX_RECENT_FONTS - 1].path, format!("/f{}.ttf", MAX_RECENT_FONTS - 2));
}

fn stored_font(path: &str, size: u64) -> RecentFont {
    RecentFont { path: path.to_string(), family_name: "Old".to_string(), extension: ".ttf".to_string(), size }
}

#[test]
fn loading_drops_uninspectable_fonts_and_refreshes_changed_ones() {
    let stored = vec![stored_font("/a.ttf", 10), stored_font("/b.ttf", 20), stored_font("/c.otf", 30)];
    let checks = vec![
        FontCheck { size: Some(10), reread: None },
        FontCheck { size: None, reread: None },
        FontCheck { size: Some(31), reread: Some(("New".to_string(), ".otf".to_string())) },
    ];
    let (fonts, rewrite) = loaded_fonts(stored, checks);
    assert!(rewrite);
    assert_eq!(fonts.len(), 2);
    assert_eq!(fonts[0], stored_font("/a.ttf", 10));
    assert_eq!(fonts[1].family_name, "New");
    assert_eq!(fonts[1].size, 31);
}

#[test]
fn a_clean_load_needs_no_rewrite() {
    let stored = vec![stored_font("/a.ttf", 10)];
    let (fonts, rewrite) = loaded_fonts(stored.clone(), vec![FontCheck { size: Some(10), reread: None }]);
    assert!(!rewrite);
    assert_eq!(fonts, stored);
    let (kept, stale) = loaded_fonts(stored.clone(), vec![FontCheck { size: Some(11), reread: None }]);
    assert!(!stale);
    assert_eq!(kept, stored);
}
