use solvanity::clock::{resolve_show_flags, App};
use solvanity::themes::{theme_stem, EditKey, ThemeChanger};
use solvanity::webassets::{asset_response, AssetResponse};

#[test]
fn all_parts_show_when_none_is_asked_for() {
    assert_eq!(resolve_show_flags(false, false, false), (true, true, true));
    assert_eq!(resolve_show_flags(true, false, false), (true, false, false));
    assert_eq!(resolve_show_flags(false, true, true), (false, true, true));
}

#[test]
fn clock_quits_on_q_only() {
    let mut app = App::default();
    assert!(!app.should_exit());
    app.on_key_char('x');
    assert!(!app.should_exit());
    app.on_key_char('q');
    assert!(app.should_exit());
}

#[test]
fn clock_configuration_is_kept() {
    let mut app = App::default();
    app.configure(true, false, true, true);
    assert!(app.shows_weekday());
    assert!(!app.shows_date());
    assert!(app.shows_time());
    assert!(app.shows_seconds());
}

#[test]
fn theme_stem_strips_the_suffix() {
    assert_eq!(theme_stem("gruvbox.toml"), "gruvbox");
    assert_eq!(theme_stem("plain"), "plain");
    assert_eq!(theme_stem(".toml"), "");
}

#[test]
fn filter_editing_moves_the_cursor() {
    let mut t = ThemeChanger::new(Vec::new());
    t.enter_char('a');
    t.enter_char('c');
    t.handle_key(EditKey::Letter('b'));
    assert_eq!(t.input_text(), "acb");
    t.delete_char();
    assert_eq!(t.input_text(), "ac");
    t.move_cursor_left();
    t.move_cursor_left();
    t.enter_char('z');
    assert_eq!(t.input_text(), "zac");
    t.handle_key(EditKey::Backspace);
    assert_eq!(t.input_text(), "ac");
}

#[test]
fn deleting_at_the_start_changes_nothing() {
    let mut t = ThemeChanger::new(Vec::new());
    t.enter_char('a');
    t.move_cursor_left();
    t.delete_char();
    assert_eq!(t.input_text(), "a");
}

#[test]
fn escape_leaves_and_restores() {
    let mut t = ThemeChanger::new(Vec::new());
    t.handle_key(EditKey::Escape);
    assert!(t.is_exited());
    assert!(t.wants_restore());
}

#[test]
fn enter_leaves_without_restoring() {
    let mut t = ThemeChanger::new(Vec::new());
    t.handle_key(EditKey::Enter);
    assert!(t.is_exited());
    assert!(!t.wants_restore());
}

#[test]
fn selection_moves_and_stays_in_bounds() {
    let names = vec!["a.toml".to_string(), "b.toml".to_string()];
    let mut t = ThemeChanger::new(names.clone());
    t.handle_key(EditKey::Down);
    let matched = t.get_matched_themes();
    assert_eq!(t.selected_theme(&matched), Some(&matched[1]));
    t.handle_key(EditKey::Down);
    assert_eq!(t.selected_theme(&matched), None);
    t.handle_key(EditKey::Up);
    t.handle_key(EditKey::Up);
    t.handle_key(EditKey::Up);
    assert_eq!(t.selected_theme(&matched), Some(&matched[0]));
}

#[test]
fn empty_filter_matches_every_theme() {
    let names = vec!["alpha.toml".to_string(), "beta.toml".to_string(), "gamma.toml".to_string()];
    let t = ThemeChanger::new(names);
    let matched = t.get_matched_themes();
    assert_eq!(matched.len(), 3);
    assert!(matched.contains(&"alpha.toml".to_string()));
    assert!(matched.contains(&"beta.toml".to_string()));
    assert!(matched.contains(&"gamma.toml".to_string()));
}

#[test]
fn filter_drops_themes_without_a_match() {
    let names = vec!["abc.toml".to_string(), "zzz.toml".to_string()];
    let mut t = ThemeChanger::new(names);
    t.enter_char('a');
    t.enter_char('b');
    let matched = t.get_matched_themes();
    assert_eq!(matched, vec!["abc.toml".to_string()]);
}

#[test]
fn found_asset_is_served_under_its_type() {
    match asset_response("index.html", Some(vec![104, 105])) {
        AssetResponse::Content { mime, body } => {
            assert_eq!(mime, "text/html");
            assert_eq!(body, vec![104, 105]);
        },
        AssetResponse::Missing => panic!("the asset exists"),
    }
}

#[test]
fn unknown_extension_falls_back_to_octet_stream() {
    match asset_response("blob.unknownext", Some(Vec::new())) {
        AssetResponse::Content { mime, .. } => assert_eq!(mime, "application/octet-stream"),
        AssetResponse::Missing => panic!("the asset exists"),
    }
}

#[test]
fn missing_asset_gives_not_found() {
    assert!(matches!(asset_response("gone.html", None), AssetResponse::Missing));
}
