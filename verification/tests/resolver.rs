use std::collections::HashSet;

use discord_activity_mvp::config::ActivityDefinition;
use discord_activity_mvp::resolver::{resolve_activities, truncate};

fn definition(name: &str, process: &str) -> ActivityDefinition {
    ActivityDefinition {
        name: name.to_owned(),

        display_name: None,
        verb: None,
        image: None,
        image_url: None,

        buttons_enabled: true,
        buttons: Vec::new(),

        windows_processes: vec![process.to_owned()],
    }
}

fn running(names: HashSet<String>) -> Vec<String> {
    names.into_iter().collect()
}

#[test]
fn preserves_xml_order_and_combines_matches() {
    let definitions = vec![
        definition("World of Warcraft", "wow"),
        definition("Visual Studio Code", "code"),
        definition("OBS Studio", "obs"),
    ];
    let running = running(HashSet::from([
        "obs".to_owned(),
        "wow".to_owned(),
        "code".to_owned(),
    ]));

    let result = resolve_activities(&definitions, &running).expect("should resolve");
    assert_eq!(
        result.names,
        ["World of Warcraft", "Visual Studio Code", "OBS Studio"]
    );
    assert_eq!(result.details, "Active: World of Warcraft");
    assert_eq!(result.state, "Also: Visual Studio Code + OBS Studio");
}

#[test]
fn returns_none_when_nothing_matches() {
    let definitions = vec![definition("Game", "game")];
    assert!(resolve_activities(&definitions, &running(HashSet::new())).is_none());
}

#[test]
fn truncation_is_unicode_safe() {
    let value = "é".repeat(200);
    let result = truncate(&value, 128);
    assert_eq!(result.chars().count(), 128);
    assert!(result.ends_with('…'));
}

#[test]
fn single_match_reports_one_selected_activity() {
    let definitions = vec![definition("Game", "game"), definition("Editor", "editor")];
    let running = vec!["editor".to_owned()];
    let result = resolve_activities(&definitions, &running).expect("should resolve");
    assert_eq!(result.names, ["Editor"]);
    assert_eq!(result.details, "Active: Editor");
    assert_eq!(result.state, "1 selected activity");
}

#[test]
fn configured_names_match_after_trimming_and_lowercasing() {
    let definitions = vec![definition("Game", "  MyGame.EXE ")];
    let running = vec!["mygame.exe".to_owned()];
    let result = resolve_activities(&definitions, &running).expect("should resolve");
    assert_eq!(result.names, ["Game"]);
}

#[test]
fn any_alias_reveals_the_activity() {
    let mut game = definition("My Game", "MyGame.exe");
    game.windows_processes.push("MyGameLauncher.exe".to_owned());
    let running = vec!["mygamelauncher.exe".to_owned()];
    let result = resolve_activities(&[game], &running).expect("should resolve");
    assert_eq!(result.names, ["My Game"]);
}

#[test]
fn truncate_keeps_short_text_and_cuts_long_text() {
    assert_eq!(truncate("abc", 3), "abc");
    assert_eq!(truncate("abcd", 3), "ab…");
    assert_eq!(truncate("abcd", 0), "…");
    assert_eq!(truncate("", 0), "");
}

#[test]
fn long_lines_are_cut_to_the_field_limit() {
    let long_name = "x".repeat(200);
    let definitions = vec![definition(&long_name, "a"), definition("B", "b")];
    let running = vec!["a".to_owned(), "b".to_owned()];
    let result = resolve_activities(&definitions, &running).expect("should resolve");
    assert_eq!(result.details.chars().count(), 128);
    assert!(result.details.starts_with("Active: xxx"));
    assert!(result.details.ends_with('…'));
    assert_eq!(result.state, "Also: B");
}
