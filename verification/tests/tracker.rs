use discord_activity_mvp::config::{ActivityDefinition, ButtonConfig, Links};
use discord_activity_mvp::presence::{buttons_from_links, hidden_presence};
use discord_activity_mvp::resolver::ResolvedActivity;
use discord_activity_mvp::tracker::{
    Publish, Tracker, change_message, fit_discord_text, format_duration,
};

fn activity(name: &str, process: &str) -> ActivityDefinition {
    ActivityDefinition {
        name: name.to_owned(),
        display_name: None,
        verb: None,
        image: None,
        image_url: None,
        buttons_enabled: true,
        buttons: Vec::new(),
        windows_processes: vec![process.to_owned()],
    }
}

fn shown(publish: &Publish) -> (String, String, Option<String>, Option<String>, String) {
    match publish {
        Publish::Show { presence, selected } => (
            presence.details.clone(),
            presence.state.clone(),
            presence.image.clone(),
            presence.hover.clone(),
            selected.clone(),
        ),
        _ => panic!("expected a presence to publish"),
    }
}

#[test]
fn durations_read_as_minutes_then_hours() {
    assert_eq!(format_duration(0), "0m");
    assert_eq!(format_duration(59), "59m");
    assert_eq!(format_duration(60), "1h00m");
    assert_eq!(format_duration(65), "1h05m");
    assert_eq!(format_duration(125), "2h05m");
    assert_eq!(format_duration(6000), "100h00m");
}

#[test]
fn short_text_is_kept() {
    let text = "x".repeat(128);
    assert_eq!(fit_discord_text(text.clone()), text);
}

#[test]
fn long_text_is_cut_at_a_char_boundary() {
    let cut = fit_discord_text("x".repeat(129));
    assert_eq!(cut, format!("{}...", "x".repeat(125)));

    // 'é' takes two bytes: 62 of them fit in 125 bytes.
    let cut = fit_discord_text("é".repeat(100));
    assert_eq!(cut, format!("{}...", "é".repeat(62)));
    assert!(cut.len() <= 128);
}

#[test]
fn change_lines() {
    let resolved = ResolvedActivity {
        names: vec!["A".to_owned(), "B".to_owned()],
        details: String::new(),
        state: String::new(),
    };
    assert_eq!(change_message(Some(&resolved)), "Detected: A + B");
    assert_eq!(change_message(None), "No configured activity detected.");
}

#[test]
fn legacy_link_buttons() {
    let links = Links::new(
        None,
        Vec::new(),
        Some("https://dl".to_owned()),
        Some("https://src".to_owned()),
    );
    let buttons = buttons_from_links(Some(&links));
    assert_eq!(buttons.len(), 2);
    assert_eq!(buttons[0].label, "Baixar para Windows");
    assert_eq!(buttons[0].url, "https://dl");
    assert_eq!(buttons[1].label, "Ver código-fonte");
    assert_eq!(buttons[1].url, "https://src");
    assert!(buttons_from_links(None).is_empty());
    let hidden = hidden_presence(Some(&links));
    assert_eq!(hidden.details, "Activities hidden");
    assert_eq!(hidden.state, "0 activities displayed");
    assert_eq!(hidden.buttons.len(), 2);
    assert!(hidden.started_at.is_none());
}

#[test]
fn first_look_publishes_the_detected_activity() {
    let definitions = vec![activity("World of Warcraft", "wow.exe")];
    let mut tracker = Tracker::new(0);
    let step = tracker.observe(&definitions, None, &["wow.exe".to_owned()], 0, 1_700_000_000_000);
    assert_eq!(step.change.as_deref(), Some("Detected: World of Warcraft"));
    let (details, state, image, hover, selected) = shown(&step.publish);
    assert_eq!(details, "Active: World of Warcraft");
    assert_eq!(state, "1 selected activity");
    assert_eq!(image.as_deref(), Some("tracker"));
    assert_eq!(hover.as_deref(), Some("World of Warcraft · 0m"));
    assert_eq!(selected, "World of Warcraft");
    match &step.publish {
        Publish::Show { presence, .. } => assert_eq!(presence.started_at, Some(1_700_000_000_000)),
        _ => unreachable!(),
    }
}

#[test]
fn unchanged_presence_is_not_resent_until_the_refresh() {
    let definitions = vec![activity("Game", "game.exe")];
    let running = vec!["game.exe".to_owned()];
    let mut tracker = Tracker::new(0);
    let step = tracker.observe(&definitions, None, &running, 0, 1);
    tracker.record_send(true, 0);

    let step = tracker.observe(&definitions, None, &running, 5_000, 2);
    assert!(step.change.is_none());
    assert!(matches!(step.publish, Publish::Nothing));

    let step = tracker.observe(&definitions, None, &running, 60_000, 3);
    assert!(matches!(step.publish, Publish::Show { .. }));
}

#[test]
fn failed_send_is_retried_on_the_next_look() {
    let definitions = vec![activity("Game", "game.exe")];
    let running = vec!["game.exe".to_owned()];
    let mut tracker = Tracker::new(0);
    let step = tracker.observe(&definitions, None, &running, 0, 1);
    tracker.record_send(false, 0);
    let step = tracker.observe(&definitions, None, &running, 1_000, 1);
    assert!(matches!(step.publish, Publish::Show { .. }));
}

#[test]
fn readme_example_presence() {
    let definitions = vec![
        activity("World of Warcraft", "wow.exe"),
        activity("Visual Studio Code", "code.exe"),
        activity("OBS Studio", "obs64.exe"),
    ];
    let running = vec!["obs64.exe".to_owned(), "wow.exe".to_owned(), "code.exe".to_owned()];
    let mut tracker = Tracker::new(0);
    let step = tracker.observe(&definitions, None, &running, 0, 42);
    let (details, state, _, _, selected) = shown(&step.publish);
    assert_eq!(details, "Active: World of Warcraft");
    assert_eq!(state, "Also: Visual Studio Code + OBS Studio");
    assert_eq!(selected, "World of Warcraft");
}

#[test]
fn rotation_alone_does_not_resend() {
    let definitions = vec![activity("Game", "game.exe"), activity("Editor", "editor.exe")];
    let running = vec!["game.exe".to_owned(), "editor.exe".to_owned()];
    let mut tracker = Tracker::new(0);
    let step = tracker.observe(&definitions, None, &running, 0, 7);
    tracker.record_send(true, 0);
    assert!(matches!(step.publish, Publish::Show { .. }));
    let step = tracker.observe(&definitions, None, &running, 30_000, 7);
    assert!(matches!(step.publish, Publish::Nothing));
}

#[test]
fn elapsed_time_and_rotation() {
    let mut game = activity("Game", "game.exe");
    game.display_name = Some("The Game".to_owned());
    game.verb = Some("Playing".to_owned());
    game.image = Some("game-art".to_owned());
    let definitions = vec![game, activity("Editor", "editor.exe")];
    let running = vec!["game.exe".to_owned(), "editor.exe".to_owned()];
    let mut tracker = Tracker::new(0);

    // Without a recorded send every look publishes, which shows the rotation.
    let step = tracker.observe(&definitions, None, &running, 0, 7);
    let (details, state, image, hover, selected) = shown(&step.publish);
    assert_eq!(details, "Active: Game");
    assert_eq!(state, "Also: Editor");
    assert_eq!(image.as_deref(), Some("game-art"));
    assert_eq!(hover.as_deref(), Some("Game · 0m"));
    assert_eq!(selected, "Game");

    let step = tracker.observe(&definitions, None, &running, 30_000, 8);
    let (details, _, image, hover, selected) = shown(&step.publish);
    assert_eq!(details, "Active: Game");
    assert_eq!(image.as_deref(), Some("tracker"));
    assert_eq!(hover.as_deref(), Some("Editor · 0m"));
    assert_eq!(selected, "Editor");

    // 65 minutes in, the rotation index is (3900 / 30) % 2 == 0.
    let step = tracker.observe(&definitions, None, &running, 3_900_000, 9);
    let (_, _, _, hover, _) = shown(&step.publish);
    assert_eq!(hover.as_deref(), Some("Game · 1h05m"));
    match &step.publish {
        Publish::Show { presence, .. } => assert_eq!(presence.started_at, Some(7)),
        _ => unreachable!(),
    }
}

#[test]
fn session_restarts_when_the_detected_set_changes() {
    let definitions = vec![activity("Game", "game.exe"), activity("Editor", "editor.exe")];
    let mut tracker = Tracker::new(0);
    let step = tracker.observe(&definitions, None, &["game.exe".to_owned()], 0, 100);
    tracker.record_send(true, 0);
    assert!(matches!(step.publish, Publish::Show { .. }));

    let both = vec!["game.exe".to_owned(), "editor.exe".to_owned()];
    let step = tracker.observe(&definitions, None, &both, 5_000, 200);
    assert_eq!(step.change.as_deref(), Some("Detected: Game + Editor"));
    match &step.publish {
        Publish::Show { presence, .. } => {
            assert_eq!(presence.started_at, Some(200));
            assert_eq!(presence.details, "Active: Game");
            assert_eq!(presence.state, "Also: Editor");
            assert_eq!(presence.hover.as_deref(), Some("Game · 0m"));
        }
        _ => panic!("a change of the detected set publishes"),
    }
}

#[test]
fn nothing_running_clears_once() {
    let definitions = vec![activity("Game", "game.exe")];
    let mut tracker = Tracker::new(0);
    let step = tracker.observe(&definitions, None, &[], 0, 1);
    assert!(step.change.is_none());
    assert!(matches!(step.publish, Publish::Clear));
    tracker.record_send(true, 0);
    let step = tracker.observe(&definitions, None, &[], 5_000, 1);
    assert!(matches!(step.publish, Publish::Nothing));
}

#[test]
fn activity_ending_clears_and_restarts_the_session() {
    let definitions = vec![activity("Game", "game.exe")];
    let running = vec!["game.exe".to_owned()];
    let mut tracker = Tracker::new(0);
    let step = tracker.observe(&definitions, None, &running, 0, 100);
    tracker.record_send(true, 0);

    let step = tracker.observe(&definitions, None, &[], 5_000, 200);
    assert_eq!(step.change.as_deref(), Some("No configured activity detected."));
    assert!(matches!(step.publish, Publish::Clear));
    tracker.record_send(true, 5_000);

    let step = tracker.observe(&definitions, None, &running, 10_000, 300);
    match &step.publish {
        Publish::Show { presence, .. } => assert_eq!(presence.started_at, Some(300)),
        _ => panic!("expected a presence"),
    }
}

#[test]
fn hidden_mode_publishes_once_and_resumes() {
    let definitions = vec![activity("Game", "game.exe")];
    let running = vec!["game.exe".to_owned()];
    let links = Links::new(None, Vec::new(), Some("https://dl".to_owned()), None);
    let mut tracker = Tracker::new(0);
    let step = tracker.observe(&definitions, Some(&links), &running, 0, 100);
    tracker.record_send(true, 0);

    let hidden = tracker.enter_hidden(Some(&links)).expect("first hidden look publishes");
    assert_eq!(hidden.details, "Activities hidden");
    tracker.record_hidden(true);
    assert!(tracker.enter_hidden(Some(&links)).is_none());

    let step = tracker.observe(&definitions, Some(&links), &running, 10_000, 500);
    match &step.publish {
        Publish::Show { presence, .. } => assert_eq!(presence.started_at, Some(500)),
        _ => panic!("expected a presence after hidden mode"),
    }
}

#[test]
fn per_activity_buttons_are_published() {
    let mut game = activity("Game", "game.exe");
    game.buttons.push(ButtonConfig {
        label: "Site".to_owned(),
        url: "https://game".to_owned(),
    });
    let definitions = vec![game];
    let mut tracker = Tracker::new(0);
    let step = tracker.observe(&definitions, None, &["game.exe".to_owned()], 0, 1);
    match &step.publish {
        Publish::Show { presence, .. } => {
            assert_eq!(presence.buttons.len(), 1);
            assert_eq!(presence.buttons[0].url, "https://game");
        }
        _ => panic!("expected a presence"),
    }
}

#[test]
fn shared_buttons_come_before_legacy_links() {
    let shared = ButtonConfig {
        label: "Site".to_owned(),
        url: "https://site".to_owned(),
    };
    let links = Links::new(
        None,
        vec![shared],
        Some("https://dl".to_owned()),
        Some("https://src".to_owned()),
    );
    let buttons = buttons_from_links(Some(&links));
    assert_eq!(buttons.len(), 1);
    assert_eq!(buttons[0].label, "Site");
    assert_eq!(buttons[0].url, "https://site");
    let hidden = hidden_presence(Some(&links));
    assert_eq!(hidden.buttons.len(), 1);
    assert_eq!(hidden.buttons[0].label, "Site");
}

#[test]
fn visible_presence_falls_back_to_link_buttons() {
    let links = Links::new(None, Vec::new(), Some("https://dl".to_owned()), None);
    let definitions = vec![activity("Game", "game.exe")];
    let mut tracker = Tracker::new(0);
    let step = tracker.observe(&definitions, Some(&links), &["game.exe".to_owned()], 0, 1);
    match &step.publish {
        Publish::Show { presence, .. } => {
            assert_eq!(presence.buttons.len(), 1);
            assert_eq!(presence.buttons[0].label, "Baixar para Windows");
            assert_eq!(presence.buttons[0].url, "https://dl");
        }
        _ => panic!("expected a presence"),
    }

    let mut off = activity("Game", "game.exe");
    off.buttons_enabled = false;
    let mut tracker = Tracker::new(0);
    let step = tracker.observe(&[off], Some(&links), &["game.exe".to_owned()], 0, 1);
    match &step.publish {
        Publish::Show { presence, .. } => assert!(presence.buttons.is_empty()),
        _ => panic!("expected a presence"),
    }
}
