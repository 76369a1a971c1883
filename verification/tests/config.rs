use discord_activity_mvp::config::{
    ActivityDefinition, ButtonConfig, ButtonScope, Config, ConfigError, LinkName, Links,
    default_poll_seconds, default_true, normalize_optional, selected_buttons, trim_all,
    validate_buttons, validate_url,
};

fn button(label: &str, url: &str) -> ButtonConfig {
    ButtonConfig {
        label: label.to_owned(),
        url: url.to_owned(),
    }
}

fn activity(name: &str, processes: &[&str]) -> ActivityDefinition {
    ActivityDefinition {
        name: name.to_owned(),
        display_name: None,
        verb: None,
        image: None,
        image_url: None,
        buttons_enabled: true,
        buttons: Vec::new(),
        windows_processes: processes.iter().map(|p| p.to_string()).collect(),
    }
}

fn config(activities: Vec<ActivityDefinition>) -> Config {
    Config {
        discord_application_id: "123456789".to_owned(),
        poll_seconds: 3,
        links: None,
        activities,
    }
}

#[test]
fn defaults() {
    assert_eq!(default_poll_seconds(), 5);
    assert!(default_true());
}

#[test]
fn valid_configuration_passes() {
    let c = config(vec![activity("Game", &["Game.exe"])]);
    assert!(c.validate().is_ok());
}

#[test]
fn application_id_must_be_numeric() {
    let mut c = config(vec![activity("Game", &["Game.exe"])]);
    c.discord_application_id = "12a".to_owned();
    assert!(matches!(c.validate(), Err(ConfigError::InvalidApplicationId)));
    c.discord_application_id = String::new();
    assert!(matches!(c.validate(), Err(ConfigError::InvalidApplicationId)));
}

#[test]
fn poll_seconds_must_be_positive() {
    let mut c = config(vec![activity("Game", &["Game.exe"])]);
    c.poll_seconds = 0;
    assert!(matches!(c.validate(), Err(ConfigError::ZeroPollSeconds)));
}

#[test]
fn at_least_one_activity() {
    let c = config(Vec::new());
    assert!(matches!(c.validate(), Err(ConfigError::NoActivities)));
}

#[test]
fn duplicate_names_are_refused() {
    let c = config(vec![
        activity("Game", &["a.exe"]),
        activity("Game", &["b.exe"]),
    ]);
    match c.validate() {
        Err(ConfigError::DuplicateActivityName { name }) => assert_eq!(name, "Game"),
        _ => panic!("expected a duplicate name"),
    }
}

#[test]
fn empty_name_is_refused_with_its_position() {
    let c = config(vec![activity("Game", &["a.exe"]), activity("", &["b.exe"])]);
    assert!(matches!(
        c.validate(),
        Err(ConfigError::EmptyActivityName { index: 1 })
    ));
}

#[test]
fn activity_needs_a_process_name() {
    let c = config(vec![activity("Game", &[])]);
    match c.validate() {
        Err(ConfigError::NoProcessNames { name }) => assert_eq!(name, "Game"),
        _ => panic!("expected missing process names"),
    }
}

#[test]
fn image_url_must_be_a_web_link() {
    let mut a = activity("Game", &["a.exe"]);
    a.image_url = Some("ftp://x".to_owned());
    let c = config(vec![a]);
    match c.validate() {
        Err(ConfigError::UrlScheme {
            link: LinkName::ImageUrl { activity },
        }) => assert_eq!(activity, "Game"),
        _ => panic!("expected a bad image link"),
    }
}

#[test]
fn disabled_buttons_cannot_be_defined() {
    let mut a = activity("Game", &["a.exe"]);
    a.buttons_enabled = false;
    a.buttons.push(button("Site", "https://example.com"));
    let c = config(vec![a]);
    assert!(matches!(
        c.validate(),
        Err(ConfigError::ButtonsDisabledButDefined { .. })
    ));
}

#[test]
fn url_checks() {
    assert!(validate_url(LinkName::Download, "https://example.com").is_ok());
    assert!(validate_url(LinkName::Download, "http://example.com").is_ok());
    assert!(matches!(
        validate_url(LinkName::Download, "example.com"),
        Err(ConfigError::UrlScheme {
            link: LinkName::Download
        })
    ));
    let long = format!("https://{}", "a".repeat(504));
    assert!(validate_url(LinkName::Source, &long).is_ok());
    let too_long = format!("https://{}", "a".repeat(505));
    assert!(matches!(
        validate_url(LinkName::Source, &too_long),
        Err(ConfigError::UrlTooLong {
            link: LinkName::Source
        })
    ));
    let multibyte = format!("https://{}", "é".repeat(253));
    assert!(matches!(
        validate_url(LinkName::Source, &multibyte),
        Err(ConfigError::UrlTooLong { .. })
    ));
}

#[test]
fn button_checks() {
    let scope = ButtonScope::GlobalLinks;
    assert!(validate_buttons(&scope, &[button("A", "https://a"), button("B", "https://b")]).is_ok());
    assert!(matches!(
        validate_buttons(
            &scope,
            &[
                button("A", "https://a"),
                button("B", "https://b"),
                button("C", "https://c")
            ]
        ),
        Err(ConfigError::TooManyButtons { .. })
    ));
    assert!(matches!(
        validate_buttons(&scope, &[button("", "https://a")]),
        Err(ConfigError::ButtonLabel { .. })
    ));
    assert!(validate_buttons(&scope, &[button(&"é".repeat(32), "https://a")]).is_ok());
    assert!(matches!(
        validate_buttons(&scope, &[button(&"é".repeat(33), "https://a")]),
        Err(ConfigError::ButtonLabel { .. })
    ));
    match validate_buttons(&scope, &[button("Site", "nope")]) {
        Err(ConfigError::UrlScheme {
            link: LinkName::Button { label },
        }) => assert_eq!(label, "Site"),
        _ => panic!("expected a bad button link"),
    }
}

#[test]
fn repository_link_falls_back_to_source() {
    let links = Links::new(None, Vec::new(), None, Some("https://src".to_owned()));
    assert_eq!(links.repository(), Some("https://src"));
    assert_eq!(links.source(), Some("https://src"));
    assert_eq!(links.download(), None);
    let links = Links::new(
        Some("https://repo".to_owned()),
        Vec::new(),
        Some("https://dl".to_owned()),
        Some("https://src".to_owned()),
    );
    assert_eq!(links.repository(), Some("https://repo"));
    assert_eq!(links.download(), Some("https://dl"));
}

#[test]
fn bad_repository_fallback_is_reported_as_repository() {
    let mut c = config(vec![activity("Game", &["a.exe"])]);
    c.links = Some(Links::new(None, Vec::new(), None, Some("bad".to_owned())));
    assert!(matches!(
        c.validate(),
        Err(ConfigError::UrlScheme {
            link: LinkName::Repository
        })
    ));
}

#[test]
fn selected_buttons_fall_back_to_links() {
    let links = Links::new(None, vec![button("Shared", "https://s")], None, None);
    let mut own = activity("Game", &["a.exe"]);
    own.buttons.push(button("Own", "https://o"));
    assert_eq!(selected_buttons(Some(&own), Some(&links))[0].label, "Own");

    let plain = activity("Plain", &["p.exe"]);
    assert_eq!(selected_buttons(Some(&plain), Some(&links))[0].label, "Shared");
    assert_eq!(selected_buttons(None, Some(&links))[0].label, "Shared");
    assert!(selected_buttons(Some(&plain), None).is_empty());

    let mut off = activity("Off", &["o.exe"]);
    off.buttons_enabled = false;
    assert!(selected_buttons(Some(&off), Some(&links)).is_empty());
}

#[test]
fn optional_text_is_trimmed_or_dropped() {
    let mut value = Some("  text ".to_owned());
    normalize_optional(&mut value);
    assert_eq!(value.as_deref(), Some("text"));
    let mut blank = Some(" \t ".to_owned());
    normalize_optional(&mut blank);
    assert_eq!(blank, None);
    let mut none: Option<String> = None;
    normalize_optional(&mut none);
    assert_eq!(none, None);
}

#[test]
fn trim_all_drops_empty_names() {
    let mut names = vec![" a.exe ".to_owned(), "   ".to_owned(), "b.exe".to_owned()];
    trim_all(&mut names);
    assert_eq!(names, ["a.exe", "b.exe"]);
}

#[test]
fn button_trim() {
    let mut b = button(" Site ", " https://x ");
    b.trim();
    assert_eq!(b.label, "Site");
    assert_eq!(b.url, "https://x");
}

#[test]
fn prepare_normalizes_then_checks() {
    let mut a = activity("  Game ", &[" Game.exe ", "  ", "GameLauncher.exe"]);
    a.display_name = Some("   ".to_owned());
    a.verb = Some(" Playing ".to_owned());
    let mut c = config(vec![a]);
    c.discord_application_id = " 123 ".to_owned();
    c.links = Some(Links::new(
        Some(" https://repo ".to_owned()),
        vec![button(" Site ", " https://site ")],
        Some("  ".to_owned()),
        None,
    ));
    let prepared = c.prepare().ok().expect("should load");
    assert_eq!(prepared.discord_application_id, "123");
    let game = &prepared.activities[0];
    assert_eq!(game.name, "Game");
    assert_eq!(game.display_name, None);
    assert_eq!(game.verb.as_deref(), Some("Playing"));
    assert_eq!(game.process_names(), ["Game.exe", "GameLauncher.exe"]);
    let links = prepared.links.as_ref().expect("links");
    assert_eq!(links.repository(), Some("https://repo"));
    assert_eq!(links.download(), None);
    assert_eq!(links.buttons()[0].label, "Site");
    assert_eq!(links.buttons()[0].url, "https://site");
}

#[test]
fn prepare_reports_problems_after_normalizing() {
    let c = config(vec![activity("Game", &["   "])]);
    assert!(matches!(
        c.prepare(),
        Err(ConfigError::NoProcessNames { .. })
    ));
}

#[test]
fn error_messages() {
    let mut c = config(vec![activity("Game", &["a.exe"]), activity("", &["b.exe"])]);
    assert_eq!(
        c.validate().err().expect("refused").message(),
        "activity 2 has an empty name"
    );
    c.poll_seconds = 0;
    assert_eq!(
        c.validate().err().expect("refused").message(),
        "poll-seconds must be greater than zero"
    );
    let mut a = activity("Game", &["a.exe"]);
    a.image_url = Some("ftp://x".to_owned());
    assert_eq!(
        config(vec![a]).validate().err().expect("refused").message(),
        "link 'image-url for 'Game'' must start with http:// or https://"
    );
    let scope = ButtonScope::Activity {
        name: "Game".to_owned(),
    };
    let three = [button("A", "https://a"), button("B", "https://b"), button("C", "https://c")];
    assert_eq!(
        validate_buttons(&scope, &three).err().expect("refused").message(),
        "activity 'Game' supports at most two <button> entries"
    );
    assert_eq!(
        validate_buttons(&ButtonScope::GlobalLinks, &[button("", "https://a")])
            .err()
            .expect("refused")
            .message(),
        "global links: button labels must contain 1 to 32 characters"
    );
    assert_eq!(
        validate_url(LinkName::Repository, &format!("https://{}", "a".repeat(600)))
            .err()
            .expect("refused")
            .message(),
        "link 'repository' must not exceed 512 bytes"
    );
    assert_eq!(
        config(Vec::new()).validate().err().expect("refused").message(),
        "at least one activity is required"
    );
}
