use jsonfizz::theme::colorize;
use jsonfizz::theme::Style;
use jsonfizz::theme::Theme;
use jsonfizz::theme::TokenKind;
use jsonfizz::JsonfizzError;

const NAMES: [&str; 11] = [
    "default",
    "solarized",
    "mono",
    "rainbow",
    "ocean",
    "forest",
    "pastel",
    "sakura",
    "cyberpunk",
    "ghibli",
    "evangelion",
];

#[test]
fn all_eleven_names_succeed() {
    for name in NAMES {
        assert!(Theme::new(name, false).is_ok(), "theme {} should exist", name);
    }
}

#[test]
fn themes_are_pairwise_distinct() {
    let themes: Vec<Theme> = NAMES.iter().map(|n| Theme::new(n, false).unwrap()).collect();
    for i in 0..themes.len() {
        for j in 0..themes.len() {
            if i != j {
                assert_ne!(themes[i], themes[j], "{} vs {}", NAMES[i], NAMES[j]);
            }
        }
    }
}

#[test]
fn unknown_theme_is_a_config_error() {
    match Theme::new("nonexistent", false) {
        Err(JsonfizzError::Config(m)) => {
            assert!(m.contains("Unknown theme 'nonexistent'"));
            assert!(m.contains("default"));
            assert!(m.contains("evangelion"));
        },
        other => panic!("expected a config error, got {:?}", other),
    }
}

#[test]
fn raw_mode_is_unstyled_for_any_name() {
    let theme = Theme::new("nonexistent", true).unwrap();
    let plain = Style { code: None };
    assert_eq!(theme.key, plain);
    assert_eq!(theme.string, plain);
    assert_eq!(theme.number, plain);
    assert_eq!(theme.boolean, plain);
    assert_eq!(theme.null, plain);
    assert_eq!(theme.punctuation, plain);
}

#[test]
fn theme_names_are_case_insensitive() {
    assert_eq!(Theme::new("DeFAULT", false).unwrap(), Theme::new("default", false).unwrap());
    assert_eq!(Theme::new("OCEAN", false).unwrap(), Theme::new("ocean", false).unwrap());
}

#[test]
fn colorize_wraps_and_resets() {
    let theme = Theme::new("default", false).unwrap();
    assert_eq!(colorize("x", TokenKind::Key, &theme), "\u{1b}[33mx\u{1b}[0m");
    let mono = Theme::new("mono", false).unwrap();
    assert_eq!(colorize("x", TokenKind::Key, &mono), "x");
}
