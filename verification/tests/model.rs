use pfl_forge::config::ModelSettings;
use pfl_forge::model::{resolve, resolve_lowered, Complexity, HAIKU, OPUS, SONNET};

#[test]
fn resolve_knows_the_three_tiers() {
    assert_eq!(resolve("haiku"), HAIKU);
    assert_eq!(resolve("sonnet"), SONNET);
    assert_eq!(resolve("opus"), OPUS);
}

#[test]
fn resolve_ignores_case() {
    assert_eq!(resolve("HAIKU"), HAIKU);
    assert_eq!(resolve("Opus"), OPUS);
}

#[test]
fn resolve_falls_back_to_the_default_tier() {
    assert_eq!(resolve("gpt"), SONNET);
    assert_eq!(resolve(""), SONNET);
    assert_eq!(resolve_lowered("HAIKU"), SONNET);
    assert_eq!(resolve_lowered("opus"), OPUS);
}

#[test]
fn complexity_parse() {
    assert_eq!(Complexity::parse("low"), Ok(Complexity::Low));
    assert_eq!(Complexity::parse("Medium"), Ok(Complexity::Medium));
    assert_eq!(Complexity::parse("HIGH"), Ok(Complexity::High));
    assert_eq!(Complexity::parse("Huge"), Err("unknown complexity: Huge".to_string()));
    assert_eq!("high".parse::<Complexity>(), Ok(Complexity::High));
    assert_eq!(Complexity::from_lowered("LOW"), None);
}

#[test]
fn complexity_defaults_to_medium() {
    assert_eq!(Complexity::parse_or_medium("nonsense"), Complexity::Medium);
    assert_eq!(Complexity::parse_or_medium("High"), Complexity::High);
    assert_eq!(Complexity::parse_or_medium(""), Complexity::Medium);
}

#[test]
fn select_model_by_complexity() {
    let settings = ModelSettings {
        triage: "haiku".into(),
        default: "Sonnet".into(),
        complex: "OPUS".into(),
    };
    assert_eq!(Complexity::Low.select_model(&settings), SONNET);
    assert_eq!(Complexity::Medium.select_model(&settings), SONNET);
    assert_eq!(Complexity::High.select_model(&settings), OPUS);
    let odd = ModelSettings { triage: "x".into(), default: "haiku".into(), complex: "y".into() };
    assert_eq!(Complexity::Low.select_model(&odd), HAIKU);
    assert_eq!(Complexity::High.select_model(&odd), SONNET);
}
