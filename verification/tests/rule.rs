use life_engine::config::Config;
use life_engine::preset::Preset;
use life_engine::rule::{rule_string, Rule};

#[test]
fn rulestring_from() {
    let rule = Rule::from("2983uhjnere");
    assert_eq!(Rule::default(), rule);

    let rule = Rule::from("B45/S10");
    let expected = Rule {
        birth_list: vec![4, 5],
        survival_list: vec![1, 0],
    };

    assert_eq!(rule, expected);
}

#[test]
fn alphabetic_character_aborts_parsing() {
    assert_eq!(Rule::from("B3x/S2"), Rule::default());
}

#[test]
fn empty_rulestring_gives_empty_lists() {
    let rule = Rule::from("");
    assert_eq!(rule.birth_list, Vec::<u8>::new());
    assert_eq!(rule.survival_list, Vec::<u8>::new());
}

#[test]
fn punctuation_is_skipped_inside_sections() {
    let rule = Rule::from("B3-6/S2,3");
    assert_eq!(rule.birth_list, vec![3, 6]);
    assert_eq!(rule.survival_list, vec![2, 3]);
}

#[test]
fn format_parse_round_trips_canonical_strings() {
    for s in ["B3/S23", "B/S", "B012345678/S08", "B45/S10"] {
        assert_eq!(rule_string(&Rule::from(s)), s);
    }
}

#[test]
fn format_renders_multi_digit_counts() {
    let rule = Rule {
        birth_list: vec![235, 10],
        survival_list: vec![0],
    };
    assert_eq!(rule_string(&rule), "B23510/S0");
}

#[test]
fn preset_names_resolve() {
    assert!(matches!(Preset::from("Blinker"), Preset::Blinker));
    assert!(matches!(Preset::from("Mold"), Preset::Mold));
    assert!(matches!(Preset::from("Random"), Preset::Random));
    assert!(matches!(Preset::from("blinker"), Preset::Empty));
    assert!(matches!(Preset::from(""), Preset::Empty));
}

#[test]
fn config_build_resolves_all_fields() {
    let config = Config::build("Mold", "B45/S10", 42);
    assert!(matches!(config.preset, Preset::Mold));
    assert_eq!(config.rule.birth_list, vec![4, 5]);
    assert_eq!(config.rule.survival_list, vec![1, 0]);
    assert_eq!(config.tickrate, 42);
}
