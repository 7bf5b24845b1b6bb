use rsl::Distribution;
use rsl::HashIcon;
use rsl::Override;
use rsl::Weights;
use rsl::WeightsRule;

fn range_rule(setting: &str, min: u64, max: u64) -> WeightsRule {
    WeightsRule::Range {
        setting: setting.to_string(),
        distribution: Distribution::Uniform,
        min,
        max,
    }
}

fn five_rule_doc() -> Weights {
    Weights {
        hash: [HashIcon::DekuStick, HashIcon::Bow],
        world_count: 1,
        disabled_locations: vec![],
        allowed_tricks: vec![],
        random_starting_items: false,
        starting_items: vec!["base item".to_string()],
        starting_songs: vec![],
        starting_equipment: vec![],
        weights: vec![
            range_rule("a", 0, 1),
            range_rule("b", 0, 1),
            range_rule("x", 0, 1),
            range_rule("d", 0, 1),
            range_rule("e", 0, 1),
        ],
    }
}

fn empty_override() -> Override {
    Override {
        starting_items: None,
        starting_songs: None,
        starting_equipment: None,
        weights: vec![],
    }
}

#[test]
fn patch_rule_replaces_in_place() {
    let mut doc = five_rule_doc();
    let patch = Override { weights: vec![range_rule("x", 7, 9)], ..empty_override() };
    doc.compose(patch);
    assert_eq!(doc.weights.len(), 5);
    let settings: Vec<String> = doc.weights.iter().map(|r| r.setting().clone()).collect();
    assert_eq!(settings, ["a", "b", "x", "d", "e"]);
    match &doc.weights[2] {
        WeightsRule::Range { min, max, .. } => {
            assert_eq!(*min, 7);
            assert_eq!(*max, 9);
        },
        other => panic!("expected a range rule, got {:?}", other),
    }
}

#[test]
fn patch_rule_for_absent_setting_appended_last() {
    let mut doc = five_rule_doc();
    let patch = Override { weights: vec![range_rule("y", 2, 3)], ..empty_override() };
    doc.compose(patch);
    assert_eq!(doc.weights.len(), 6);
    let settings: Vec<String> = doc.weights.iter().map(|r| r.setting().clone()).collect();
    assert_eq!(settings, ["a", "b", "x", "d", "e", "y"]);
}

#[test]
fn replacement_sets_taken_wholesale() {
    let mut doc = five_rule_doc();
    let patch = Override {
        starting_items: Some(vec!["patched item".to_string()]),
        ..empty_override()
    };
    doc.compose(patch);
    assert_eq!(doc.starting_items, ["patched item"]);
    assert_eq!(doc.starting_songs.len(), 0);
}

#[test]
fn absent_replacement_sets_keep_base() {
    let mut doc = five_rule_doc();
    doc.compose(empty_override());
    assert_eq!(doc.starting_items, ["base item"]);
    assert_eq!(doc.weights.len(), 5);
}

#[test]
fn setting_mut_retargets_a_rule() {
    let mut rule = range_rule("a", 0, 1);
    *rule.setting_mut() = "z".to_string();
    assert_eq!(rule.setting().as_str(), "z");
    match rule {
        WeightsRule::Range { min, max, .. } => {
            assert_eq!(min, 0);
            assert_eq!(max, 1);
        },
        other => panic!("expected a range rule, got {:?}", other),
    }
}
