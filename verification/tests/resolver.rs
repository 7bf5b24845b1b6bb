use rsl::Conditional;
use rsl::Distribution;
use rsl::HashIcon;
use rsl::ItemPools;
use rsl::Plando;
use rsl::RandomSource;
use rsl::ResolutionError;
use rsl::SettingValue;
use rsl::Weights;
use rsl::WeightsRule;

fn base_doc(rules: Vec<WeightsRule>) -> Weights {
    Weights {
        hash: [HashIcon::DekuStick, HashIcon::Bow],
        world_count: 1,
        disabled_locations: vec![],
        allowed_tricks: vec![],
        random_starting_items: false,
        starting_items: vec![],
        starting_songs: vec![],
        starting_equipment: vec![],
        weights: rules,
    }
}

fn no_pools() -> ItemPools {
    ItemPools { inventory: vec![], songs: vec![], equipment: vec![] }
}

fn table(entries: &[(&str, u64)]) -> Vec<(String, u64)> {
    entries.iter().map(|(k, w)| (k.to_string(), *w)).collect()
}

fn setting_of(p: &Plando, key: &str) -> SettingValue {
    match p.settings.get(&key.to_string()) {
        Some(v) => v.clone(),
        None => panic!("setting {} not resolved", key),
    }
}

fn assert_value(actual: &SettingValue, expected: &SettingValue) {
    assert!(actual.value_eq(expected));
}

#[test]
fn determinism_fixed_draws() {
    let draws: Vec<u64> = vec![7, 99, 3, 12, 4, 31, 2, 8];
    let doc = base_doc(vec![
        WeightsRule::Custom {
            setting: "style".to_string(),
            conditionals: vec![],
            values: table(&[("plain", 2), ("fancy", 5)]),
        },
        WeightsRule::Range {
            setting: "count".to_string(),
            distribution: Distribution::Uniform,
            min: 1,
            max: 10,
        },
    ]);
    let mut rng1 = RandomSource::from_draws(draws.clone());
    let mut rng2 = RandomSource::from_draws(draws);
    let p1 = doc.gen(&no_pools(), &mut rng1).unwrap();
    let p2 = doc.gen(&no_pools(), &mut rng2).unwrap();
    assert_eq!(p1.file_hash, p2.file_hash);
    assert_eq!(p1.settings.len(), p2.settings.len());
    for i in 0..p1.settings.len() {
        assert_eq!(p1.settings.key_at(i), p2.settings.key_at(i));
        assert!(p1.settings.value_at(i).value_eq(p2.settings.value_at(i)));
    }
}

#[test]
fn zero_weight_rejection() {
    let doc = base_doc(vec![WeightsRule::Custom {
        setting: "style".to_string(),
        conditionals: vec![],
        values: table(&[("plain", 0), ("fancy", 0)]),
    }]);
    let mut rng = RandomSource::from_entropy(16);
    assert!(matches!(doc.gen(&no_pools(), &mut rng), Err(ResolutionError::AllWeightsZero)));
}

#[test]
fn empty_table_rejected() {
    let doc = base_doc(vec![WeightsRule::Custom {
        setting: "style".to_string(),
        conditionals: vec![],
        values: vec![],
    }]);
    let mut rng = RandomSource::from_entropy(16);
    assert!(matches!(doc.gen(&no_pools(), &mut rng), Err(ResolutionError::AllWeightsZero)));
}

#[test]
fn zero_weight_entry_never_picked() {
    let doc = base_doc(vec![WeightsRule::Custom {
        setting: "style".to_string(),
        conditionals: vec![],
        values: table(&[("never", 0), ("always", 1)]),
    }]);
    for _ in 0..50 {
        let mut rng = RandomSource::from_entropy(16);
        let p = doc.gen(&no_pools(), &mut rng).unwrap();
        assert_value(&setting_of(&p, "style"), &SettingValue::Str("always".to_string()));
    }
}

#[test]
fn conditional_referencing_later_setting_never_matches() {
    let doc = base_doc(vec![
        WeightsRule::Custom {
            setting: "dependent".to_string(),
            conditionals: vec![Conditional {
                setting: "trigger".to_string(),
                conditions: vec![SettingValue::Int(1)],
                values: table(&[("from_conditional", 1)]),
            }],
            values: table(&[("from_default", 1)]),
        },
        WeightsRule::Range {
            setting: "trigger".to_string(),
            distribution: Distribution::Uniform,
            min: 1,
            max: 1,
        },
    ]);
    for _ in 0..20 {
        let mut rng = RandomSource::from_entropy(16);
        let p = doc.gen(&no_pools(), &mut rng).unwrap();
        assert_value(&setting_of(&p, "trigger"), &SettingValue::Int(1));
        assert_value(
            &setting_of(&p, "dependent"),
            &SettingValue::Str("from_default".to_string()),
        );
    }
}

#[test]
fn conditional_on_earlier_setting_matches() {
    let doc = base_doc(vec![
        WeightsRule::Range {
            setting: "trigger".to_string(),
            distribution: Distribution::Uniform,
            min: 1,
            max: 1,
        },
        WeightsRule::Custom {
            setting: "dependent".to_string(),
            conditionals: vec![Conditional {
                setting: "trigger".to_string(),
                conditions: vec![SettingValue::Int(1)],
                values: table(&[("from_conditional", 1)]),
            }],
            values: table(&[("from_default", 1)]),
        },
    ]);
    let mut rng = RandomSource::from_entropy(16);
    let p = doc.gen(&no_pools(), &mut rng).unwrap();
    assert_value(
        &setting_of(&p, "dependent"),
        &SettingValue::Str("from_conditional".to_string()),
    );
}

#[test]
fn later_rule_overwrites_earlier_in_place() {
    let doc = base_doc(vec![
        WeightsRule::Range {
            setting: "x".to_string(),
            distribution: Distribution::Uniform,
            min: 1,
            max: 1,
        },
        WeightsRule::Range {
            setting: "x".to_string(),
            distribution: Distribution::Uniform,
            min: 2,
            max: 2,
        },
    ]);
    let mut rng = RandomSource::from_entropy(16);
    let p = doc.gen(&no_pools(), &mut rng).unwrap();
    assert_value(&setting_of(&p, "x"), &SettingValue::Int(2));
    // the two verbatim lists, one entry for "x", and no duplicate key
    assert_eq!(p.settings.len(), 6);
}

#[test]
fn degenerate_uniform_range_is_constant() {
    let doc = base_doc(vec![WeightsRule::Range {
        setting: "n".to_string(),
        distribution: Distribution::Uniform,
        min: 5,
        max: 5,
    }]);
    for _ in 0..50 {
        let mut rng = RandomSource::from_entropy(16);
        let p = doc.gen(&no_pools(), &mut rng).unwrap();
        assert_value(&setting_of(&p, "n"), &SettingValue::Int(5));
    }
}

#[test]
fn wide_uniform_range_stays_in_bounds() {
    let doc = base_doc(vec![WeightsRule::Range {
        setting: "n".to_string(),
        distribution: Distribution::Uniform,
        min: 1,
        max: 1000000,
    }]);
    for _ in 0..200 {
        let mut rng = RandomSource::from_entropy(16);
        let p = doc.gen(&no_pools(), &mut rng).unwrap();
        match setting_of(&p, "n") {
            SettingValue::Int(n) => assert!(1 <= n && n <= 1000000),
            other => panic!("expected an integer, got {:?}", other),
        }
    }
}

#[test]
fn uniform_range_exact_value() {
    // raw 7 reduced to [5, 9] is 5 + 7 % 5 == 7
    let doc = base_doc(vec![WeightsRule::Range {
        setting: "n".to_string(),
        distribution: Distribution::Uniform,
        min: 5,
        max: 9,
    }]);
    let mut rng = RandomSource::from_draws(vec![7, 0, 0, 0]);
    let p = doc.gen(&no_pools(), &mut rng).unwrap();
    assert_value(&setting_of(&p, "n"), &SettingValue::Int(7));
}

#[test]
fn geometric_range_exact_value() {
    // raw 4 has two trailing zero bits, so the geometric count is 2
    let doc = base_doc(vec![WeightsRule::Range {
        setting: "n".to_string(),
        distribution: Distribution::Geometric,
        min: 10,
        max: 14,
    }]);
    let mut rng = RandomSource::from_draws(vec![4, 0, 0, 0]);
    let p = doc.gen(&no_pools(), &mut rng).unwrap();
    assert_value(&setting_of(&p, "n"), &SettingValue::Int(12));
}

#[test]
fn geometric_range_clamps_at_max() {
    // raw 0 gives the largest geometric count, clamped to max - min
    let doc = base_doc(vec![WeightsRule::Range {
        setting: "n".to_string(),
        distribution: Distribution::Geometric,
        min: 10,
        max: 14,
    }]);
    let mut rng = RandomSource::from_draws(vec![0, 0, 0, 0]);
    let p = doc.gen(&no_pools(), &mut rng).unwrap();
    assert_value(&setting_of(&p, "n"), &SettingValue::Int(14));
}

#[test]
fn weight_proportionality() {
    let doc = base_doc(vec![WeightsRule::Custom {
        setting: "pick".to_string(),
        conditionals: vec![],
        values: table(&[("a", 1), ("b", 3)]),
    }]);
    let mut b_count: u64 = 0;
    for _ in 0..10000 {
        let mut rng = RandomSource::from_entropy(16);
        let p = doc.gen(&no_pools(), &mut rng).unwrap();
        match setting_of(&p, "pick") {
            SettingValue::Str(s) => {
                if s == "b" {
                    b_count += 1;
                }
            },
            other => panic!("expected text, got {:?}", other),
        }
    }
    // expected 7500 of 10000; allow a generous statistical tolerance
    assert!(7100 <= b_count && b_count <= 7900, "b drawn {} times", b_count);
}

#[test]
fn fixed_hash_icons_carried_and_fresh_ones_drawn() {
    let doc = base_doc(vec![]);
    let mut rng = RandomSource::from_draws(vec![0, 1, 2]);
    let p = doc.gen(&no_pools(), &mut rng).unwrap();
    assert_eq!(
        p.file_hash,
        vec![
            HashIcon::DekuStick,
            HashIcon::Bow,
            HashIcon::DekuStick,
            HashIcon::DekuNut,
            HashIcon::Bow,
        ],
    );
}

#[test]
fn verbatim_lists_seed_the_settings() {
    let mut doc = base_doc(vec![]);
    doc.disabled_locations = vec!["Spot A".to_string(), "Spot B".to_string()];
    doc.allowed_tricks = vec!["trick one".to_string()];
    let mut rng = RandomSource::from_entropy(8);
    let p = doc.gen(&no_pools(), &mut rng).unwrap();
    assert_value(
        &setting_of(&p, "disabled_locations"),
        &SettingValue::List(vec!["Spot A".to_string(), "Spot B".to_string()]),
    );
    assert_value(
        &setting_of(&p, "allowed_tricks"),
        &SettingValue::List(vec!["trick one".to_string()]),
    );
}

#[test]
fn starting_pool_union_has_no_duplicates() {
    let mut doc = base_doc(vec![]);
    doc.random_starting_items = true;
    doc.starting_items = vec!["sword".to_string()];
    let pools = ItemPools {
        inventory: vec!["sword".to_string(), "shield".to_string()],
        songs: vec![],
        equipment: vec![],
    };
    // raw 2 gives a geometric count of 1; raw 0 then picks "sword"
    let mut rng = RandomSource::from_draws(vec![2, 0, 0, 0, 0, 0, 0]);
    let p = doc.gen(&pools, &mut rng).unwrap();
    assert_value(
        &setting_of(&p, "starting_items"),
        &SettingValue::List(vec!["sword".to_string()]),
    );
}

#[test]
fn starting_pool_draws_never_duplicate() {
    let mut doc = base_doc(vec![]);
    doc.random_starting_items = true;
    doc.starting_items = vec!["sword".to_string(), "lamp".to_string()];
    let pools = ItemPools {
        inventory: vec![
            "sword".to_string(),
            "shield".to_string(),
            "lamp".to_string(),
            "rope".to_string(),
        ],
        songs: vec!["lullaby".to_string()],
        equipment: vec![],
    };
    for _ in 0..100 {
        let mut rng = RandomSource::from_entropy(32);
        let p = doc.gen(&pools, &mut rng).unwrap();
        for key in ["starting_items", "starting_songs", "starting_equipment"] {
            match setting_of(&p, key) {
                SettingValue::List(items) => {
                    for i in 0..items.len() {
                        for j in (i + 1)..items.len() {
                            assert_ne!(items[i], items[j]);
                        }
                    }
                },
                other => panic!("expected a list, got {:?}", other),
            }
        }
    }
}

#[test]
fn forced_sets_used_when_sampling_disabled() {
    let mut doc = base_doc(vec![]);
    doc.starting_songs = vec!["lullaby".to_string()];
    let mut rng = RandomSource::from_entropy(8);
    let p = doc.gen(&no_pools(), &mut rng).unwrap();
    assert_value(
        &setting_of(&p, "starting_songs"),
        &SettingValue::List(vec!["lullaby".to_string()]),
    );
    assert_value(&setting_of(&p, "starting_equipment"), &SettingValue::List(vec![]));
}
