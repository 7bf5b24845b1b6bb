use rsl::Distribution;
use rsl::GenOptions;
use rsl::HashIcon;
use rsl::Override;
use rsl::Preset;
use rsl::PresetAssets;
use rsl::PresetOptions;
use rsl::Weights;
use rsl::WeightsRule;

fn base_weights() -> Weights {
    Weights {
        hash: [HashIcon::Compass, HashIcon::DungeonMap],
        world_count: 1,
        disabled_locations: vec![],
        allowed_tricks: vec!["base trick".to_string()],
        random_starting_items: true,
        starting_items: vec![],
        starting_songs: vec![],
        starting_equipment: vec![],
        weights: vec![WeightsRule::Range {
            setting: "shared".to_string(),
            distribution: Distribution::Uniform,
            min: 0,
            max: 1,
        }],
    }
}

fn assets() -> PresetAssets {
    PresetAssets {
        base: base_weights(),
        coop: Override {
            starting_items: None,
            starting_songs: None,
            starting_equipment: None,
            weights: vec![WeightsRule::Range {
                setting: "shared".to_string(),
                distribution: Distribution::Uniform,
                min: 5,
                max: 6,
            }],
        },
        multiworld: Override {
            starting_items: None,
            starting_songs: None,
            starting_equipment: None,
            weights: vec![WeightsRule::Range {
                setting: "worlds only".to_string(),
                distribution: Distribution::Uniform,
                min: 1,
                max: 1,
            }],
        },
        standard_tricks: vec!["standard trick".to_string()],
        rsl_tricks: vec!["extended trick".to_string()],
    }
}

#[test]
fn parse_preset_names() {
    assert!(matches!(Preset::from_str("solo"), Ok(Preset::Solo)));
    assert!(matches!(Preset::from_str("coop"), Ok(Preset::CoOp)));
    assert!(matches!(Preset::from_str("co-op"), Ok(Preset::CoOp)));
    assert!(matches!(Preset::from_str("multiworld"), Ok(Preset::Multiworld)));
    assert!(Preset::from_str("league").is_err());
    assert!(Preset::from_str("").is_err());
    assert!(Preset::from_str("Solo").is_err());
}

#[test]
fn preset_parse_error_message() {
    let e = Preset::from_str("nonsense").unwrap_err();
    assert_eq!(e.message(), "unknown preset");
}

#[test]
fn preset_options_default() {
    let o = PresetOptions::default();
    assert!(o.standard_tricks);
    assert!(o.rsl_tricks);
    assert!(o.random_starting_items);
    assert_eq!(o.world_count, 1);
}

#[test]
fn league_takes_base_document() {
    let w = Weights::from_options(GenOptions::League, assets());
    assert_eq!(w.allowed_tricks, ["base trick"]);
    assert_eq!(w.weights.len(), 1);
}

#[test]
fn custom_document_passed_through() {
    let mut custom = base_weights();
    custom.world_count = 4;
    let w = Weights::from_options(GenOptions::Custom(custom), assets());
    assert_eq!(w.world_count, 4);
}

#[test]
fn coop_preset_composes_override() {
    let options = GenOptions::Preset { preset: Preset::CoOp, options: PresetOptions::default() };
    let w = Weights::from_options(options, assets());
    assert_eq!(w.weights.len(), 1);
    match &w.weights[0] {
        WeightsRule::Range { min, max, .. } => {
            assert_eq!(*min, 5);
            assert_eq!(*max, 6);
        },
        other => panic!("expected a range rule, got {:?}", other),
    }
}

#[test]
fn multiworld_preset_sets_world_count() {
    let options = GenOptions::Preset {
        preset: Preset::Multiworld,
        options: PresetOptions { world_count: 7, ..PresetOptions::default() },
    };
    let w = Weights::from_options(options, assets());
    assert_eq!(w.world_count, 7);
    assert_eq!(w.weights.len(), 2);
    assert_eq!(w.weights[1].setting().as_str(), "worlds only");
}

#[test]
fn trick_options_replace_allowed_tricks() {
    let mk = |standard: bool, rsl: bool| {
        Weights::from_options(
            GenOptions::Preset {
                preset: Preset::Solo,
                options: PresetOptions {
                    standard_tricks: standard,
                    rsl_tricks: rsl,
                    ..PresetOptions::default()
                },
            },
            assets(),
        )
    };
    assert_eq!(mk(true, true).allowed_tricks, ["base trick"]);
    assert_eq!(mk(true, false).allowed_tricks, ["standard trick"]);
    assert_eq!(mk(false, true).allowed_tricks, ["extended trick"]);
    assert_eq!(mk(false, false).allowed_tricks.len(), 0);
}

#[test]
fn starting_items_option_disables_sampling() {
    let options = GenOptions::Preset {
        preset: Preset::Solo,
        options: PresetOptions { random_starting_items: false, ..PresetOptions::default() },
    };
    let w = Weights::from_options(options, assets());
    assert!(!w.random_starting_items);
    let on = Weights::from_options(
        GenOptions::Preset { preset: Preset::Solo, options: PresetOptions::default() },
        assets(),
    );
    assert!(on.random_starting_items);
}

#[test]
fn well_formedness_check() {
    assert!(base_weights().is_wf());
    let mut bad = base_weights();
    bad.world_count = 0;
    assert!(!bad.is_wf());
    let mut bad_range = base_weights();
    bad_range.weights = vec![WeightsRule::Range {
        setting: "n".to_string(),
        distribution: Distribution::Uniform,
        min: 5,
        max: 4,
    }];
    assert!(!bad_range.is_wf());
}
