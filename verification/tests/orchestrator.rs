use rsl::GenError;
use rsl::GenOptions;
use rsl::RandoSettings;
use rsl::ResolutionError;
use rsl::generate::archive_url;
use rsl::generate::extracted_dir_name;
use rsl::generate::latest_marker_stale;
use rsl::generate::league_marker_stale;
use rsl::generate::league_version_line;
use rsl::generate::rando_dir_name;
use rsl::generate::repo_ref;

#[test]
fn install_directory_per_variant() {
    assert_eq!(rando_dir_name(&GenOptions::League), "ootr-league");
    let custom = GenOptions::Custom(rsl::Weights {
        hash: [rsl::HashIcon::Saw, rsl::HashIcon::Frog],
        world_count: 1,
        disabled_locations: vec![],
        allowed_tricks: vec![],
        random_starting_items: false,
        starting_items: vec![],
        starting_songs: vec![],
        starting_equipment: vec![],
        weights: vec![],
    });
    assert_eq!(rando_dir_name(&custom), "ootr-latest");
    assert_eq!(repo_ref(&GenOptions::League), "b670183e9aff520c20ac2ee65aa55e3740c5f4b4");
    assert_eq!(repo_ref(&custom), "Dev-R");
}

#[test]
fn archive_url_built_from_reference() {
    assert_eq!(
        archive_url("Dev-R"),
        "https://github.com/Roman971/OoT-Randomizer/archive/Dev-R.zip",
    );
    assert_eq!(extracted_dir_name("Dev-R"), "OoT-Randomizer-Dev-R");
}

#[test]
fn league_marker_comparison_trims() {
    assert_eq!(league_version_line(), "__version__ = '5.2.117 R-1'");
    assert!(!league_marker_stale("__version__ = '5.2.117 R-1'\n"));
    assert!(!league_marker_stale("  __version__ = '5.2.117 R-1'  "));
    assert!(league_marker_stale("__version__ = '5.2.100'\n"));
    assert!(league_marker_stale(""));
}

#[test]
fn latest_marker_comparison_trims_both_sides() {
    assert!(!latest_marker_stale("abc\n", "  abc"));
    assert!(latest_marker_stale("abc", "abd"));
    assert!(!latest_marker_stale("", "   "));
}

#[test]
fn distribution_names() {
    assert_eq!(rsl::Distribution::Uniform.name(), "Uniform");
    assert_eq!(rsl::Distribution::Geometric.name(), "Geometric");
}

#[test]
fn rando_settings_fields() {
    let s = RandoSettings::new(
        "/roms/base.z64".to_string(),
        "/cache/plando.json".to_string(),
        "/out".to_string(),
        3,
    );
    assert_eq!(s.rom, "/roms/base.z64");
    assert_eq!(s.distribution_file, "/cache/plando.json");
    assert_eq!(s.output_dir, "/out");
    assert_eq!(s.world_count, 3);
    assert!(s.enable_distribution_file);
    assert!(s.create_spoiler);
    assert!(!s.create_cosmetics_log);
}

#[test]
fn error_messages() {
    assert_eq!(GenError::Io("broken pipe".to_string()).message(), "I/O error: broken pipe");
    assert_eq!(GenError::Json("bad token".to_string()).message(), "JSON error: bad token");
    assert_eq!(GenError::MissingHomeDir.message(), "failed to locate home directory");
    assert_eq!(GenError::PyNotFound.message(), "Python not found");
    assert_eq!(GenError::PyVersionStatus.message(), "failed to check Python version");
    assert_eq!(GenError::Reqwest("timed out".to_string()).message(), "HTTP error: timed out");
    assert_eq!(
        GenError::TriesExceeded.message(),
        "20 settings each tried 3 times, all failed",
    );
    assert_eq!(
        GenError::Weights(ResolutionError::AllWeightsZero).message(),
        "all weights are zero",
    );
    assert_eq!(
        GenError::Zip("corrupt archive".to_string()).message(),
        "zip error: corrupt archive",
    );
    assert_eq!(ResolutionError::AllWeightsZero.message(), "all weights are zero");
}

#[test]
fn error_messages_never_empty() {
    let errors = [
        GenError::Io(String::new()),
        GenError::Json(String::new()),
        GenError::MissingHomeDir,
        GenError::PyNotFound,
        GenError::PyVersionStatus,
        GenError::Reqwest(String::new()),
        GenError::TriesExceeded,
        GenError::Weights(ResolutionError::AllWeightsZero),
        GenError::Zip(String::new()),
    ];
    for e in errors {
        assert!(!e.message().is_empty());
    }
}
