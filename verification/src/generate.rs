//! The generation orchestrator's decision core.
//!
//! The driver that performs I/O — reading version markers, downloading and
//! extracting the tool, writing the settings and distribution files, and
//! spawning the external process — asks this module what to do: which
//! install directory and repository reference to use, whether a cached
//! install is stale, and, through [`GenSession`], when to resolve a fresh
//! configuration, when to retry the same one, and when to give up.

use vstd::prelude::*;
use crate::NUM_RANDO_RANDO_TRIES;
use crate::NUM_TRIES_PER_SETTINGS;
use crate::presets::GenOptions;
use crate::resolve::ResolutionError;
use crate::text::spec_trim;
use crate::text::trimmed;

verus! {

/// Both retry bounds multiplied: the total number of tool invocations made
/// before the orchestrator gives up.
pub const TOTAL_TRIES: u64 = 60;

/// The overall bound is exactly the two retry bounds multiplied.
pub proof fn lemma_total_tries()
    ensures
        TOTAL_TRIES == NUM_RANDO_RANDO_TRIES as u64 * NUM_TRIES_PER_SETTINGS as u64,
{
    let a: int = NUM_RANDO_RANDO_TRIES as int;
    let b: int = NUM_TRIES_PER_SETTINGS as int;
    assert(a == 20 && b == 3);
    assert(a * b == 60) by (nonlinear_arith)
        requires
            a == 20,
            b == 3,
    ;
    assert(TOTAL_TRIES == 60);
}

/// The name of the cached install directory for the requested tool variant.
pub fn rando_dir_name(options: &GenOptions) -> (r: &'static str)
    ensures
        options.deep_view() matches crate::presets::GenOptionsModel::League ==> r@
            == "ootr-league"@,
        !(options.deep_view() matches crate::presets::GenOptionsModel::League) ==> r@
            == "ootr-latest"@,
{
    if let GenOptions::League = options {
        "ootr-league"
    } else {
        "ootr-latest"
    }
}

/// The repository reference the tool variant is fetched at: the pinned
/// league commit, or the development branch.
pub fn repo_ref(options: &GenOptions) -> (r: &'static str)
    ensures
        options.deep_view() matches crate::presets::GenOptionsModel::League ==> r@
            == "b670183e9aff520c20ac2ee65aa55e3740c5f4b4"@,
        !(options.deep_view() matches crate::presets::GenOptionsModel::League) ==> r@
            == "Dev-R"@,
{
    if let GenOptions::League = options {
        "b670183e9aff520c20ac2ee65aa55e3740c5f4b4"
    } else {
        "Dev-R"
    }
}

/// The exact version marker line the pinned league tool ships with.
pub fn league_version_line() -> (r: String)
    ensures
        r@ == "__version__ = '5.2.117 R-1'"@,
{
    String::from_str("__version__ = '5.2.117 R-1'")
}

/// Whether a cached league install is stale: its version marker, trimmed,
/// is not the pinned league version line.
pub fn league_marker_stale(marker: &str) -> (r: bool)
    ensures
        r == (spec_trim(marker@) != "__version__ = '5.2.117 R-1'"@),
{
    !(trimmed(marker) == league_version_line())
}

/// Whether a cached latest install is stale: the remote version file and
/// the local one differ after trimming.
pub fn latest_marker_stale(remote: &str, local: &str) -> (r: bool)
    ensures
        r == (spec_trim(remote@) != spec_trim(local@)),
{
    !(trimmed(remote) == trimmed(local))
}

/// The URL the tool archive is fetched from for a repository reference.
pub fn archive_url(reference: &str) -> (r: String)
    ensures
        r@ == "https://github.com/Roman971/OoT-Randomizer/archive/"@ + reference@ + ".zip"@,
{
    let mut url = String::from_str("https://github.com/Roman971/OoT-Randomizer/archive/");
    url.append(reference);
    url.append(".zip");
    url
}

/// The name of the directory the archive extracts to, renamed afterwards to
/// the canonical install path.
pub fn extracted_dir_name(reference: &str) -> (r: String)
    ensures
        r@ == "OoT-Randomizer-"@ + reference@,
{
    let mut name = String::from_str("OoT-Randomizer-");
    name.append(reference);
    name
}

/// Relies on directories::ProjectDirs: the per-user cache directory for
/// this tool, or nothing when no home directory can be determined. The
/// result depends on the environment, so nothing more is stated.
#[verifier::external_body]
pub fn cache_dir() -> Option<String> {
    let dirs = directories::ProjectDirs::from("net", "Fenhl", "RSL")?;
    Some(dirs.cache_dir().to_string_lossy().into_owned())
}

/// The settings document handed to the external tool.
#[derive(Debug, Clone)]
pub struct RandoSettings {
    pub rom: String,
    pub output_dir: String,
    pub enable_distribution_file: bool,
    pub distribution_file: String,
    pub create_spoiler: bool,
    pub create_cosmetics_log: bool,
    pub compress_rom: CompressRom,
    pub world_count: u8,
}

/// How the tool is asked to compress its output.
#[derive(Debug, Clone, Copy, PartialEq, Eq, Structural)]
pub enum CompressRom {
    Patch,
}

impl RandoSettings {
    /// Settings pointing the tool at the base ROM, the output directory and
    /// the distribution file: spoiler and distribution output on, cosmetic
    /// log off, patch compression.
    pub fn new(rom_path: String, distribution_path: String, output_dir: String, world_count: u8) -> (r:
        RandoSettings)
        ensures
            r.rom == rom_path,
            r.output_dir == output_dir,
            r.enable_distribution_file,
            r.distribution_file == distribution_path,
            r.create_spoiler,
            !r.create_cosmetics_log,
            r.compress_rom is Patch,
            r.world_count == world_count,
    {
        RandoSettings {
            rom: rom_path,
            output_dir,
            enable_distribution_file: true,
            distribution_file: distribution_path,
            create_spoiler: true,
            create_cosmetics_log: false,
            compress_rom: CompressRom::Patch,
            world_count,
        }
    }
}

/// Why a generation request failed.
#[derive(Debug, Clone, PartialEq, Eq)]
pub enum GenError {
    /// A file could not be read or written; the payload describes it.
    Io(String),
    /// A document could not be decoded or encoded; the payload describes it.
    Json(String),
    /// The cache location cannot be determined.
    MissingHomeDir,
    /// The interpreter could not be found at all.
    PyNotFound,
    /// The interpreter exists but the version probe exited non-zero.
    PyVersionStatus,
    /// A download or transfer failed; the payload describes it.
    Reqwest(String),
    /// Every attempt of both retry loops failed.
    TriesExceeded,
    /// The resolver rejected the document.
    Weights(ResolutionError),
    /// The tool archive could not be extracted; the payload describes it.
    Zip(String),
}

impl GenError {
    /// A one-line human-readable description.
    pub fn message(&self) -> (r: String)
        ensures
            match self {
                GenError::Io(e) => r@ == "I/O error: "@ + e@,
                GenError::Json(e) => r@ == "JSON error: "@ + e@,
                GenError::MissingHomeDir => r@ == "failed to locate home directory"@,
                GenError::PyNotFound => r@ == "Python not found"@,
                GenError::PyVersionStatus => r@ == "failed to check Python version"@,
                GenError::Reqwest(e) => r@ == "HTTP error: "@ + e@,
                GenError::TriesExceeded => r@ == "20 settings each tried 3 times, all failed"@,
                GenError::Weights(e) => r@ == "all weights are zero"@,
                GenError::Zip(e) => r@ == "zip error: "@ + e@,
            },
    {
        match self {
            GenError::Io(e) => {
                let mut m = String::from_str("I/O error: ");
                m.append(e.as_str());
                m
            },
            GenError::Json(e) => {
                let mut m = String::from_str("JSON error: ");
                m.append(e.as_str());
                m
            },
            GenError::MissingHomeDir => String::from_str("failed to locate home directory"),
            GenError::PyNotFound => String::from_str("Python not found"),
            GenError::PyVersionStatus => String::from_str("failed to check Python version"),
            GenError::Reqwest(e) => {
                let mut m = String::from_str("HTTP error: ");
                m.append(e.as_str());
                m
            },
            GenError::TriesExceeded => String::from_str(
                "20 settings each tried 3 times, all failed",
            ),
            GenError::Weights(e) => e.message(),
            GenError::Zip(e) => {
                let mut m = String::from_str("zip error: ");
                m.append(e.as_str());
                m
            },
        }
    }
}

/// The exit of one external tool invocation, as the driver observed it.
#[derive(Debug, Clone, Copy, PartialEq, Eq, Structural)]
pub enum ToolOutcome {
    /// The tool exited with status zero.
    Success,
    /// The tool exited with any other status.
    Failure,
}

/// What the driver is to do next.
#[derive(Debug, Clone, Copy, PartialEq, Eq, Structural)]
pub enum SessionStep {
    /// Resolve a fresh configuration, write it over the distribution file,
    /// and invoke the tool.
    Resolve,
    /// Invoke the tool again with the distribution file as it stands.
    Run,
    /// The tool succeeded; the request is complete.
    Done,
    /// Both retry bounds are exhausted; fail with the aggregate error.
    GiveUp,
}

/// The retry state of one generation request: how many invocations were
/// made, and whether one succeeded.
#[derive(Debug, Clone, Copy, PartialEq, Eq, Structural)]
pub struct GenSession {
    pub runs: u64,
    pub done: bool,
}

/// What the driver is to do in state `s`: finish after a success; give up
/// after the last bounded attempt; start each group of three invocations
/// with a fresh draw and retry the same draw within the group.
pub open spec fn spec_next_step(s: GenSession) -> SessionStep {
    if s.done {
        SessionStep::Done
    } else if s.runs >= TOTAL_TRIES {
        SessionStep::GiveUp
    } else if s.runs % (NUM_TRIES_PER_SETTINGS as u64) == 0 {
        SessionStep::Resolve
    } else {
        SessionStep::Run
    }
}

/// The state after one more invocation with the given outcome.
pub open spec fn spec_record(s: GenSession, outcome: ToolOutcome) -> GenSession {
    GenSession { runs: (s.runs + 1) as u64, done: s.done || outcome is Success }
}

/// The session state after a sequence of tool invocations, driven by
/// [`spec_next_step`]: outcomes beyond a success or beyond the bound change
/// nothing.
pub open spec fn spec_session_after(outcomes: Seq<ToolOutcome>) -> GenSession
    decreases outcomes.len(),
{
    if outcomes.len() == 0 {
        GenSession { runs: 0, done: false }
    } else {
        let prev = spec_session_after(outcomes.drop_last());
        match spec_next_step(prev) {
            SessionStep::Resolve => spec_record(prev, outcomes.last()),
            SessionStep::Run => spec_record(prev, outcomes.last()),
            SessionStep::Done => prev,
            SessionStep::GiveUp => prev,
        }
    }
}

impl GenSession {
    /// A fresh session: no invocations yet.
    pub fn new() -> (r: GenSession)
        ensures
            r == spec_session_after(Seq::empty()),
            r.runs == 0,
            !r.done,
    {
        GenSession { runs: 0, done: false }
    }

    /// What the driver is to do next, exactly as [`spec_next_step`] states.
    pub fn next_step(&self) -> (r: SessionStep)
        ensures
            r == spec_next_step(*self),
    {
        if self.done {
            SessionStep::Done
        } else if self.runs >= TOTAL_TRIES {
            SessionStep::GiveUp
        } else if self.runs % (NUM_TRIES_PER_SETTINGS as u64) == 0 {
            SessionStep::Resolve
        } else {
            SessionStep::Run
        }
    }

    /// Records the outcome of the invocation the last step asked for,
    /// exactly as [`spec_record`] states.
    pub fn record(&mut self, outcome: ToolOutcome)
        requires
            spec_next_step(*old(self)) is Resolve || spec_next_step(*old(self)) is Run,
        ensures
            *final(self) == spec_record(*old(self), outcome),
    {
        self.runs = self.runs + 1;
        if let ToolOutcome::Success = outcome {
            self.done = true;
        }
    }
}

/// Retry exhaustion: while every invocation fails, the session asks for
/// another one — a fresh draw at the start of each group of three, the same
/// draw within a group — until exactly both bounds multiplied invocations
/// have run, and then, and only then, it gives up without success.
pub proof fn lemma_retry_exhaustion(outcomes: Seq<ToolOutcome>)
    requires
        forall|i: int| 0 <= i < outcomes.len() ==> (#[trigger] outcomes[i]) is Failure,
        outcomes.len() <= TOTAL_TRIES,
    ensures
        spec_session_after(outcomes).runs == outcomes.len(),
        !spec_session_after(outcomes).done,
        outcomes.len() < TOTAL_TRIES ==> (spec_session_after(outcomes).runs % (
        NUM_TRIES_PER_SETTINGS as u64) == 0 ==> spec_next_step(spec_session_after(outcomes))
            is Resolve) && (spec_session_after(outcomes).runs % (NUM_TRIES_PER_SETTINGS as u64)
            != 0 ==> spec_next_step(spec_session_after(outcomes)) is Run),
        outcomes.len() == TOTAL_TRIES ==> spec_next_step(spec_session_after(outcomes)) is GiveUp,
    decreases outcomes.len(),
{
    if outcomes.len() > 0 {
        assert(outcomes.drop_last().len() == outcomes.len() - 1);
        assert(forall|i: int|
            0 <= i < outcomes.drop_last().len() ==> (#[trigger] outcomes.drop_last()[i])
                is Failure);
        lemma_retry_exhaustion(outcomes.drop_last());
        assert(outcomes[outcomes.len() - 1] is Failure);
    }
}

/// A success stops the session at once: when the first success comes at the
/// last recorded invocation, the session is done after exactly that many
/// invocations, and asks for nothing further.
pub proof fn lemma_success_stops(outcomes: Seq<ToolOutcome>)
    requires
        1 <= outcomes.len() <= TOTAL_TRIES,
        forall|i: int| 0 <= i < outcomes.len() - 1 ==> (#[trigger] outcomes[i]) is Failure,
        outcomes.last() is Success,
    ensures
        spec_session_after(outcomes).done,
        spec_session_after(outcomes).runs == outcomes.len(),
        spec_next_step(spec_session_after(outcomes)) is Done,
{
    lemma_retry_exhaustion(outcomes.drop_last());
}

} // verus!
