//! The bootstrap state machine: the sequence of steps that guarantees
//! a valid configuration before normal command execution.
//!
//! The machine owns every decision; the outside work (resolving the
//! home directory, probing, creating and reading the file) is issued
//! as an [`Action`] and answered by an [`Event`].  The process entry
//! point runs the loop: it performs each action and feeds the answer
//! back into [`step`] until the machine stops in [`Phase::Ready`] or
//! [`Phase::Failed`].
//!
//! Creation of a missing file is best effort: the machine proceeds to
//! the read whether or not creation succeeded, and an impossible read
//! is what turns fatal.

use vstd::prelude::*;

use crate::config::{
    AError, BootstrapError, Configuration, config_file_spec, config_file_path, default_path_spec,
};
use crate::parse::{spec_load, load_config, text_ok, text_trivial, scan_lines, ParseError};
use crate::text::{spec_lines, ltrim, trim};

verus! {

/// Where the bootstrap stands, abstractly.
#[verifier::ext_equal]
pub enum APhase {
    /// Nothing resolved yet; the home directory is wanted.
    Start,
    /// The home directory is known; the file is being probed.
    HomeResolved(Seq<char>),
    /// The file was absent; its creation was requested.
    Creating(Seq<char>),
    /// The file exists as far as the machine can tell; its contents
    /// are wanted.
    FileEnsured(Seq<char>),
    /// The configuration loaded; holds its `path` value.
    Ready(Seq<char>),
    /// A fatal condition; the process must exit.
    Failed(AError),
}

/// An answer from the outside world, abstractly.
#[verifier::ext_equal]
pub enum AEvent {
    HomeIs(Option<Seq<char>>),
    FileExists(bool),
    Created(bool),
    ReadDone(Option<Seq<char>>),
}

/// Outside work the machine asks for, abstractly.
#[verifier::ext_equal]
pub enum AAction {
    ResolveHome,
    CheckFile(Seq<char>),
    CreateFile(Seq<char>),
    ReadFile(Seq<char>),
    Stop,
}

/// Where the bootstrap stands.
#[derive(Debug, Clone, PartialEq)]
pub enum Phase {
    Start,
    HomeResolved { home: String },
    Creating { home: String },
    FileEnsured { home: String },
    Ready { config: Configuration },
    Failed { error: BootstrapError },
}

/// An answer from the outside world.
#[derive(Debug, Clone, PartialEq)]
pub enum Event {
    HomeIs { home: Option<String> },
    FileExists { exists: bool },
    Created { ok: bool },
    ReadDone { content: Option<String> },
}

/// Outside work the machine asks for.  The three file actions name
/// the configuration file `<home>/.dotflow.toml`.
#[derive(Debug, Clone, PartialEq)]
pub enum Action {
    ResolveHome,
    CheckFile { file: String },
    CreateFile { file: String },
    ReadFile { file: String },
    Stop,
}

impl View for Phase {
    type V = APhase;

    open spec fn view(&self) -> APhase {
        match self {
            Phase::Start => APhase::Start,
            Phase::HomeResolved { home } => APhase::HomeResolved(home@),
            Phase::Creating { home } => APhase::Creating(home@),
            Phase::FileEnsured { home } => APhase::FileEnsured(home@),
            Phase::Ready { config } => APhase::Ready(config.path@),
            Phase::Failed { error } => APhase::Failed(error@),
        }
    }
}

impl View for Event {
    type V = AEvent;

    open spec fn view(&self) -> AEvent {
        match self {
            Event::HomeIs { home: Some(h) } => AEvent::HomeIs(Some(h@)),
            Event::HomeIs { home: None } => AEvent::HomeIs(None),
            Event::FileExists { exists } => AEvent::FileExists(*exists),
            Event::Created { ok } => AEvent::Created(*ok),
            Event::ReadDone { content: Some(t) } => AEvent::ReadDone(Some(t@)),
            Event::ReadDone { content: None } => AEvent::ReadDone(None),
        }
    }
}

impl View for Action {
    type V = AAction;

    open spec fn view(&self) -> AAction {
        match self {
            Action::ResolveHome => AAction::ResolveHome,
            Action::CheckFile { file } => AAction::CheckFile(file@),
            Action::CreateFile { file } => AAction::CreateFile(file@),
            Action::ReadFile { file } => AAction::ReadFile(file@),
            Action::Stop => AAction::Stop,
        }
    }
}

/// The transition relation of the bootstrap.  An event that is not
/// the answer the phase awaits leaves the phase unchanged and
/// re-issues the awaited action.
pub open spec fn spec_step(s: APhase, e: AEvent) -> (APhase, AAction) {
    match (s, e) {
        (APhase::Start, AEvent::HomeIs(Some(h))) => (
            APhase::HomeResolved(h),
            AAction::CheckFile(config_file_spec(h)),
        ),
        (APhase::Start, AEvent::HomeIs(None)) => (APhase::Failed(AError::NoHome), AAction::Stop),
        (APhase::HomeResolved(h), AEvent::FileExists(true)) => (
            APhase::FileEnsured(h),
            AAction::ReadFile(config_file_spec(h)),
        ),
        (APhase::HomeResolved(h), AEvent::FileExists(false)) => (
            APhase::Creating(h),
            AAction::CreateFile(config_file_spec(h)),
        ),
        (APhase::Creating(h), AEvent::Created(_)) => (
            APhase::FileEnsured(h),
            AAction::ReadFile(config_file_spec(h)),
        ),
        (APhase::FileEnsured(h), AEvent::ReadDone(None)) => (
            APhase::Failed(AError::Unreadable(config_file_spec(h))),
            AAction::Stop,
        ),
        (APhase::FileEnsured(h), AEvent::ReadDone(Some(t))) => match spec_load(h, t) {
            Result::Ok(p) => (APhase::Ready(p), AAction::Stop),
            Result::Err(_) => (
                APhase::Failed(AError::Malformed(config_file_spec(h))),
                AAction::Stop,
            ),
        },
        (APhase::Ready(p), _) => (APhase::Ready(p), AAction::Stop),
        (APhase::Failed(er), _) => (APhase::Failed(er), AAction::Stop),
        (APhase::Start, _) => (APhase::Start, AAction::ResolveHome),
        (APhase::HomeResolved(h), _) => (
            APhase::HomeResolved(h),
            AAction::CheckFile(config_file_spec(h)),
        ),
        (APhase::Creating(h), _) => (
            APhase::Creating(h),
            AAction::CreateFile(config_file_spec(h)),
        ),
        (APhase::FileEnsured(h), _) => (
            APhase::FileEnsured(h),
            AAction::ReadFile(config_file_spec(h)),
        ),
    }
}

/// The machine's starting point: nothing known, home wanted.
pub fn init() -> (r: (Phase, Action))
    ensures
        r.0@ == APhase::Start,
        r.1@ == AAction::ResolveHome,
{
    (Phase::Start, Action::ResolveHome)
}

/// One decision of the bootstrap, exactly as [`spec_step`] describes.
pub fn step(state: Phase, event: Event) -> (r: (Phase, Action))
    ensures
        (r.0@, r.1@) == spec_step(state@, event@),
{
    match (state, event) {
        (Phase::Start, Event::HomeIs { home: Some(h) }) => {
            let file = config_file_path(h.as_str());
            (Phase::HomeResolved { home: h }, Action::CheckFile { file })
        },
        (Phase::Start, Event::HomeIs { home: None }) => (
            Phase::Failed { error: BootstrapError::NoHome },
            Action::Stop,
        ),
        (Phase::HomeResolved { home }, Event::FileExists { exists: true }) => {
            let file = config_file_path(home.as_str());
            (Phase::FileEnsured { home }, Action::ReadFile { file })
        },
        (Phase::HomeResolved { home }, Event::FileExists { exists: false }) => {
            let file = config_file_path(home.as_str());
            (Phase::Creating { home }, Action::CreateFile { file })
        },
        (Phase::Creating { home }, Event::Created { ok: _ }) => {
            let file = config_file_path(home.as_str());
            (Phase::FileEnsured { home }, Action::ReadFile { file })
        },
        (Phase::FileEnsured { home }, Event::ReadDone { content: None }) => {
            let file = config_file_path(home.as_str());
            (Phase::Failed { error: BootstrapError::Unreadable { file } }, Action::Stop)
        },
        (Phase::FileEnsured { home }, Event::ReadDone { content: Some(t) }) => {
            match load_config(home.as_str(), t.as_str()) {
                Result::Ok(config) => (Phase::Ready { config }, Action::Stop),
                Result::Err(_) => {
                    let file = config_file_path(home.as_str());
                    (Phase::Failed { error: BootstrapError::Malformed { file } }, Action::Stop)
                },
            }
        },
        (Phase::Ready { config }, _) => (Phase::Ready { config }, Action::Stop),
        (Phase::Failed { error }, _) => (Phase::Failed { error }, Action::Stop),
        (Phase::Start, _) => (Phase::Start, Action::ResolveHome),
        (Phase::HomeResolved { home }, _) => {
            let file = config_file_path(home.as_str());
            (Phase::HomeResolved { home }, Action::CheckFile { file })
        },
        (Phase::Creating { home }, _) => {
            let file = config_file_path(home.as_str());
            (Phase::Creating { home }, Action::CreateFile { file })
        },
        (Phase::FileEnsured { home }, _) => {
            let file = config_file_path(home.as_str());
            (Phase::FileEnsured { home }, Action::ReadFile { file })
        },
    }
}

/// A whole bootstrap run, given the answers the world would supply:
/// the resolved home, whether the file exists, whether creation
/// succeeded, and what the read returned.  Yields the final phase and
/// every action the machine issued, in order.
pub open spec fn spec_run(
    home: Option<Seq<char>>,
    exists: bool,
    created_ok: bool,
    content: Option<Seq<char>>,
) -> (APhase, Seq<AAction>) {
    let first = AAction::ResolveHome;
    let (s1, a1) = spec_step(APhase::Start, AEvent::HomeIs(home));
    if home is None {
        (s1, seq![first, a1])
    } else {
        let (s2, a2) = spec_step(s1, AEvent::FileExists(exists));
        if exists {
            let (s3, a3) = spec_step(s2, AEvent::ReadDone(content));
            (s3, seq![first, a1, a2, a3])
        } else {
            let (s2b, a2b) = spec_step(s2, AEvent::Created(created_ok));
            let (s3, a3) = spec_step(s2b, AEvent::ReadDone(content));
            (s3, seq![first, a1, a2, a2b, a3])
        }
    }
}

/// Law: bootstrap on an existing file never writes.  Two runs over
/// the same home and the same contents end alike — whatever became of
/// any creation attempt elsewhere — and no action of either run
/// creates or changes a file, so a second bootstrap right after a
/// first sees the same file and yields the same configuration.
pub proof fn lemma_bootstrap_idempotent(
    h: Seq<char>,
    t: Seq<char>,
    ok1: bool,
    ok2: bool,
)
    ensures
        spec_run(Some(h), true, ok1, Some(t)) == spec_run(Some(h), true, ok2, Some(t)),
        forall|i: int|
            0 <= i < spec_run(Some(h), true, ok1, Some(t)).1.len() ==> !(spec_run(
                Some(h),
                true,
                ok1,
                Some(t),
            ).1[i] is CreateFile),
        spec_load(h, t) matches Result::Ok(p) ==> spec_run(Some(h), true, ok1, Some(t)).0
            == APhase::Ready(p),
        spec_load(h, t) is Err ==> spec_run(Some(h), true, ok1, Some(t)).0 == APhase::Failed(
            AError::Malformed(config_file_spec(h)),
        ),
{
}

/// Law: when the configuration file does not exist, the machine
/// orders its creation before the one read it ever asks for — lazily,
/// only on that first run.
pub proof fn lemma_lazy_creation(h: Seq<char>, created_ok: bool, content: Option<Seq<char>>)
    ensures
        ({
            let f = config_file_spec(h);
            spec_run(Some(h), false, created_ok, content).1 =~= seq![
                AAction::ResolveHome,
                AAction::CheckFile(f),
                AAction::CreateFile(f),
                AAction::ReadFile(f),
                AAction::Stop,
            ]
        }),
{
}

/// Law: without a home directory the bootstrap fails at once: it
/// stops in the fatal phase and never probes, creates or reads any
/// file.
pub proof fn lemma_no_home(exists: bool, created_ok: bool, content: Option<Seq<char>>)
    ensures
        spec_run(None, exists, created_ok, content).0 == APhase::Failed(AError::NoHome),
        spec_run(None, exists, created_ok, content).1 =~= seq![
            AAction::ResolveHome,
            AAction::Stop,
        ],
{
}

/// Law: a very first run — no file yet, and the freshly created file
/// reads back empty — ends ready, with the synthesized default
/// `<home>/.config` as the configured path.
pub proof fn lemma_first_run_defaults(h: Seq<char>, created_ok: bool)
    ensures
        spec_run(Some(h), false, created_ok, Some(Seq::<char>::empty())).0 == APhase::Ready(
            default_path_spec(h),
        ),
{
    let e = Seq::<char>::empty();
    assert(spec_lines(e) =~= seq![e]);
    assert(ltrim(e) =~= e);
    assert(trim(e) =~= e);
    assert(text_ok(e));
    assert(text_trivial(e));
    assert(scan_lines(seq![e], 0, false, false, None) == scan_lines(seq![e], 1, false, false, None));
    assert(spec_load(h, e) == Result::<Seq<char>, ParseError>::Ok(default_path_spec(h)));
}

/// Law: a file whose text the grammar rejects, or that hides the
/// required section, ends the run in the fatal phase whose diagnostic
/// names the configuration file.
pub proof fn lemma_malformed_fatal(
    h: Seq<char>,
    t: Seq<char>,
    exists: bool,
    created_ok: bool,
)
    requires
        spec_load(h, t) is Err,
    ensures
        spec_run(Some(h), exists, created_ok, Some(t)).0 == APhase::Failed(
            AError::Malformed(config_file_spec(h)),
        ),
{
}

} // verus!
