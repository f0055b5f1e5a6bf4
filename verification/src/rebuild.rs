//! The decisions of the worker-side rebuild pipeline. The pipeline fetches
//! an artifact, looks for the distro's rebuilder script, runs it and checks
//! that its output exists. What touches the network, the file system or a
//! subprocess is done by the caller: each step here takes what the last
//! action brought and names the next action.

use vstd::prelude::*;
use vstd::string::StringExecFns;
use crate::artifact::{Artifact, UrlError, artifact_of, locate_artifact, url_parse};

verus! {

/// The packaging ecosystems whose releases can be rebuilt.
#[derive(Debug, Clone, Copy, PartialEq, Eq, Structural)]
pub enum Distro {
    Archlinux,
    Debian,
}

/// The distro that a name stands for, if it names one.
pub open spec fn distro_named(name: Seq<char>) -> Option<Distro> {
    if name == "archlinux"@ {
        Some(Distro::Archlinux)
    } else if name == "debian"@ {
        Some(Distro::Debian)
    } else {
        None
    }
}

impl Distro {
    /// Reads a distro from its name as packages carry it.
    pub fn parse(name: &str) -> (r: Option<Distro>)
        ensures
            r == distro_named(name@),
    {
        let given = name.to_owned();
        if given == "archlinux".to_owned() {
            Some(Distro::Archlinux)
        } else if given == "debian".to_owned() {
            Some(Distro::Debian)
        } else {
            None
        }
    }
}

/// The file name of the distro's rebuilder script.
pub open spec fn script_name(distro: Distro) -> Seq<char> {
    match distro {
        Distro::Archlinux => "rebuilder-archlinux.sh"@,
        Distro::Debian => "rebuilder-debian.sh"@,
    }
}

/// The number of installation prefixes that are probed for the script.
pub const PREFIX_COUNT: usize = 3;

/// The installation prefixes, in the order in which they are probed.
pub open spec fn prefix(i: int) -> Seq<char> {
    if i == 0 {
        "."@
    } else if i == 1 {
        "/usr/libexec/rebuilderd"@
    } else {
        "/usr/local/libexec/rebuilderd"@
    }
}

/// The `i`-th path at which the distro's script is looked for.
pub open spec fn candidate(distro: Distro, i: int) -> Seq<char> {
    prefix(i) + "/"@ + script_name(distro)
}

/// Where the script must leave the rebuilt artifact.
pub open spec fn output_path(filename: Seq<char>) -> Seq<char> {
    "./build/"@ + filename
}

/// The `i`-th path at which the distro's script is looked for.
pub fn script_candidate(distro: Distro, i: usize) -> (r: String)
    requires
        i < PREFIX_COUNT,
    ensures
        r@ == candidate(distro, i as int),
{
    let dir: &str = if i == 0 {
        "."
    } else if i == 1 {
        "/usr/libexec/rebuilderd"
    } else {
        "/usr/local/libexec/rebuilderd"
    };
    let name: &str = match distro {
        Distro::Archlinux => "rebuilder-archlinux.sh",
        Distro::Debian => "rebuilder-debian.sh",
    };
    dir.to_owned().concat("/").concat(name)
}

/// Why a rebuild could not be carried out. A rebuild that ran and did not
/// reproduce the artifact is no error: it ends with `Ok(false)`.
#[derive(Debug, Clone, Copy, PartialEq, Eq, Structural)]
pub enum RebuildError {
    /// The artifact location cannot be used.
    Url(UrlError),
    /// The artifact could not be fetched.
    Download,
    /// The path of the fetched file is not valid text.
    InputPath,
    /// No rebuilder script exists under any prefix.
    ScriptNotFound,
    /// The script could not be started.
    Spawn,
    /// The script reported success but left no output.
    OutputMissing,
    /// The event does not answer the action that was asked for.
    Unexpected,
}

/// Where a rebuild stands.
#[derive(Debug, Clone, Copy, PartialEq, Eq, Structural)]
pub enum Stage {
    /// The artifact is being fetched.
    Fetching,
    /// The `i`-th candidate path is being probed.
    Probing(usize),
    /// The script is running.
    Running,
    /// The script's output is being looked for.
    Checking,
    /// The rebuild has ended.
    Finished,
}

/// What the caller is asked to do next.
pub enum Action {
    /// Fetch `url` into a file named `filename` in the workspace.
    Download { url: String, filename: String },
    /// Say whether a file exists at `path`.
    Probe { path: String },
    /// Run `script` with the arguments `url` and `input`.
    Run { script: String, url: String, input: String },
    /// Say whether the output exists at `path`.
    CheckOutput { path: String },
    /// Stop: the rebuild has this result.
    Finish(Result<bool, RebuildError>),
}

/// The mathematical value of an [`Action`].
pub enum ActionView {
    Download { url: Seq<char>, filename: Seq<char> },
    Probe { path: Seq<char> },
    Run { script: Seq<char>, url: Seq<char>, input: Seq<char> },
    CheckOutput { path: Seq<char> },
    Finish(Result<bool, RebuildError>),
}

impl View for Action {
    type V = ActionView;

    open spec fn view(&self) -> ActionView {
        match *self {
            Action::Download { url, filename } => ActionView::Download { url: url@, filename: filename@ },
            Action::Probe { path } => ActionView::Probe { path: path@ },
            Action::Run { script, url, input } => ActionView::Run { script: script@, url: url@, input: input@ },
            Action::CheckOutput { path } => ActionView::CheckOutput { path: path@ },
            Action::Finish(r) => ActionView::Finish(r),
        }
    }
}

/// What the last action brought.
pub enum Event {
    /// The artifact was fetched; `input` is the path of the file, or `None`
    /// where that path is not valid text.
    Downloaded { input: Option<String> },
    /// The fetch failed: a transport error or a status outside 2xx.
    DownloadFailed,
    /// Whether the probed path exists.
    Probed { exists: bool },
    /// The script ran and exited, with success or not.
    Exited { success: bool },
    /// The script could not be started.
    SpawnFailed,
    /// Whether the output exists.
    OutputChecked { exists: bool },
}

/// The mathematical value of an [`Event`].
pub enum EventView {
    Downloaded { input: Option<Seq<char>> },
    DownloadFailed,
    Probed { exists: bool },
    Exited { success: bool },
    SpawnFailed,
    OutputChecked { exists: bool },
}

impl View for Event {
    type V = EventView;

    open spec fn view(&self) -> EventView {
        match *self {
            Event::Downloaded { input } => EventView::Downloaded { input: crate::catalog::text_view(input) },
            Event::DownloadFailed => EventView::DownloadFailed,
            Event::Probed { exists } => EventView::Probed { exists },
            Event::Exited { success } => EventView::Exited { success },
            Event::SpawnFailed => EventView::SpawnFailed,
            Event::OutputChecked { exists } => EventView::OutputChecked { exists },
        }
    }
}

/// One rebuild in progress.
pub struct Rebuild {
    pub distro: Distro,
    pub url: String,
    pub filename: String,
    /// The path of the fetched artifact, once it is there.
    pub input: String,
    pub stage: Stage,
}

/// The mathematical value of a [`Rebuild`].
pub struct RebuildView {
    pub distro: Distro,
    pub url: Seq<char>,
    pub filename: Seq<char>,
    pub input: Seq<char>,
    pub stage: Stage,
}

impl View for Rebuild {
    type V = RebuildView;

    open spec fn view(&self) -> RebuildView {
        RebuildView {
            distro: self.distro,
            url: self.url@,
            filename: self.filename@,
            input: self.input@,
            stage: self.stage,
        }
    }
}

/// The rebuild ended with `result`.
pub open spec fn ended(s: RebuildView, result: Result<bool, RebuildError>) -> (RebuildView, ActionView) {
    (RebuildView { stage: Stage::Finished, ..s }, ActionView::Finish(result))
}

/// The transition of the pipeline: the state and the action that follow
/// state `s` when `e` comes in.
pub open spec fn next(s: RebuildView, e: EventView) -> (RebuildView, ActionView) {
    match (s.stage, e) {
        (Stage::Fetching, EventView::Downloaded { input: Some(path) }) => (
            RebuildView { input: path, stage: Stage::Probing(0), ..s },
            ActionView::Probe { path: candidate(s.distro, 0) },
        ),
        (Stage::Fetching, EventView::Downloaded { input: None }) => ended(s, Err(RebuildError::InputPath)),
        (Stage::Fetching, EventView::DownloadFailed) => ended(s, Err(RebuildError::Download)),
        (Stage::Probing(i), EventView::Probed { exists }) => if i >= PREFIX_COUNT {
            ended(s, Err(RebuildError::ScriptNotFound))
        } else if exists {
            (
                RebuildView { stage: Stage::Running, ..s },
                ActionView::Run { script: candidate(s.distro, i as int), url: s.url, input: s.input },
            )
        } else if i + 1 < PREFIX_COUNT {
            (
                RebuildView { stage: Stage::Probing((i + 1) as usize), ..s },
                ActionView::Probe { path: candidate(s.distro, i + 1) },
            )
        } else {
            ended(s, Err(RebuildError::ScriptNotFound))
        },
        (Stage::Running, EventView::Exited { success }) => if success {
            (RebuildView { stage: Stage::Checking, ..s }, ActionView::CheckOutput { path: output_path(s.filename) })
        } else {
            ended(s, Ok(false))
        },
        (Stage::Running, EventView::SpawnFailed) => ended(s, Err(RebuildError::Spawn)),
        (Stage::Checking, EventView::OutputChecked { exists }) => if exists {
            ended(s, Ok(true))
        } else {
            ended(s, Err(RebuildError::OutputMissing))
        },
        _ => ended(s, Err(RebuildError::Unexpected)),
    }
}

/// How a rebuild of `artifact` begins: with the download of the artifact;
/// or, where the location cannot be used, not at all.
pub open spec fn begun(distro: Distro, artifact: Result<(Seq<char>, Seq<char>), UrlError>) -> Result<
    (RebuildView, ActionView),
    RebuildError,
> {
    match artifact {
        Ok((url, filename)) => Ok(
            (
                RebuildView { distro, url, filename, input: Seq::empty(), stage: Stage::Fetching },
                ActionView::Download { url, filename },
            ),
        ),
        Err(e) => Err(RebuildError::Url(e)),
    }
}

/// The value of a begun rebuild or its error.
pub open spec fn begun_view(r: Result<(Rebuild, Action), RebuildError>) -> Result<
    (RebuildView, ActionView),
    RebuildError,
> {
    match r {
        Ok((s, a)) => Ok((s@, a@)),
        Err(e) => Err(e),
    }
}

/// Begins a rebuild of the artifact at `url`: reads the location and asks
/// for the download. A location that cannot be used fails here, before
/// anything is fetched or run. The caller performs each action and hands
/// what it brought to [`Rebuild::step`], until the action is
/// [`Action::Finish`].
pub fn rebuild(distro: &Distro, url: &str) -> (r: Result<(Rebuild, Action), RebuildError>)
    ensures
        begun_view(r) == begun(*distro, artifact_of(url_parse(url@))),
{
    Rebuild::begin(*distro, locate_artifact(url))
}

impl Rebuild {
    /// Begins the rebuild of a located artifact, or passes on why it could
    /// not be located.
    pub fn begin(distro: Distro, artifact: Result<Artifact, UrlError>) -> (r: Result<(Rebuild, Action), RebuildError>)
        ensures
            begun_view(r) == begun(distro, crate::artifact::located(artifact)),
    {
        match artifact {
            Ok(a) => {
                let url = a.url.clone();
                let filename = a.filename.clone();
                let state = Rebuild {
                    distro,
                    url: a.url,
                    filename: a.filename,
                    input: String::new(),
                    stage: Stage::Fetching,
                };
                assert(state.input@ =~= Seq::<char>::empty());
                Ok((state, Action::Download { url, filename }))
            },
            Err(e) => Err(RebuildError::Url(e)),
        }
    }

    /// Takes in what the last action brought and names the next action.
    pub fn step(self, event: Event) -> (r: (Rebuild, Action))
        ensures
            (r.0@, r.1@) == next(self@, event@),
    {
        let mut state = self;
        match (state.stage, event) {
            (Stage::Fetching, Event::Downloaded { input: Some(path) }) => {
                state.input = path;
                state.stage = Stage::Probing(0);
                let path = script_candidate(state.distro, 0);
                (state, Action::Probe { path })
            },
            (Stage::Fetching, Event::Downloaded { input: None }) => state.end(Err(RebuildError::InputPath)),
            (Stage::Fetching, Event::DownloadFailed) => state.end(Err(RebuildError::Download)),
            (Stage::Probing(i), Event::Probed { exists }) => {
                if i >= PREFIX_COUNT {
                    state.end(Err(RebuildError::ScriptNotFound))
                } else if exists {
                    state.stage = Stage::Running;
                    let script = script_candidate(state.distro, i);
                    let url = state.url.clone();
                    let input = state.input.clone();
                    (state, Action::Run { script, url, input })
                } else if i + 1 < PREFIX_COUNT {
                    state.stage = Stage::Probing(i + 1);
                    let path = script_candidate(state.distro, i + 1);
                    (state, Action::Probe { path })
                } else {
                    state.end(Err(RebuildError::ScriptNotFound))
                }
            },
            (Stage::Running, Event::Exited { success }) => {
                if success {
                    state.stage = Stage::Checking;
                    let path = "./build/".to_owned().concat(state.filename.as_str());
                    (state, Action::CheckOutput { path })
                } else {
                    state.end(Ok(false))
                }
            },
            (Stage::Running, Event::SpawnFailed) => state.end(Err(RebuildError::Spawn)),
            (Stage::Checking, Event::OutputChecked { exists }) => {
                if exists {
                    state.end(Ok(true))
                } else {
                    state.end(Err(RebuildError::OutputMissing))
                }
            },
            _ => state.end(Err(RebuildError::Unexpected)),
        }
    }

    /// Ends the rebuild with `result`.
    fn end(self, result: Result<bool, RebuildError>) -> (r: (Rebuild, Action))
        ensures
            (r.0@, r.1@) == ended(self@, result),
    {
        let mut state = self;
        state.stage = Stage::Finished;
        (state, Action::Finish(result))
    }
}

} // verus!
