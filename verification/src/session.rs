//! One request from its arrival to its reply. The library decides, the caller acts:
//! a `Step` either is the reply, or names an `Effect` for the caller to carry out
//! and keeps, as `Pending`, what is needed to go on once the `Outcome` is known.

use vstd::prelude::*;
use crate::host::optional;
use crate::message::{ItemView, Response};
use crate::text::texts;

verus! {

/// Something for the caller to do on the operating system.
#[derive(Clone, Debug, PartialEq, Eq)]
pub enum Effect {
    /// Read a file as UTF-8 text. Answered by `Outcome::Text`.
    ReadFile { path: String },
    /// Create or truncate a file and write the text into it. Answered by `Outcome::Done`.
    WriteFile { path: String, content: String },
    /// Tell whether anything exists at the path. Answered by `Outcome::Answer`.
    Exists { path: String },
    /// Tell whether the path is a directory. Answered by `Outcome::Answer`.
    IsDirectory { path: String },
    /// List the names of the entries of a directory. Answered by `Outcome::Names`.
    ListDirectory { path: String },
    /// Create a directory and every missing directory above it. Answered by
    /// `Outcome::Done`.
    CreateDirectories { path: String },
    /// Resolve a path to its absolute, canonical form. Answered by `Outcome::Text`.
    Canonicalize { path: String },
    /// Rename a file. Answered by `Outcome::Done`.
    Rename { from: String, to: String },
    /// Remove a file. Answered by `Outcome::Done`.
    RemoveFile { path: String },
    /// Create a file with a name of its own that starts with `prefix` and ends with
    /// `suffix`, and write the text into it. Answered by `Outcome::Text` with the path.
    CreateTemp { prefix: String, suffix: String, content: String },
    /// Run a command in a shell, feed it the input, and wait for it. Answered by
    /// `Outcome::Exited`.
    Run { command: String, input: Option<String> },
    /// Start a program and leave it alone. Answered by `Outcome::Done`.
    Spawn { program: String, arguments: Vec<String> },
}

/// The view of an `Effect`.
pub enum EffectView {
    ReadFile { path: Seq<char> },
    WriteFile { path: Seq<char>, content: Seq<char> },
    Exists { path: Seq<char> },
    IsDirectory { path: Seq<char> },
    ListDirectory { path: Seq<char> },
    CreateDirectories { path: Seq<char> },
    Canonicalize { path: Seq<char> },
    Rename { from: Seq<char>, to: Seq<char> },
    RemoveFile { path: Seq<char> },
    CreateTemp { prefix: Seq<char>, suffix: Seq<char>, content: Seq<char> },
    Run { command: Seq<char>, input: Option<Seq<char>> },
    Spawn { program: Seq<char>, arguments: Seq<Seq<char>> },
}

impl View for Effect {
    type V = EffectView;

    open spec fn view(&self) -> EffectView {
        match self {
            Effect::ReadFile { path } => EffectView::ReadFile { path: path@ },
            Effect::WriteFile { path, content } => EffectView::WriteFile {
                path: path@,
                content: content@,
            },
            Effect::Exists { path } => EffectView::Exists { path: path@ },
            Effect::IsDirectory { path } => EffectView::IsDirectory { path: path@ },
            Effect::ListDirectory { path } => EffectView::ListDirectory { path: path@ },
            Effect::CreateDirectories { path } => EffectView::CreateDirectories { path: path@ },
            Effect::Canonicalize { path } => EffectView::Canonicalize { path: path@ },
            Effect::Rename { from, to } => EffectView::Rename { from: from@, to: to@ },
            Effect::RemoveFile { path } => EffectView::RemoveFile { path: path@ },
            Effect::CreateTemp { prefix, suffix, content } => EffectView::CreateTemp {
                prefix: prefix@,
                suffix: suffix@,
                content: content@,
            },
            Effect::Run { command, input } => EffectView::Run {
                command: command@,
                input: optional(*input),
            },
            Effect::Spawn { program, arguments } => EffectView::Spawn {
                program: program@,
                arguments: texts(arguments@),
            },
        }
    }
}

/// What came of an effect.
#[derive(Clone, Debug, PartialEq, Eq)]
pub enum Outcome {
    /// The effect could not be carried out.
    Failed,
    /// It was carried out, and there is nothing to report.
    Done,
    /// The answer to a question.
    Answer(bool),
    /// A text: what a file holds, or a path.
    Text(String),
    /// The names of the entries of a directory.
    Names(Vec<String>),
    /// A command has run: its exit status, if it ended with one, and all it wrote
    /// to its output.
    Exited { status: Option<i32>, output: Vec<u8> },
}

/// The view of an `Outcome`.
pub enum OutcomeView {
    Failed,
    Done,
    Answer(bool),
    Text(Seq<char>),
    Names(Seq<Seq<char>>),
    Exited { status: Option<i32>, output: Seq<u8> },
}

impl View for Outcome {
    type V = OutcomeView;

    open spec fn view(&self) -> OutcomeView {
        match self {
            Outcome::Failed => OutcomeView::Failed,
            Outcome::Done => OutcomeView::Done,
            Outcome::Answer(answer) => OutcomeView::Answer(*answer),
            Outcome::Text(text) => OutcomeView::Text(text@),
            Outcome::Names(names) => OutcomeView::Names(texts(names@)),
            Outcome::Exited { status, output } => OutcomeView::Exited {
                status: *status,
                output: output@,
            },
        }
    }
}

/// Where a request stands while the caller carries out an effect.
#[derive(Clone, Debug, PartialEq, Eq)]
pub enum Pending {
    /// Looking for the configuration file: asked whether `candidate` exists, with
    /// `rest` still to try. `resolve` tells the two commands apart: the path is
    /// wanted, not what the file holds.
    ConfigProbe { resolve: bool, candidate: String, rest: Vec<String> },
    /// Reading the configuration file.
    ConfigRead,
    /// Resolving the path of the configuration file.
    ConfigResolve,
    /// Reading a file.
    Read,
    /// Writing a file.
    Write,
    /// Asked whether the file to write exists already.
    RcProbe { path: String, content: String },
    /// Writing a file that was missing, or that may be overwritten.
    RcWrite,
    /// Creating directories.
    Mkdir,
    /// Asked whether the path to list is a directory.
    DirProbe { path: String },
    /// Listing a directory; `is_directory` is what the reply says of the path.
    DirList { is_directory: bool },
    /// Creating a temporary file.
    Temp,
    /// Moving a file: asked whether the destination exists. `inside` is the path
    /// that the file gets when it is moved into the destination, should that be a
    /// directory.
    MoveProbe { from: String, to: String, inside: Option<String>, overwrite: bool, cleanup: bool },
    /// Moving a file onto a destination that exists: asked whether the destination
    /// is a directory.
    MoveProbeDirectory {
        from: String,
        to: String,
        inside: Option<String>,
        overwrite: bool,
        cleanup: bool,
    },
    /// Moving a file: asked whether a file of its name exists inside the destination.
    MoveProbeInside { from: String, target: String, cleanup: bool },
    /// Moving a file: renaming it.
    MoveRename { from: String, cleanup: bool },
    /// A move is over with `code`: removing what is left of the source.
    MoveCleanup { code: u32 },
    /// Running a command.
    Run,
    /// Starting a program.
    RunAsync,
}

/// The view of a `Pending`.
pub enum PendingView {
    ConfigProbe { resolve: bool, candidate: Seq<char>, rest: Seq<Seq<char>> },
    ConfigRead,
    ConfigResolve,
    Read,
    Write,
    RcProbe { path: Seq<char>, content: Seq<char> },
    RcWrite,
    Mkdir,
    DirProbe { path: Seq<char> },
    DirList { is_directory: bool },
    Temp,
    MoveProbe {
        from: Seq<char>,
        to: Seq<char>,
        inside: Option<Seq<char>>,
        overwrite: bool,
        cleanup: bool,
    },
    MoveProbeDirectory {
        from: Seq<char>,
        to: Seq<char>,
        inside: Option<Seq<char>>,
        overwrite: bool,
        cleanup: bool,
    },
    MoveProbeInside { from: Seq<char>, target: Seq<char>, cleanup: bool },
    MoveRename { from: Seq<char>, cleanup: bool },
    MoveCleanup { code: u32 },
    Run,
    RunAsync,
}

impl View for Pending {
    type V = PendingView;

    open spec fn view(&self) -> PendingView {
        match self {
            Pending::ConfigProbe { resolve, candidate, rest } => PendingView::ConfigProbe {
                resolve: *resolve,
                candidate: candidate@,
                rest: texts(rest@),
            },
            Pending::ConfigRead => PendingView::ConfigRead,
            Pending::ConfigResolve => PendingView::ConfigResolve,
            Pending::Read => PendingView::Read,
            Pending::Write => PendingView::Write,
            Pending::RcProbe { path, content } => PendingView::RcProbe {
                path: path@,
                content: content@,
            },
            Pending::RcWrite => PendingView::RcWrite,
            Pending::Mkdir => PendingView::Mkdir,
            Pending::DirProbe { path } => PendingView::DirProbe { path: path@ },
            Pending::DirList { is_directory } => PendingView::DirList {
                is_directory: *is_directory,
            },
            Pending::Temp => PendingView::Temp,
            Pending::MoveProbe { from, to, inside, overwrite, cleanup } => PendingView::MoveProbe {
                from: from@,
                to: to@,
                inside: optional(*inside),
                overwrite: *overwrite,
                cleanup: *cleanup,
            },
            Pending::MoveProbeDirectory { from, to, inside, overwrite, cleanup } => {
                PendingView::MoveProbeDirectory {
                    from: from@,
                    to: to@,
                    inside: optional(*inside),
                    overwrite: *overwrite,
                    cleanup: *cleanup,
                }
            },
            Pending::MoveProbeInside { from, target, cleanup } => PendingView::MoveProbeInside {
                from: from@,
                target: target@,
                cleanup: *cleanup,
            },
            Pending::MoveRename { from, cleanup } => PendingView::MoveRename {
                from: from@,
                cleanup: *cleanup,
            },
            Pending::MoveCleanup { code } => PendingView::MoveCleanup { code: *code },
            Pending::Run => PendingView::Run,
            Pending::RunAsync => PendingView::RunAsync,
        }
    }
}

/// What happens next on a request.
#[derive(Clone, Debug, PartialEq, Eq)]
pub enum Step {
    /// The request is answered.
    Reply(Response),
    /// The caller carries out the effect and comes back with its outcome.
    Perform(Effect, Pending),
}

/// The view of a `Step`.
pub enum StepView {
    Reply(Seq<(Seq<char>, ItemView)>),
    Perform(EffectView, PendingView),
}

impl View for Step {
    type V = StepView;

    open spec fn view(&self) -> StepView {
        match self {
            Step::Reply(response) => StepView::Reply(response@),
            Step::Perform(effect, pending) => StepView::Perform(effect@, pending@),
        }
    }
}

/// How many effects a request can still ask for, at most, from where it stands.
pub open spec fn effects_left(pending: PendingView) -> nat {
    match pending {
        PendingView::ConfigProbe { rest, .. } => 2 * rest.len() + 2,
        PendingView::RcProbe { .. } => 2,
        PendingView::DirProbe { .. } => 2,
        PendingView::MoveProbe { .. } => 5,
        PendingView::MoveProbeDirectory { .. } => 4,
        PendingView::MoveProbeInside { .. } => 3,
        PendingView::MoveRename { .. } => 2,
        _ => 1,
    }
}

} // verus!
