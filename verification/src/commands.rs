//! The operations that a request can ask for. Each one is a function from what the
//! request says to the first `Step`, and, where that step is an effect, a function
//! from the outcome of the effect to the step after it.

use vstd::prelude::*;
use vstd::string::StringExecFns;
use crate::content::{content_to_store, stored};
use crate::host::{optional, Host, HostView};
use crate::message::{reply, reply_with_code, Item, ItemView, Response};
use crate::path::{
    config_candidates, config_places, expand_path, expand_tilde, file_name, file_name_of, join,
    joined, lookup, parent, parent_of, resolved, sanitize_file_name, sanitized, value_of,
    without_tilde,
};
use crate::process::{code_of_status, exit_code, normalize_lines, normalized, split_words, words};
use crate::session::{
    Effect, EffectView, Outcome, OutcomeView, Pending, PendingView, Step, StepView,
};
use crate::text::{copy_of, decode_text, push_char, text_of_bytes, texts};

verus! {

/// The code of an operation that was carried out.
pub const SUCCESS: u32 = 0;

/// The code of an operation that was declined, or that found nothing.
pub const DECLINED: u32 = 1;

/// The code of an operation that was tried and failed.
pub const FAILURE: u32 = 2;

/// The reply to a request that is no command, or that a command cannot serve.
pub open spec fn unhandled() -> Seq<(Seq<char>, ItemView)> {
    reply_with_code("error"@, DECLINED).push(("error"@, ItemView::Text("Unhandled message"@)))
}

/// Whether an effect was carried out.
pub open spec fn succeeded(outcome: OutcomeView) -> bool {
    outcome is Done
}

/// Whether a question was answered with yes. No answer counts as no.
pub open spec fn affirmed(outcome: OutcomeView) -> bool {
    outcome == OutcomeView::Answer(true)
}

/// The code for the outcome of an effect that a command consists of.
pub open spec fn code_for(outcome: OutcomeView) -> u32 {
    if succeeded(outcome) {
        SUCCESS
    } else {
        FAILURE
    }
}

/// The reply to a request that is no command, or that a command cannot serve.
pub fn error_response() -> (response: Response)
    ensures
        response@ == unhandled(),
{
    let mut response = Response::with_code("error", DECLINED);
    response.put("error", Item::Text(copy_of("Unhandled message")));
    response
}

fn is_yes(outcome: &Outcome) -> (yes: bool)
    ensures
        yes == affirmed(outcome@),
{
    match outcome {
        Outcome::Answer(answer) => *answer,
        _ => false,
    }
}

fn code_of(outcome: &Outcome) -> (code: u32)
    ensures
        code == code_for(outcome@),
{
    match outcome {
        Outcome::Done => SUCCESS,
        _ => FAILURE,
    }
}

/// The version that the host reports.
pub open spec fn version_text() -> Seq<char> {
    "0.5.0"@
}

/// The reply to `version`.
pub open spec fn version_reply() -> Seq<(Seq<char>, ItemView)> {
    reply_with_code("version"@, SUCCESS).push(("version"@, ItemView::Text(version_text())))
}

/// Reports the version of the host.
pub fn version() -> (response: Response)
    ensures
        response@ == version_reply(),
{
    let mut response = Response::with_code("version", SUCCESS);
    response.put("version", Item::Text(copy_of("0.5.0")));
    response
}

/// The name of the command that asks for the configuration, or for its path.
pub open spec fn config_command(resolve: bool) -> Seq<char> {
    if resolve {
        "getconfigpath"@
    } else {
        "getconfig"@
    }
}

/// The search for the configuration file among the places left: the first place is
/// asked for; with no place left, nothing was found.
pub open spec fn config_search(resolve: bool, places: Seq<Seq<char>>) -> StepView {
    if places.len() == 0 {
        StepView::Reply(reply_with_code(config_command(resolve), DECLINED))
    } else {
        StepView::Perform(
            EffectView::Exists { path: places[0] },
            PendingView::ConfigProbe { resolve, candidate: places[0], rest: places.skip(1) },
        )
    }
}

/// What is done with the configuration file once it is found.
pub open spec fn config_found(resolve: bool, candidate: Seq<char>) -> StepView {
    if resolve {
        StepView::Perform(EffectView::Canonicalize { path: candidate }, PendingView::ConfigResolve)
    } else {
        StepView::Perform(EffectView::ReadFile { path: candidate }, PendingView::ConfigRead)
    }
}

/// The step after a place was asked for.
pub open spec fn config_probed(
    resolve: bool,
    candidate: Seq<char>,
    rest: Seq<Seq<char>>,
    outcome: OutcomeView,
) -> StepView {
    if affirmed(outcome) {
        config_found(resolve, candidate)
    } else {
        config_search(resolve, rest)
    }
}

/// The reply once the configuration file was read, or its path resolved.
pub open spec fn config_reply(resolve: bool, outcome: OutcomeView) -> Seq<(Seq<char>, ItemView)> {
    match outcome {
        OutcomeView::Text(text) => reply_with_code(config_command(resolve), SUCCESS).push(
            ("content"@, ItemView::Text(text)),
        ),
        _ => reply_with_code(config_command(resolve), FAILURE),
    }
}

fn command_of_config(resolve: bool) -> (name: &'static str)
    ensures
        name@ == config_command(resolve),
{
    if resolve {
        "getconfigpath"
    } else {
        "getconfig"
    }
}

fn search_config(resolve: bool, places: Vec<String>) -> (step: Step)
    ensures
        step@ == config_search(resolve, texts(places@)),
{
    let mut places = places;
    let ghost all = texts(places@);
    if places.len() == 0 {
        Step::Reply(Response::with_code(command_of_config(resolve), DECLINED))
    } else {
        let candidate = places.remove(0);
        assert(texts(places@) == all.skip(1));
        Step::Perform(
            Effect::Exists { path: copy_of(candidate.as_str()) },
            Pending::ConfigProbe { resolve, candidate, rest: places },
        )
    }
}

fn after_config_probe(
    resolve: bool,
    candidate: String,
    rest: Vec<String>,
    outcome: &Outcome,
) -> (step: Step)
    ensures
        step@ == config_probed(resolve, candidate@, texts(rest@), outcome@),
{
    if is_yes(outcome) {
        if resolve {
            Step::Perform(Effect::Canonicalize { path: candidate }, Pending::ConfigResolve)
        } else {
            Step::Perform(Effect::ReadFile { path: candidate }, Pending::ConfigRead)
        }
    } else {
        search_config(resolve, rest)
    }
}

fn after_config(resolve: bool, outcome: Outcome) -> (response: Response)
    ensures
        response@ == config_reply(resolve, outcome@),
{
    match outcome {
        Outcome::Text(text) => {
            let mut response = Response::with_code(command_of_config(resolve), SUCCESS);
            response.put("content", Item::Text(text));
            response
        },
        _ => Response::with_code(command_of_config(resolve), FAILURE),
    }
}

/// Starts the search for the configuration file, to read it.
pub fn get_config(host: &Host) -> (step: Step)
    ensures
        step@ == config_search(false, config_places(host@)),
{
    search_config(false, config_candidates(host))
}

/// Starts the search for the configuration file, to report its path.
pub fn get_config_path(host: &Host) -> (step: Step)
    ensures
        step@ == config_search(true, config_places(host@)),
{
    search_config(true, config_candidates(host))
}

/// The first step of `read`.
pub open spec fn read_step(file: Seq<char>, host: HostView) -> StepView {
    StepView::Perform(EffectView::ReadFile { path: resolved(file, host) }, PendingView::Read)
}

/// The reply to `read`: what the file holds, or the failure with an empty content.
pub open spec fn read_reply(outcome: OutcomeView) -> Seq<(Seq<char>, ItemView)> {
    match outcome {
        OutcomeView::Text(text) => reply_with_code("read"@, SUCCESS).push(
            ("content"@, ItemView::Text(text)),
        ),
        _ => reply_with_code("read"@, FAILURE).push(("content"@, ItemView::Text(Seq::empty()))),
    }
}

/// Starts reading a file.
pub fn read(file: &str, host: &Host) -> (step: Step)
    ensures
        step@ == read_step(file@, host@),
{
    Step::Perform(Effect::ReadFile { path: expand_path(file, host) }, Pending::Read)
}

fn after_read(outcome: Outcome) -> (response: Response)
    ensures
        response@ == read_reply(outcome@),
{
    match outcome {
        Outcome::Text(text) => {
            let mut response = Response::with_code("read", SUCCESS);
            response.put("content", Item::Text(text));
            response
        },
        _ => {
            let mut response = Response::with_code("read", FAILURE);
            response.put("content", Item::Text(String::new()));
            response
        },
    }
}

/// The first step of `write`: the file is written at the path as it is given, with
/// what the content stores; a content that stores nothing fails at once.
pub open spec fn write_step(file: Seq<char>, content: Seq<char>) -> StepView {
    match stored(content) {
        Some(text) => StepView::Perform(
            EffectView::WriteFile { path: file, content: text },
            PendingView::Write,
        ),
        None => StepView::Reply(reply_with_code("write"@, FAILURE)),
    }
}

/// The reply to `write`.
pub open spec fn write_reply(outcome: OutcomeView) -> Seq<(Seq<char>, ItemView)> {
    reply_with_code("write"@, code_for(outcome))
}

/// Starts writing a file.
pub fn write(file: &str, content: &str) -> (step: Step)
    ensures
        step@ == write_step(file@, content@),
{
    match content_to_store(content) {
        Some(text) => Step::Perform(
            Effect::WriteFile { path: copy_of(file), content: text },
            Pending::Write,
        ),
        None => Step::Reply(Response::with_code("write", FAILURE)),
    }
}

/// The first step of `writerc`: a file that may be overwritten is written at once,
/// any other only after it was found missing.
pub open spec fn write_rc_step(
    file: Seq<char>,
    content: Seq<char>,
    force: bool,
    host: HostView,
) -> StepView {
    let path = resolved(file, host);
    if force {
        StepView::Perform(EffectView::WriteFile { path, content }, PendingView::RcWrite)
    } else {
        StepView::Perform(EffectView::Exists { path }, PendingView::RcProbe { path, content })
    }
}

/// The step of `writerc` after the file was asked for: a file that exists stays as
/// it is.
pub open spec fn write_rc_probed(
    path: Seq<char>,
    content: Seq<char>,
    outcome: OutcomeView,
) -> StepView {
    if affirmed(outcome) {
        StepView::Reply(reply_with_code("writerc"@, DECLINED))
    } else {
        StepView::Perform(EffectView::WriteFile { path, content }, PendingView::RcWrite)
    }
}

/// The reply to `writerc` once the file was written.
pub open spec fn write_rc_reply(outcome: OutcomeView) -> Seq<(Seq<char>, ItemView)> {
    reply_with_code("writerc"@, code_for(outcome))
}

/// Starts writing a file that is not to be overwritten by accident.
pub fn write_rc(file: &str, content: &str, force: bool, host: &Host) -> (step: Step)
    ensures
        step@ == write_rc_step(file@, content@, force, host@),
{
    let path = expand_path(file, host);
    if force {
        Step::Perform(Effect::WriteFile { path, content: copy_of(content) }, Pending::RcWrite)
    } else {
        Step::Perform(
            Effect::Exists { path: copy_of(path.as_str()) },
            Pending::RcProbe { path, content: copy_of(content) },
        )
    }
}

fn after_rc_probe(path: String, content: String, outcome: &Outcome) -> (step: Step)
    ensures
        step@ == write_rc_probed(path@, content@, outcome@),
{
    if is_yes(outcome) {
        Step::Reply(Response::with_code("writerc", DECLINED))
    } else {
        Step::Perform(Effect::WriteFile { path, content }, Pending::RcWrite)
    }
}

/// The first step of `mkdir`.
pub open spec fn mkdir_step(directory: Seq<char>, host: HostView) -> StepView {
    StepView::Perform(
        EffectView::CreateDirectories { path: resolved(directory, host) },
        PendingView::Mkdir,
    )
}

/// The reply to `mkdir`.
pub open spec fn mkdir_reply(outcome: OutcomeView) -> Seq<(Seq<char>, ItemView)> {
    reply_with_code("mkdir"@, code_for(outcome))
}

/// Starts creating a directory and the directories above it.
pub fn create_directory(directory: &str, host: &Host) -> (step: Step)
    ensures
        step@ == mkdir_step(directory@, host@),
{
    Step::Perform(
        Effect::CreateDirectories { path: expand_path(directory, host) },
        Pending::Mkdir,
    )
}

/// The first step of `list_dir`: only a leading `~` is replaced in the path, which
/// is then asked for.
pub open spec fn list_dir_step(path: Seq<char>, host: HostView) -> StepView {
    let full = without_tilde(path, host.home);
    StepView::Perform(
        EffectView::IsDirectory { path: full },
        PendingView::DirProbe { path: full },
    )
}

/// The directory that is listed for a path: the path, if it is a directory; else
/// what lies above it; else the current directory.
pub open spec fn listed_directory(path: Seq<char>, is_directory: bool) -> Seq<char> {
    if is_directory {
        path
    } else {
        match parent_of(path) {
            Some(above) => above,
            None => "."@,
        }
    }
}

/// The step of `list_dir` after the path was asked for.
pub open spec fn list_dir_probed(path: Seq<char>, outcome: OutcomeView) -> StepView {
    StepView::Perform(
        EffectView::ListDirectory { path: listed_directory(path, affirmed(outcome)) },
        PendingView::DirList { is_directory: affirmed(outcome) },
    )
}

/// The names that a listing gave; none where it failed.
pub open spec fn names_in(outcome: OutcomeView) -> Seq<Seq<char>> {
    match outcome {
        OutcomeView::Names(names) => names,
        _ => Seq::empty(),
    }
}

/// The reply to `list_dir`: whether the path itself is a directory, the names
/// found, and the separator of paths.
pub open spec fn list_dir_reply(
    is_directory: bool,
    separator: char,
    outcome: OutcomeView,
) -> Seq<(Seq<char>, ItemView)> {
    reply("list_dir"@).push(("isDir"@, ItemView::Flag(is_directory))).push(
        ("files"@, ItemView::List(names_in(outcome))),
    ).push(("sep"@, ItemView::Text(seq![separator])))
}

/// Starts listing a directory.
pub fn read_directory(path: &str, host: &Host) -> (step: Step)
    ensures
        step@ == list_dir_step(path@, host@),
{
    let full = expand_tilde(path, &host.home);
    Step::Perform(
        Effect::IsDirectory { path: copy_of(full.as_str()) },
        Pending::DirProbe { path: full },
    )
}

fn after_dir_probe(path: String, outcome: &Outcome) -> (step: Step)
    ensures
        step@ == list_dir_probed(path@, outcome@),
{
    let is_directory = is_yes(outcome);
    let listed = if is_directory {
        path
    } else {
        match parent(path.as_str()) {
            Some(above) => above,
            None => copy_of("."),
        }
    };
    Step::Perform(Effect::ListDirectory { path: listed }, Pending::DirList { is_directory })
}

fn after_dir_list(is_directory: bool, separator: char, outcome: Outcome) -> (response: Response)
    ensures
        response@ == list_dir_reply(is_directory, separator, outcome@),
{
    let names = match outcome {
        Outcome::Names(names) => names,
        _ => {
            let none: Vec<String> = Vec::new();
            assert(texts(none@) == Seq::<Seq<char>>::empty());
            none
        },
    };
    let mut sep = String::new();
    push_char(&mut sep, separator);
    assert(sep@ == seq![separator]);
    let mut response = Response::new("list_dir");
    response.put("isDir", Item::Flag(is_directory));
    response.put("files", Item::List(names));
    response.put("sep", Item::Text(sep));
    response
}

/// The start of the name of a temporary file: a fixed mark, the prefix made safe,
/// and an underscore.
pub open spec fn temp_prefix(prefix: Seq<char>) -> Seq<char> {
    "tmp_"@ + sanitized(prefix) + "_"@
}

/// The first step of `temp`.
pub open spec fn temp_step(prefix: Seq<char>, content: Seq<char>) -> StepView {
    StepView::Perform(
        EffectView::CreateTemp { prefix: temp_prefix(prefix), suffix: ".txt"@, content },
        PendingView::Temp,
    )
}

/// The reply to `temp`: the path of the file, or, where none was created, the reply
/// to a request that cannot be served.
pub open spec fn temp_reply(outcome: OutcomeView) -> Seq<(Seq<char>, ItemView)> {
    match outcome {
        OutcomeView::Text(path) => reply_with_code("temp"@, SUCCESS).push(
            ("content"@, ItemView::Text(path)),
        ),
        _ => unhandled(),
    }
}

/// Starts creating a temporary file.
pub fn temp(prefix: &str, content: &str) -> (step: Step)
    ensures
        step@ == temp_step(prefix@, content@),
{
    let mut name = copy_of("tmp_");
    name.append(sanitize_file_name(prefix).as_str());
    name.append("_");
    Step::Perform(
        Effect::CreateTemp { prefix: name, suffix: copy_of(".txt"), content: copy_of(content) },
        Pending::Temp,
    )
}

fn after_temp(outcome: Outcome) -> (response: Response)
    ensures
        response@ == temp_reply(outcome@),
{
    match outcome {
        Outcome::Text(path) => {
            let mut response = Response::with_code("temp", SUCCESS);
            response.put("content", Item::Text(path));
            response
        },
        _ => error_response(),
    }
}

/// The path that a file gets inside a directory: the directory, then the last part
/// of the path of the file. A path without a last part gets none.
pub open spec fn path_inside(directory: Seq<char>, file: Seq<char>, separator: char) -> Option<
    Seq<char>,
> {
    match file_name_of(file) {
        Some(name) => Some(joined(directory, name, separator)),
        None => None,
    }
}

/// The first step of `move`: both paths are resolved, and the destination is asked
/// for.
pub open spec fn move_step(
    from: Seq<char>,
    to: Seq<char>,
    overwrite: bool,
    cleanup: bool,
    host: HostView,
) -> StepView {
    let source = resolved(from, host);
    let target = resolved(to, host);
    StepView::Perform(
        EffectView::Exists { path: target },
        PendingView::MoveProbe {
            from: source,
            to: target,
            inside: path_inside(target, source, host.separator),
            overwrite,
            cleanup,
        },
    )
}

/// The renaming that a move consists of.
pub open spec fn move_rename(from: Seq<char>, to: Seq<char>, cleanup: bool) -> StepView {
    StepView::Perform(EffectView::Rename { from, to }, PendingView::MoveRename { from, cleanup })
}

/// The end of a move that has got its code: with `cleanup` the source is removed
/// first, whatever the code.
pub open spec fn move_finish(from: Seq<char>, cleanup: bool, code: u32) -> StepView {
    if cleanup {
        StepView::Perform(EffectView::RemoveFile { path: from }, PendingView::MoveCleanup { code })
    } else {
        StepView::Reply(reply_with_code("move"@, code))
    }
}

/// The step of `move` after the destination was asked for. A destination that does
/// not exist takes the name of the file; of one that exists it is asked whether it
/// is a directory.
pub open spec fn move_probed(
    from: Seq<char>,
    to: Seq<char>,
    inside: Option<Seq<char>>,
    overwrite: bool,
    cleanup: bool,
    outcome: OutcomeView,
) -> StepView {
    if !affirmed(outcome) {
        move_rename(from, to, cleanup)
    } else {
        StepView::Perform(
            EffectView::IsDirectory { path: to },
            PendingView::MoveProbeDirectory { from, to, inside, overwrite, cleanup },
        )
    }
}

/// The step of `move` once it is known whether the destination, which exists, is
/// a directory. A directory is moved into: at once where that may overwrite, else
/// only after a file of that name was found in it; where the file has no name to
/// keep, the move into the directory fails, or is declined if it may not
/// overwrite. Anything else is overwritten by the file, or, where that is not
/// allowed, the move is declined.
pub open spec fn move_probed_directory(
    from: Seq<char>,
    to: Seq<char>,
    inside: Option<Seq<char>>,
    overwrite: bool,
    cleanup: bool,
    outcome: OutcomeView,
) -> StepView {
    if !affirmed(outcome) {
        if overwrite {
            move_rename(from, to, cleanup)
        } else {
            move_finish(from, cleanup, DECLINED)
        }
    } else {
        match inside {
            Some(inside) => if overwrite {
                move_rename(from, inside, cleanup)
            } else {
                StepView::Perform(
                    EffectView::Exists { path: inside },
                    PendingView::MoveProbeInside { from, target: inside, cleanup },
                )
            },
            None => move_finish(
                from,
                cleanup,
                if overwrite {
                    FAILURE
                } else {
                    DECLINED
                },
            ),
        }
    }
}

/// The step of `move` after the file inside the destination was asked for: without
/// it the move is declined.
pub open spec fn move_probed_inside(
    from: Seq<char>,
    inside: Seq<char>,
    cleanup: bool,
    outcome: OutcomeView,
) -> StepView {
    if affirmed(outcome) {
        move_rename(from, inside, cleanup)
    } else {
        move_finish(from, cleanup, DECLINED)
    }
}

/// The step of `move` after the renaming.
pub open spec fn move_renamed(from: Seq<char>, cleanup: bool, outcome: OutcomeView) -> StepView {
    move_finish(from, cleanup, code_for(outcome))
}

/// Starts moving a file.
pub fn move_file(from: &str, to: &str, overwrite: bool, cleanup: bool, host: &Host) -> (step: Step)
    ensures
        step@ == move_step(from@, to@, overwrite, cleanup, host@),
{
    let source = expand_path(from, host);
    let target = expand_path(to, host);
    let inside = match file_name(source.as_str()) {
        Some(name) => Some(join(target.as_str(), name.as_str(), host.separator)),
        None => None,
    };
    Step::Perform(
        Effect::Exists { path: copy_of(target.as_str()) },
        Pending::MoveProbe { from: source, to: target, inside, overwrite, cleanup },
    )
}

fn rename(from: String, to: String, cleanup: bool) -> (step: Step)
    ensures
        step@ == move_rename(from@, to@, cleanup),
{
    Step::Perform(
        Effect::Rename { from: copy_of(from.as_str()), to },
        Pending::MoveRename { from, cleanup },
    )
}

fn finish_move(from: String, cleanup: bool, code: u32) -> (step: Step)
    ensures
        step@ == move_finish(from@, cleanup, code),
{
    if cleanup {
        Step::Perform(Effect::RemoveFile { path: from }, Pending::MoveCleanup { code })
    } else {
        Step::Reply(Response::with_code("move", code))
    }
}

fn after_move_probe(
    from: String,
    to: String,
    inside: Option<String>,
    overwrite: bool,
    cleanup: bool,
    outcome: &Outcome,
) -> (step: Step)
    ensures
        step@ == move_probed(from@, to@, optional(inside), overwrite, cleanup, outcome@),
{
    if !is_yes(outcome) {
        rename(from, to, cleanup)
    } else {
        Step::Perform(
            Effect::IsDirectory { path: copy_of(to.as_str()) },
            Pending::MoveProbeDirectory { from, to, inside, overwrite, cleanup },
        )
    }
}

fn after_move_probe_directory(
    from: String,
    to: String,
    inside: Option<String>,
    overwrite: bool,
    cleanup: bool,
    outcome: &Outcome,
) -> (step: Step)
    ensures
        step@ == move_probed_directory(
            from@,
            to@,
            optional(inside),
            overwrite,
            cleanup,
            outcome@,
        ),
{
    if !is_yes(outcome) {
        if overwrite {
            rename(from, to, cleanup)
        } else {
            finish_move(from, cleanup, DECLINED)
        }
    } else {
        match inside {
            Some(inside) => {
                if overwrite {
                    rename(from, inside, cleanup)
                } else {
                    Step::Perform(
                        Effect::Exists { path: copy_of(inside.as_str()) },
                        Pending::MoveProbeInside { from, target: inside, cleanup },
                    )
                }
            },
            None => finish_move(
                from,
                cleanup,
                if overwrite {
                    FAILURE
                } else {
                    DECLINED
                },
            ),
        }
    }
}

fn after_move_probe_inside(
    from: String,
    inside: String,
    cleanup: bool,
    outcome: &Outcome,
) -> (step: Step)
    ensures
        step@ == move_probed_inside(from@, inside@, cleanup, outcome@),
{
    if is_yes(outcome) {
        rename(from, inside, cleanup)
    } else {
        finish_move(from, cleanup, DECLINED)
    }
}

/// The reply to `env`: the value of the variable, or no content at all where the
/// variable has none.
pub open spec fn env_reply(variable: Seq<char>, host: HostView) -> Seq<(Seq<char>, ItemView)> {
    match value_of(host.variables, variable) {
        Some(value) => reply("env"@).push(("content"@, ItemView::Text(value))),
        None => reply("env"@),
    }
}

/// Looks a variable of the environment up.
pub fn env(variable: &str, host: &Host) -> (response: Response)
    ensures
        response@ == env_reply(variable@, host@),
{
    let mut response = Response::new("env");
    match lookup(&host.variables, variable) {
        Some(value) => {
            response.put("content", Item::Text(copy_of(value.as_str())));
        },
        None => {},
    }
    response
}

/// The reply to `ppid`.
pub open spec fn ppid_reply(host: HostView) -> Seq<(Seq<char>, ItemView)> {
    reply("ppid"@).push(("content"@, ItemView::Number(host.process_id)))
}

/// Reports the identifier of the running process.
pub fn get_process_id(host: &Host) -> (response: Response)
    ensures
        response@ == ppid_reply(host@),
{
    let mut response = Response::new("ppid");
    response.put("content", Item::Number(host.process_id));
    response
}

/// The first step of `run`.
pub open spec fn run_step(command: Seq<char>, input: Option<Seq<char>>) -> StepView {
    StepView::Perform(EffectView::Run { command, input }, PendingView::Run)
}

/// The reply to `run`. A command that ran gives its output, line by line, and the
/// code of its exit status; output that is no text is a failure, and so is a
/// command that could not be started. A failure gives no output.
pub open spec fn run_reply(outcome: OutcomeView) -> Seq<(Seq<char>, ItemView)> {
    match outcome {
        OutcomeView::Exited { status, output } => match text_of_bytes(normalized(output)) {
            Some(text) => reply_with_code("run"@, exit_code(status)).push(
                ("result"@, ItemView::Text(text)),
            ),
            None => reply_with_code("run"@, FAILURE).push(
                ("result"@, ItemView::Text(Seq::empty())),
            ),
        },
        _ => reply_with_code("run"@, FAILURE).push(("result"@, ItemView::Text(Seq::empty()))),
    }
}

/// Starts running a command in a shell.
pub fn run(command: &str, input: Option<String>) -> (step: Step)
    ensures
        step@ == run_step(command@, optional(input)),
{
    Step::Perform(Effect::Run { command: copy_of(command), input }, Pending::Run)
}

fn after_run(outcome: Outcome) -> (response: Response)
    ensures
        response@ == run_reply(outcome@),
{
    match outcome {
        Outcome::Exited { status, output } => {
            match decode_text(normalize_lines(&output)) {
                Some(text) => {
                    let mut response = Response::with_code("run", code_of_status(status));
                    response.put("result", Item::Text(text));
                    response
                },
                None => {
                    let mut response = Response::with_code("run", FAILURE);
                    response.put("result", Item::Text(String::new()));
                    response
                },
            }
        },
        _ => {
            let mut response = Response::with_code("run", FAILURE);
            response.put("result", Item::Text(String::new()));
            response
        },
    }
}

/// The first step of `run_async`: the first word of the command is the program,
/// the other words are its arguments. A command without a word starts nothing.
pub open spec fn run_async_step(command: Seq<char>) -> StepView {
    let found = words(command);
    if found.len() == 0 {
        StepView::Reply(reply("run_async"@))
    } else {
        StepView::Perform(
            EffectView::Spawn { program: found[0], arguments: found.skip(1) },
            PendingView::RunAsync,
        )
    }
}

/// Starts a program without waiting for it.
pub fn run_async(command: &str) -> (step: Step)
    ensures
        step@ == run_async_step(command@),
{
    let mut found = split_words(command);
    let ghost all = texts(found@);
    if found.len() == 0 {
        Step::Reply(Response::new("run_async"))
    } else {
        let program = found.remove(0);
        assert(texts(found@) == all.skip(1));
        Step::Perform(Effect::Spawn { program, arguments: found }, Pending::RunAsync)
    }
}

/// The step that follows the outcome of an effect.
pub open spec fn next_step(host: HostView, pending: PendingView, outcome: OutcomeView) -> StepView {
    match pending {
        PendingView::ConfigProbe { resolve, candidate, rest } => config_probed(
            resolve,
            candidate,
            rest,
            outcome,
        ),
        PendingView::ConfigRead => StepView::Reply(config_reply(false, outcome)),
        PendingView::ConfigResolve => StepView::Reply(config_reply(true, outcome)),
        PendingView::Read => StepView::Reply(read_reply(outcome)),
        PendingView::Write => StepView::Reply(write_reply(outcome)),
        PendingView::RcProbe { path, content } => write_rc_probed(path, content, outcome),
        PendingView::RcWrite => StepView::Reply(write_rc_reply(outcome)),
        PendingView::Mkdir => StepView::Reply(mkdir_reply(outcome)),
        PendingView::DirProbe { path } => list_dir_probed(path, outcome),
        PendingView::DirList { is_directory } => StepView::Reply(
            list_dir_reply(is_directory, host.separator, outcome),
        ),
        PendingView::Temp => StepView::Reply(temp_reply(outcome)),
        PendingView::MoveProbe { from, to, inside, overwrite, cleanup } => move_probed(
            from,
            to,
            inside,
            overwrite,
            cleanup,
            outcome,
        ),
        PendingView::MoveProbeDirectory { from, to, inside, overwrite, cleanup } => {
            move_probed_directory(from, to, inside, overwrite, cleanup, outcome)
        },
        PendingView::MoveProbeInside { from, target, cleanup } => move_probed_inside(
            from,
            target,
            cleanup,
            outcome,
        ),
        PendingView::MoveRename { from, cleanup } => move_renamed(from, cleanup, outcome),
        PendingView::MoveCleanup { code } => StepView::Reply(reply_with_code("move"@, code)),
        PendingView::Run => StepView::Reply(run_reply(outcome)),
        PendingView::RunAsync => StepView::Reply(reply("run_async"@)),
    }
}

/// Goes on with a request once the effect that it waited for has its outcome.
pub fn resume(host: &Host, pending: Pending, outcome: Outcome) -> (step: Step)
    ensures
        step@ == next_step(host@, pending@, outcome@),
{
    match pending {
        Pending::ConfigProbe { resolve, candidate, rest } => after_config_probe(
            resolve,
            candidate,
            rest,
            &outcome,
        ),
        Pending::ConfigRead => Step::Reply(after_config(false, outcome)),
        Pending::ConfigResolve => Step::Reply(after_config(true, outcome)),
        Pending::Read => Step::Reply(after_read(outcome)),
        Pending::Write => Step::Reply(Response::with_code("write", code_of(&outcome))),
        Pending::RcProbe { path, content } => after_rc_probe(path, content, &outcome),
        Pending::RcWrite => Step::Reply(Response::with_code("writerc", code_of(&outcome))),
        Pending::Mkdir => Step::Reply(Response::with_code("mkdir", code_of(&outcome))),
        Pending::DirProbe { path } => after_dir_probe(path, &outcome),
        Pending::DirList { is_directory } => Step::Reply(
            after_dir_list(is_directory, host.separator, outcome),
        ),
        Pending::Temp => Step::Reply(after_temp(outcome)),
        Pending::MoveProbe { from, to, inside, overwrite, cleanup } => after_move_probe(
            from,
            to,
            inside,
            overwrite,
            cleanup,
            &outcome,
        ),
        Pending::MoveProbeDirectory { from, to, inside, overwrite, cleanup } => {
            after_move_probe_directory(from, to, inside, overwrite, cleanup, &outcome)
        },
        Pending::MoveProbeInside { from, target, cleanup } => after_move_probe_inside(
            from,
            target,
            cleanup,
            &outcome,
        ),
        Pending::MoveRename { from, cleanup } => finish_move(from, cleanup, code_of(&outcome)),
        Pending::MoveCleanup { code } => Step::Reply(Response::with_code("move", code)),
        Pending::Run => Step::Reply(after_run(outcome)),
        Pending::RunAsync => Step::Reply(Response::new("run_async")),
    }
}

} // verus!
