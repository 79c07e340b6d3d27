//! The dispatcher: from a request to the first step of the command that it names.

use vstd::prelude::*;
use crate::commands::{
    create_directory, env, env_reply, error_response, get_config, get_config_path,
    get_process_id, config_search, list_dir_step, mkdir_step, move_file, move_step, ppid_reply,
    read, read_directory, read_step, run, run_async, run_async_step, run_step, temp, temp_step,
    unhandled, version, version_reply, write_rc, write_rc_step, write_step,
};
use crate::host::{Host, HostView};
use crate::message::{
    flag_or_false, get_flag, get_text, get_text_or_empty, members, text_member, text_or_empty,
    FieldView, Message, MessageView,
};
use crate::path::config_places;
use crate::session::{Step, StepView};
use crate::text::same_text;

verus! {

/// The first step of the command called `name`, with its parameters read from the
/// members of the request. A parameter that is missing, or of another type than the
/// command expects, counts as the empty text, as `false`, or, for the input of
/// `run`, as absent; only `env` cannot do without its parameter. A name that is no
/// command is not handled.
pub open spec fn routed(
    name: Seq<char>,
    fields: Seq<(Seq<char>, FieldView)>,
    host: HostView,
) -> StepView {
    if name == "env"@ {
        match text_member(fields, "var"@) {
            Some(variable) => StepView::Reply(env_reply(variable, host)),
            None => StepView::Reply(unhandled()),
        }
    } else if name == "version"@ {
        StepView::Reply(version_reply())
    } else if name == "getconfig"@ {
        config_search(false, config_places(host))
    } else if name == "getconfigpath"@ {
        config_search(true, config_places(host))
    } else if name == "read"@ {
        read_step(text_or_empty(fields, "file"@), host)
    } else if name == "write"@ {
        write_step(text_or_empty(fields, "file"@), text_or_empty(fields, "content"@))
    } else if name == "writerc"@ {
        write_rc_step(
            text_or_empty(fields, "file"@),
            text_or_empty(fields, "content"@),
            flag_or_false(fields, "force"@),
            host,
        )
    } else if name == "move"@ {
        move_step(
            text_or_empty(fields, "from"@),
            text_or_empty(fields, "to"@),
            flag_or_false(fields, "overwrite"@),
            flag_or_false(fields, "cleanup"@),
            host,
        )
    } else if name == "mkdir"@ {
        mkdir_step(text_or_empty(fields, "dir"@), host)
    } else if name == "list_dir"@ {
        list_dir_step(text_or_empty(fields, "path"@), host)
    } else if name == "temp"@ {
        temp_step(text_or_empty(fields, "prefix"@), text_or_empty(fields, "content"@))
    } else if name == "run"@ {
        run_step(text_or_empty(fields, "command"@), text_member(fields, "content"@))
    } else if name == "run_async"@ {
        run_async_step(text_or_empty(fields, "command"@))
    } else if name == "ppid"@ {
        StepView::Reply(ppid_reply(host))
    } else {
        StepView::Reply(unhandled())
    }
}

/// The first step on a request: a request that is no object, or whose `cmd` is
/// missing or no string, is not handled; any other is routed by its `cmd`.
pub open spec fn first_step(message: MessageView, host: HostView) -> StepView {
    match message {
        MessageView::Other => StepView::Reply(unhandled()),
        MessageView::Object(fields) => match text_member(fields, "cmd"@) {
            Some(name) => routed(name, fields, host),
            None => StepView::Reply(unhandled()),
        },
    }
}

/// Takes a request up: answers it at once, or names the first effect that its
/// command needs.
pub fn handle_command(message: &Message, host: &Host) -> (step: Step)
    ensures
        step@ == first_step(message@, host@),
{
    let fields = match message {
        Message::Object(fields) => fields,
        Message::Other => {
            return Step::Reply(error_response());
        },
    };
    let command = match get_text(fields, "cmd") {
        Some(command) => command,
        None => {
            return Step::Reply(error_response());
        },
    };
    let name = command.as_str();
    if same_text(name, "env") {
        match get_text(fields, "var") {
            Some(variable) => Step::Reply(env(variable.as_str(), host)),
            None => Step::Reply(error_response()),
        }
    } else if same_text(name, "version") {
        Step::Reply(version())
    } else if same_text(name, "getconfig") {
        get_config(host)
    } else if same_text(name, "getconfigpath") {
        get_config_path(host)
    } else if same_text(name, "read") {
        let file = get_text_or_empty(fields, "file");
        read(file.as_str(), host)
    } else if same_text(name, "write") {
        let file = get_text_or_empty(fields, "file");
        let content = get_text_or_empty(fields, "content");
        crate::commands::write(file.as_str(), content.as_str())
    } else if same_text(name, "writerc") {
        let file = get_text_or_empty(fields, "file");
        let force = get_flag(fields, "force");
        let content = get_text_or_empty(fields, "content");
        write_rc(file.as_str(), content.as_str(), force, host)
    } else if same_text(name, "move") {
        let from = get_text_or_empty(fields, "from");
        let to = get_text_or_empty(fields, "to");
        let overwrite = get_flag(fields, "overwrite");
        let cleanup = get_flag(fields, "cleanup");
        move_file(from.as_str(), to.as_str(), overwrite, cleanup, host)
    } else if same_text(name, "mkdir") {
        let directory = get_text_or_empty(fields, "dir");
        create_directory(directory.as_str(), host)
    } else if same_text(name, "list_dir") {
        let path = get_text_or_empty(fields, "path");
        read_directory(path.as_str(), host)
    } else if same_text(name, "temp") {
        let prefix = get_text_or_empty(fields, "prefix");
        let content = get_text_or_empty(fields, "content");
        temp(prefix.as_str(), content.as_str())
    } else if same_text(name, "run") {
        let command = get_text_or_empty(fields, "command");
        let input = get_text(fields, "content");
        run(command.as_str(), input)
    } else if same_text(name, "run_async") {
        let command = get_text_or_empty(fields, "command");
        run_async(command.as_str())
    } else if same_text(name, "ppid") {
        Step::Reply(get_process_id(host))
    } else {
        Step::Reply(error_response())
    }
}

} // verus!
