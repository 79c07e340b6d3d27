//! What holds of the library as a whole: properties that relate several of its
//! functions, each stated over the models that the functions' own contracts use.

use vstd::prelude::*;
use crate::commands::{
    affirmed, code_for, config_search, env_reply, list_dir_step, mkdir_step, move_step,
    next_step, ppid_reply, read_step, run_async_step, run_step, temp_step, unhandled,
    version_reply, write_rc_step, write_step, DECLINED, FAILURE, SUCCESS,
};
use crate::content::{base64_decoded, data_url, marker, payload_text, scheme, stored, DataUrl};
use crate::dispatch::{first_step, routed};
use crate::frame::{
    accepted, framed, header_of, lemma_length_round_trip, ByteOrder, Expect, ReceivedView,
};
use crate::host::HostView;
use crate::message::{
    code_of, flag_or_false, reply, reply_with_code, text_member, text_or_empty, FieldView,
    ItemView, MessageView,
};
use crate::path::{
    config_places, expanded, expanded_of, kept_in_names, lemma_no_dollar_no_change,
    lemma_sanitized_is_clean, lemma_token_fits, letters, marked_names, resolved, sanitized,
    token_at, value_of,
};
use crate::process::{space, words};
use crate::session::{effects_left, EffectView, OutcomeView, PendingView, StepView};
use crate::text::{
    first_where, lemma_first_where, lemma_first_where_is, lowercase_of, only, whitespace,
};

verus! {

/// A text without a dollar sign holds no reference: filling in leaves it as it is.
pub proof fn law_no_dollar_no_change(text: Seq<char>, variables: Seq<(Seq<char>, Seq<char>)>)
    requires
        forall|i: int| 0 <= i < text.len() ==> text[i] != '$',
    ensures
        expanded(text, variables) == text,
{
    lemma_no_dollar_no_change(marked_names(text), variables);
    assert(letters(marked_names(text)) == text);
}

/// Where no variable has a value, every reference stays as it is written, whatever
/// is marked as a name character.
pub proof fn law_unresolved_stay_verbatim_in(
    text: Seq<(char, bool)>,
    variables: Seq<(Seq<char>, Seq<char>)>,
)
    requires
        forall|name: Seq<char>| value_of(variables, name) is None,
    ensures
        expanded_of(text, variables) == letters(text),
    decreases text.len(),
{
    if text.len() > 0 {
        match token_at(text) {
            Some(token) => {
                lemma_token_fits(text);
                assert(value_of(variables, token.name) is None);
                law_unresolved_stay_verbatim_in(text.skip(token.length), variables);
                assert(letters(text.take(token.length)) + letters(text.skip(token.length))
                    == letters(text));
            },
            None => {
                law_unresolved_stay_verbatim_in(text.skip(1), variables);
                assert(seq![text[0].0] + letters(text.skip(1)) == letters(text));
            },
        }
    } else {
        assert(letters(text) == Seq::<char>::empty());
    }
}

/// Where no variable has a value, every reference stays as it is written.
pub proof fn law_unresolved_stay_verbatim(
    text: Seq<char>,
    variables: Seq<(Seq<char>, Seq<char>)>,
)
    requires
        forall|name: Seq<char>| value_of(variables, name) is None,
    ensures
        expanded(text, variables) == text,
{
    law_unresolved_stay_verbatim_in(marked_names(text), variables);
    assert(letters(marked_names(text)) == text);
}

/// A path without a dollar sign and without a leading `~` is used as it is given.
pub proof fn law_plain_paths_resolve_to_themselves(path: Seq<char>, host: HostView)
    requires
        forall|i: int| 0 <= i < path.len() ==> path[i] != '$',
        path.len() > 0 ==> path[0] != '~',
    ensures
        resolved(path, host) == path,
{
    law_no_dollar_no_change(path, host.variables);
}

/// What `write` stores, `read` gives back: for a path that is used as it is given
/// and a content that is no data URL, `write` asks to store exactly the content at
/// the path, `read` asks for exactly that path, and, handed the content, replies
/// with it and the code of success.
pub proof fn law_write_then_read(path: Seq<char>, content: Seq<char>, host: HostView)
    requires
        resolved(path, host) == path,
        data_url(content) is None,
    ensures
        write_step(path, content) == StepView::Perform(
            EffectView::WriteFile { path, content },
            PendingView::Write,
        ),
        next_step(host, PendingView::Write, OutcomeView::Done) == StepView::Reply(
            reply_with_code("write"@, SUCCESS),
        ),
        read_step(path, host) == StepView::Perform(
            EffectView::ReadFile { path },
            PendingView::Read,
        ),
        next_step(host, PendingView::Read, OutcomeView::Text(content)) == StepView::Reply(
            reply_with_code("read"@, SUCCESS).push(("content"@, ItemView::Text(content))),
        ),
{
}

/// The head of a data URL for plain text in base64.
pub open spec fn plain_base64_head() -> Seq<char> {
    "data:text/plain;base64,"@
}

/// A content made of `data:text/plain;base64,` and a payload is a data URL with that
/// payload, marked as base64: what `write` stores for it is the text that the
/// payload decodes to, which depends on the payload alone, and without such a text
/// `write` fails with no file written.
pub proof fn law_base64_data_url(path: Seq<char>, payload: Seq<char>)
    ensures
        data_url(plain_base64_head() + payload) == Some(DataUrl { base64: true, payload }),
        stored(plain_base64_head() + payload) == payload_text(base64_decoded(payload)),
        write_step(path, plain_base64_head() + payload) == (match payload_text(
            base64_decoded(payload),
        ) {
            Some(text) => StepView::Perform(
                EffectView::WriteFile { path, content: text },
                PendingView::Write,
            ),
            None => StepView::Reply(reply_with_code("write"@, FAILURE)),
        }),
{
    reveal_strlit("data:text/plain;base64,");
    let head = plain_base64_head();
    let content = head + payload;
    assert(head.len() == 23);
    assert forall|i: int| 0 <= i < 22 implies !only(',')(#[trigger] content[i]) by {
        assert(content[i] == head[i]);
    }
    assert(content[22] == head[22]);
    lemma_first_where_is(content, only(','), 22);
    lemma_first_where(content, only('\n'));
    let line_feed = first_where(content, only('\n'));
    if line_feed <= 22 {
        assert(content[line_feed] == head[line_feed]);
        assert(only('\n')(content[line_feed]));
    }
    assert(content.take(5) == scheme()) by {
        assert forall|i: int| 0 <= i < 5 implies content.take(5)[i] == scheme()[i] by {
            assert(content[i] == head[i]);
        }
    }
    assert(content.subrange(15, 22) == marker()) by {
        assert forall|i: int| 0 <= i < 7 implies content.subrange(15, 22)[i] == marker()[i] by {
            assert(content[15 + i] == head[15 + i]);
        }
    }
    assert(content.skip(23) == payload);
}

/// `writerc` leaves a file that exists alone unless it is told to overwrite it:
/// without `force` it first asks whether the file exists, and on the answer yes
/// replies with the code of a declined request, with no file written. With `force`
/// it writes at once, and a write that succeeds gives the code of success.
pub proof fn law_write_rc_guards_existing_files(
    file: Seq<char>,
    content: Seq<char>,
    host: HostView,
)
    ensures
        write_rc_step(file, content, false, host) == StepView::Perform(
            EffectView::Exists { path: resolved(file, host) },
            PendingView::RcProbe { path: resolved(file, host), content },
        ),
        next_step(
            host,
            PendingView::RcProbe { path: resolved(file, host), content },
            OutcomeView::Answer(true),
        ) == StepView::Reply(reply_with_code("writerc"@, DECLINED)),
        write_rc_step(file, content, true, host) == StepView::Perform(
            EffectView::WriteFile { path: resolved(file, host), content },
            PendingView::RcWrite,
        ),
        next_step(host, PendingView::RcWrite, OutcomeView::Done) == StepView::Reply(
            reply_with_code("writerc"@, SUCCESS),
        ),
{
}

/// `mkdir` asks for the same effect however often it is asked, and reports success
/// exactly when the effect succeeded.
pub proof fn law_mkdir_reports_the_effect(
    directory: Seq<char>,
    host: HostView,
    outcome: OutcomeView,
)
    ensures
        mkdir_step(directory, host) == StepView::Perform(
            EffectView::CreateDirectories { path: resolved(directory, host) },
            PendingView::Mkdir,
        ),
        next_step(host, PendingView::Mkdir, outcome) == StepView::Reply(
            reply_with_code("mkdir"@, code_for(outcome)),
        ),
        code_for(outcome) == SUCCESS <==> outcome is Done,
{
}

/// Whether a step asks to rename or to remove a file.
pub open spec fn touches_files(step: StepView) -> bool {
    step matches StepView::Perform(effect, _) && (effect is Rename || effect is RemoveFile)
}

/// A move that may not overwrite, onto a destination that exists and holds no file
/// of the same name, is declined with nothing renamed and nothing removed, as long
/// as it was not asked to clean up: it asks whether the destination exists, then
/// whether it is a directory, then, if it is one and the source has a name to
/// keep, whether that name exists inside it, and replies with the code of a
/// declined request.
pub proof fn law_move_declines_to_overwrite(
    from: Seq<char>,
    to: Seq<char>,
    host: HostView,
    is_directory: OutcomeView,
    exists_inside: OutcomeView,
)
    requires
        !affirmed(exists_inside),
    ensures
        ({
            &&& move_step(from, to, false, false, host) matches StepView::Perform(
                EffectView::Exists { path },
                probe,
            )
            &&& path == resolved(to, host)
            &&& next_step(host, probe, OutcomeView::Answer(true)) matches StepView::Perform(
                EffectView::IsDirectory { path: asked },
                kind,
            )
            &&& asked == resolved(to, host)
            &&& !touches_files(next_step(host, kind, is_directory))
            &&& match next_step(host, kind, is_directory) {
                StepView::Reply(response) => response == reply_with_code("move"@, DECLINED),
                StepView::Perform(_, pending) => next_step(host, pending, exists_inside)
                    == StepView::Reply(reply_with_code("move"@, DECLINED)),
            }
        }),
{
}

/// A move that may overwrite, onto a destination that exists and is no directory,
/// renames the source onto the destination itself, and a renaming that succeeds
/// gives the code of success.
pub proof fn law_move_overwrites_a_file(from: Seq<char>, to: Seq<char>, host: HostView)
    ensures
        ({
            &&& move_step(from, to, true, false, host) matches StepView::Perform(
                EffectView::Exists { path },
                probe,
            )
            &&& path == resolved(to, host)
            &&& next_step(host, probe, OutcomeView::Answer(true)) matches StepView::Perform(
                EffectView::IsDirectory { path: asked },
                kind,
            )
            &&& asked == resolved(to, host)
            &&& next_step(host, kind, OutcomeView::Answer(false)) == StepView::Perform(
                EffectView::Rename { from: resolved(from, host), to: resolved(to, host) },
                PendingView::MoveRename { from: resolved(from, host), cleanup: false },
            )
        }),
        next_step(
            host,
            PendingView::MoveRename { from: resolved(from, host), cleanup: false },
            OutcomeView::Done,
        ) == StepView::Reply(reply_with_code("move"@, SUCCESS)),
{
}

/// A move onto a destination that does not exist renames the source onto it,
/// whether or not it may overwrite.
pub proof fn law_move_onto_a_free_destination(
    from: Seq<char>,
    to: Seq<char>,
    overwrite: bool,
    host: HostView,
)
    ensures
        ({
            &&& move_step(from, to, overwrite, false, host) matches StepView::Perform(
                EffectView::Exists { path },
                probe,
            )
            &&& path == resolved(to, host)
            &&& next_step(host, probe, OutcomeView::Answer(false)) == StepView::Perform(
                EffectView::Rename { from: resolved(from, host), to: resolved(to, host) },
                PendingView::MoveRename { from: resolved(from, host), cleanup: false },
            )
        }),
{
}

/// A command line of one word starts that word as a program without arguments.
pub proof fn law_one_word_is_the_program(command: Seq<char>)
    requires
        command.len() > 0,
        forall|i: int| 0 <= i < command.len() ==> !whitespace(#[trigger] command[i]),
    ensures
        words(command) == seq![command],
        run_async_step(command) == StepView::Perform(
            EffectView::Spawn { program: command, arguments: Seq::empty() },
            PendingView::RunAsync,
        ),
{
    lemma_first_where_is(command, space(), command.len() as int);
    assert(command.take(command.len() as int) == command);
    assert(words(command.skip(command.len() as int)) == Seq::<Seq<char>>::empty());
    assert(words(command) == seq![command]);
    assert(words(command).skip(1) == Seq::<Seq<char>>::empty());
}

/// A command line of white space alone has no words, and starts nothing.
pub proof fn law_blank_commands_start_nothing(command: Seq<char>)
    requires
        forall|i: int| 0 <= i < command.len() ==> whitespace(#[trigger] command[i]),
    ensures
        words(command) == Seq::<Seq<char>>::empty(),
        run_async_step(command) == StepView::Reply(reply("run_async"@)),
    decreases command.len(),
{
    if command.len() > 0 {
        let rest = command.skip(1);
        assert forall|i: int| 0 <= i < rest.len() implies whitespace(#[trigger] rest[i]) by {
            assert(rest[i] == command[i + 1]);
        }
        law_blank_commands_start_nothing(rest);
    }
}

/// The temporary file of `temp` gets a name that starts with `tmp_`, goes on with
/// the prefix made safe, which holds letters, numbers and dots only, all of them
/// taken from the lowercased prefix, and an underscore, and ends in `.txt`; the file
/// is created with exactly the content of the request, and the reply gives the path
/// that the file was created at.
pub proof fn law_temp_names_are_safe(
    prefix: Seq<char>,
    content: Seq<char>,
    host: HostView,
    path: Seq<char>,
)
    ensures
        temp_step(prefix, content) == StepView::Perform(
            EffectView::CreateTemp {
                prefix: "tmp_"@ + sanitized(prefix) + "_"@,
                suffix: ".txt"@,
                content,
            },
            PendingView::Temp,
        ),
        forall|i: int|
            0 <= i < sanitized(prefix).len() ==> kept_in_names(#[trigger] sanitized(prefix)[i]),
        forall|i: int|
            0 <= i < sanitized(prefix).len() ==> lowercase_of(prefix).contains(
                #[trigger] sanitized(prefix)[i],
            ),
        next_step(host, PendingView::Temp, OutcomeView::Text(path)) == StepView::Reply(
            reply_with_code("temp"@, SUCCESS).push(("content"@, ItemView::Text(path))),
        ),
{
    lemma_sanitized_is_clean(prefix);
}

/// Every request ends: a step that follows an outcome is the reply, or an effect
/// after which fewer effects are left than before.
pub proof fn law_requests_end(host: HostView, pending: PendingView, outcome: OutcomeView)
    ensures
        next_step(host, pending, outcome) matches StepView::Perform(_, next) ==> effects_left(next)
            < effects_left(pending),
{
}

/// A frame that ends before its length is reached closes the session, and so does
/// an input that ends where a frame should begin.
pub proof fn law_short_frames_close(expect: Expect, bytes: Seq<u8>, order: ByteOrder)
    requires
        bytes.len() < expect.size(),
    ensures
        accepted(expect, Some(bytes), order) == ReceivedView::Closed,
        accepted(expect, None, order) == ReceivedView::Closed,
{
}

/// What is framed is received: the first four bytes of the frame of a payload that
/// is not empty make the host wait for as many bytes as the payload has, and the
/// rest of the frame is delivered as the payload. The frame of an empty payload
/// makes the host wait for the next frame.
pub proof fn law_framed_is_received(payload: Seq<u8>, order: ByteOrder)
    requires
        payload.len() <= u32::MAX,
    ensures
        framed(payload, order) matches Some(frame) && frame.len() == 4 + payload.len() && accepted(
            Expect::Header,
            Some(frame.take(4)),
            order,
        ) == (if payload.len() == 0 {
            ReceivedView::Await(Expect::Header)
        } else {
            ReceivedView::Await(Expect::Payload(payload.len() as u32))
        }) && (payload.len() > 0 ==> accepted(
            Expect::Payload(payload.len() as u32),
            Some(frame.skip(4)),
            order,
        ) == ReceivedView::Deliver(payload)),
{
    let length = payload.len() as u32;
    lemma_length_round_trip(length, order);
    let frame = header_of(length, order) + payload;
    assert(frame.take(4) == header_of(length, order));
    assert(frame.skip(4) == payload);
}

/// No two commands have the same name.
proof fn lemma_names_differ()
    ensures
        "env"@ != "version"@,
        "env"@ != "getconfig"@,
        "env"@ != "getconfigpath"@,
        "env"@ != "read"@,
        "env"@ != "write"@,
        "env"@ != "writerc"@,
        "env"@ != "move"@,
        "env"@ != "mkdir"@,
        "env"@ != "list_dir"@,
        "env"@ != "temp"@,
        "env"@ != "run"@,
        "env"@ != "run_async"@,
        "env"@ != "ppid"@,
        "version"@ != "getconfig"@,
        "version"@ != "getconfigpath"@,
        "version"@ != "read"@,
        "version"@ != "write"@,
        "version"@ != "writerc"@,
        "version"@ != "move"@,
        "version"@ != "mkdir"@,
        "version"@ != "list_dir"@,
        "version"@ != "temp"@,
        "version"@ != "run"@,
        "version"@ != "run_async"@,
        "version"@ != "ppid"@,
        "getconfig"@ != "getconfigpath"@,
        "getconfig"@ != "read"@,
        "getconfig"@ != "write"@,
        "getconfig"@ != "writerc"@,
        "getconfig"@ != "move"@,
        "getconfig"@ != "mkdir"@,
        "getconfig"@ != "list_dir"@,
        "getconfig"@ != "temp"@,
        "getconfig"@ != "run"@,
        "getconfig"@ != "run_async"@,
        "getconfig"@ != "ppid"@,
        "getconfigpath"@ != "read"@,
        "getconfigpath"@ != "write"@,
        "getconfigpath"@ != "writerc"@,
        "getconfigpath"@ != "move"@,
        "getconfigpath"@ != "mkdir"@,
        "getconfigpath"@ != "list_dir"@,
        "getconfigpath"@ != "temp"@,
        "getconfigpath"@ != "run"@,
        "getconfigpath"@ != "run_async"@,
        "getconfigpath"@ != "ppid"@,
        "read"@ != "write"@,
        "read"@ != "writerc"@,
        "read"@ != "move"@,
        "read"@ != "mkdir"@,
        "read"@ != "list_dir"@,
        "read"@ != "temp"@,
        "read"@ != "run"@,
        "read"@ != "run_async"@,
        "read"@ != "ppid"@,
        "write"@ != "writerc"@,
        "write"@ != "move"@,
        "write"@ != "mkdir"@,
        "write"@ != "list_dir"@,
        "write"@ != "temp"@,
        "write"@ != "run"@,
        "write"@ != "run_async"@,
        "write"@ != "ppid"@,
        "writerc"@ != "move"@,
        "writerc"@ != "mkdir"@,
        "writerc"@ != "list_dir"@,
        "writerc"@ != "temp"@,
        "writerc"@ != "run"@,
        "writerc"@ != "run_async"@,
        "writerc"@ != "ppid"@,
        "move"@ != "mkdir"@,
        "move"@ != "list_dir"@,
        "move"@ != "temp"@,
        "move"@ != "run"@,
        "move"@ != "run_async"@,
        "move"@ != "ppid"@,
        "mkdir"@ != "list_dir"@,
        "mkdir"@ != "temp"@,
        "mkdir"@ != "run"@,
        "mkdir"@ != "run_async"@,
        "mkdir"@ != "ppid"@,
        "list_dir"@ != "temp"@,
        "list_dir"@ != "run"@,
        "list_dir"@ != "run_async"@,
        "list_dir"@ != "ppid"@,
        "temp"@ != "run"@,
        "temp"@ != "run_async"@,
        "temp"@ != "ppid"@,
        "run"@ != "run_async"@,
        "run"@ != "ppid"@,
        "run_async"@ != "ppid"@,
{
    reveal_strlit("env");
    reveal_strlit("version");
    reveal_strlit("getconfig");
    reveal_strlit("getconfigpath");
    reveal_strlit("read");
    reveal_strlit("write");
    reveal_strlit("writerc");
    reveal_strlit("move");
    reveal_strlit("mkdir");
    reveal_strlit("list_dir");
    reveal_strlit("temp");
    reveal_strlit("run");
    reveal_strlit("run_async");
    reveal_strlit("ppid");
    assert("env"@.len() == 3);
    assert("version"@.len() == 7);
    assert("getconfig"@.len() == 9);
    assert("getconfigpath"@.len() == 13);
    assert("read"@.len() == 4);
    assert("write"@.len() == 5);
    assert("writerc"@.len() == 7);
    assert("move"@.len() == 4);
    assert("mkdir"@.len() == 5);
    assert("list_dir"@.len() == 8);
    assert("temp"@.len() == 4);
    assert("run"@.len() == 3);
    assert("run_async"@.len() == 9);
    assert("ppid"@.len() == 4);
    assert("env"@[0] != "run"@[0]);
    assert("version"@[0] != "writerc"@[0]);
    assert("getconfig"@[0] != "run_async"@[0]);
    assert("read"@[0] != "move"@[0]);
    assert("read"@[0] != "temp"@[0]);
    assert("read"@[0] != "ppid"@[0]);
    assert("write"@[0] != "mkdir"@[0]);
    assert("move"@[0] != "temp"@[0]);
    assert("move"@[0] != "ppid"@[0]);
    assert("temp"@[0] != "ppid"@[0]);
}

/// Every name of a command leads to its command, whatever else the request holds:
/// no name hides another.
pub proof fn law_names_route(fields: Seq<(Seq<char>, FieldView)>, host: HostView)
    ensures
        routed("env"@, fields, host) == (match text_member(fields, "var"@) {
            Some(variable) => StepView::Reply(env_reply(variable, host)),
            None => StepView::Reply(unhandled()),
        }),
        routed("version"@, fields, host) == StepView::Reply(version_reply()),
        routed("getconfig"@, fields, host) == config_search(false, config_places(host)),
        routed("getconfigpath"@, fields, host) == config_search(true, config_places(host)),
        routed("read"@, fields, host) == read_step(text_or_empty(fields, "file"@), host),
        routed("write"@, fields, host) == write_step(
            text_or_empty(fields, "file"@),
            text_or_empty(fields, "content"@),
        ),
        routed("writerc"@, fields, host) == write_rc_step(
            text_or_empty(fields, "file"@),
            text_or_empty(fields, "content"@),
            flag_or_false(fields, "force"@),
            host,
        ),
        routed("move"@, fields, host) == move_step(
            text_or_empty(fields, "from"@),
            text_or_empty(fields, "to"@),
            flag_or_false(fields, "overwrite"@),
            flag_or_false(fields, "cleanup"@),
            host,
        ),
        routed("mkdir"@, fields, host) == mkdir_step(text_or_empty(fields, "dir"@), host),
        routed("list_dir"@, fields, host) == list_dir_step(text_or_empty(fields, "path"@), host),
        routed("temp"@, fields, host) == temp_step(
            text_or_empty(fields, "prefix"@),
            text_or_empty(fields, "content"@),
        ),
        routed("run"@, fields, host) == run_step(
            text_or_empty(fields, "command"@),
            text_member(fields, "content"@),
        ),
        routed("run_async"@, fields, host) == run_async_step(text_or_empty(fields, "command"@)),
        routed("ppid"@, fields, host) == StepView::Reply(ppid_reply(host)),
{
    lemma_names_differ();
}

/// A request is answered whatever it holds: one that is no object, or that has no
/// `cmd`, or whose `cmd` is no string, gets the reply to a request that is not
/// handled, and so does `env` without a variable that is a string.
pub proof fn law_malformed_requests_are_answered(
    fields: Seq<(Seq<char>, FieldView)>,
    host: HostView,
)
    ensures
        first_step(MessageView::Other, host) == StepView::Reply(unhandled()),
        !(crate::message::member(fields, "cmd"@) matches Some(FieldView::Text(_))) ==> first_step(
            MessageView::Object(fields),
            host,
        ) == StepView::Reply(unhandled()),
        text_member(fields, "var"@) is None ==> routed("env"@, fields, host) == StepView::Reply(
            unhandled(),
        ),
        code_of(unhandled()) == Some(DECLINED),
{
    reveal_strlit("cmd");
    reveal_strlit("code");
    reveal_strlit("error");
    let response = unhandled();
    let is_code = |member: (Seq<char>, ItemView)| member.0 == "code"@;
    assert(response[0].0 == "cmd"@);
    assert("cmd"@[1] != "code"@[1]);
    assert(!is_code(response[0]));
    assert(is_code(response[1]));
    lemma_first_where_is(response, is_code, 1);
}

} // verus!
