use tridactyl_native::commands::{
    error_response, get_config, get_config_path, get_process_id, resume, version,
};
use tridactyl_native::dispatch::handle_command;
use tridactyl_native::host::Host;
use tridactyl_native::message::{decode_message, render, Field, Message, Response};
use tridactyl_native::session::{Effect, Outcome, Pending, Step};

fn host() -> Host {
    Host {
        variables: vec![
            ("PATH".to_string(), "/usr/bin:/bin".to_string()),
            ("DIR".to_string(), "/srv/data".to_string()),
        ],
        home: Some("/home/ada".to_string()),
        config_dir: Some("/home/ada/.config".to_string()),
        expands_variables: true,
        separator: '/',
        process_id: 4242,
    }
}

fn request(text: &str) -> Message {
    decode_message(text.as_bytes().to_vec()).unwrap()
}

fn first(text: &str) -> Step {
    handle_command(&request(text), &host())
}

fn answer(step: Step) -> String {
    match step {
        Step::Reply(response) => render(&response),
        Step::Perform(effect, pending) => panic!("not answered: {:?} {:?}", effect, pending),
    }
}

fn after(step: Step, expected: Effect, outcome: Outcome) -> Step {
    match step {
        Step::Perform(effect, pending) => {
            assert_eq!(effect, expected);
            resume(&host(), pending, outcome)
        }
        Step::Reply(response) => panic!("answered: {}", render(&response)),
    }
}

const UNHANDLED: &str = "{\"cmd\":\"error\",\"code\":1,\"error\":\"Unhandled message\"}";

#[test]
fn the_error_reply_has_its_fixed_shape() {
    assert_eq!(render(&error_response()), UNHANDLED);
}

#[test]
fn requests_that_are_no_objects_are_not_handled() {
    for text in ["null", "[]", "\"version\"", "42", "true"] {
        assert_eq!(answer(first(text)), UNHANDLED, "{:?}", text);
    }
}

#[test]
fn requests_without_a_command_are_not_handled() {
    for text in ["{}", "{\"cmd\":1}", "{\"cmd\":null}", "{\"cmd\":[\"version\"]}", "{\"CMD\":\"version\"}"] {
        assert_eq!(answer(first(text)), UNHANDLED, "{:?}", text);
    }
}

#[test]
fn unknown_commands_are_not_handled() {
    for text in ["{\"cmd\":\"\"}", "{\"cmd\":\"Version\"}", "{\"cmd\":\"version \"}", "{\"cmd\":\"eval\"}"] {
        assert_eq!(answer(first(text)), UNHANDLED, "{:?}", text);
    }
}

#[test]
fn members_that_no_command_reads_are_ignored() {
    assert_eq!(
        answer(first("{\"cmd\":\"version\",\"file\":1,\"zzz\":{\"a\":[1]}}")),
        "{\"cmd\":\"version\",\"code\":0,\"version\":\"0.5.0\"}"
    );
}

#[test]
fn version_reports_the_version() {
    assert_eq!(render(&version()), "{\"cmd\":\"version\",\"code\":0,\"version\":\"0.5.0\"}");
    assert_eq!(answer(first("{\"cmd\":\"version\"}")), render(&version()));
}

#[test]
fn env_reports_a_variable_that_is_set() {
    assert_eq!(
        answer(first("{\"cmd\":\"env\",\"var\":\"PATH\"}")),
        "{\"cmd\":\"env\",\"content\":\"/usr/bin:/bin\"}"
    );
    assert_eq!(render(&tridactyl_native::commands::env("DIR", &host())), "{\"cmd\":\"env\",\"content\":\"/srv/data\"}");
}

#[test]
fn env_has_no_content_for_a_variable_that_is_not_set() {
    assert_eq!(answer(first("{\"cmd\":\"env\",\"var\":\"NOT_SET\"}")), "{\"cmd\":\"env\"}");
    assert_eq!(answer(first("{\"cmd\":\"env\",\"var\":\"path\"}")), "{\"cmd\":\"env\"}");
    assert_eq!(answer(first("{\"cmd\":\"env\",\"var\":\"\"}")), "{\"cmd\":\"env\"}");
}

#[test]
fn env_needs_its_variable() {
    assert_eq!(answer(first("{\"cmd\":\"env\"}")), UNHANDLED);
    assert_eq!(answer(first("{\"cmd\":\"env\",\"var\":5}")), UNHANDLED);
    assert_eq!(answer(first("{\"cmd\":\"env\",\"var\":null}")), UNHANDLED);
}

#[test]
fn ppid_reports_the_process() {
    assert_eq!(answer(first("{\"cmd\":\"ppid\"}")), "{\"cmd\":\"ppid\",\"content\":4242}");
    assert_eq!(render(&get_process_id(&host())), "{\"cmd\":\"ppid\",\"content\":4242}");
}

#[test]
fn read_resolves_its_path() {
    let step = first("{\"cmd\":\"read\",\"file\":\"~/$DIR/x\"}");
    let step = after(
        step,
        Effect::ReadFile { path: "/home/ada//srv/data/x".to_string() },
        Outcome::Text("hello\n".to_string()),
    );
    assert_eq!(answer(step), "{\"cmd\":\"read\",\"code\":0,\"content\":\"hello\\n\"}");
}

#[test]
fn read_that_fails_has_an_empty_content() {
    let step = first("{\"cmd\":\"read\",\"file\":\"/nowhere\"}");
    let step = after(step, Effect::ReadFile { path: "/nowhere".to_string() }, Outcome::Failed);
    assert_eq!(answer(step), "{\"cmd\":\"read\",\"code\":2,\"content\":\"\"}");
}

#[test]
fn read_without_a_file_reads_the_empty_path() {
    let step = first("{\"cmd\":\"read\",\"file\":false}");
    assert_eq!(step, Step::Perform(Effect::ReadFile { path: "".to_string() }, Pending::Read));
}

#[test]
fn write_uses_the_path_as_it_is_given() {
    let step = first("{\"cmd\":\"write\",\"file\":\"~/$DIR\",\"content\":\"text\"}");
    let step = after(
        step,
        Effect::WriteFile { path: "~/$DIR".to_string(), content: "text".to_string() },
        Outcome::Done,
    );
    assert_eq!(answer(step), "{\"cmd\":\"write\",\"code\":0}");
}

#[test]
fn write_that_fails_says_so() {
    let step = first("{\"cmd\":\"write\",\"file\":\"/x\",\"content\":\"text\"}");
    let step = after(
        step,
        Effect::WriteFile { path: "/x".to_string(), content: "text".to_string() },
        Outcome::Failed,
    );
    assert_eq!(answer(step), "{\"cmd\":\"write\",\"code\":2}");
}

#[test]
fn write_decodes_a_base64_data_url() {
    let step = first("{\"cmd\":\"write\",\"file\":\"/x\",\"content\":\"data:text/plain;base64,aGVsbG8=\"}");
    assert_eq!(
        step,
        Step::Perform(
            Effect::WriteFile { path: "/x".to_string(), content: "hello".to_string() },
            Pending::Write
        )
    );
}

#[test]
fn write_of_a_payload_that_does_not_decode_fails_at_once() {
    let step = first("{\"cmd\":\"write\",\"file\":\"/x\",\"content\":\"data:text/plain;base64,%%%\"}");
    assert_eq!(answer(step), "{\"cmd\":\"write\",\"code\":2}");
}

#[test]
fn what_write_stores_read_gives_back() {
    let content = "line one\nline \"two\"\n";
    let mut fields = vec![
        ("cmd".to_string(), Field::Text("write".to_string())),
        ("file".to_string(), Field::Text("/tmp/file".to_string())),
        ("content".to_string(), Field::Text(content.to_string())),
    ];
    let stored = match handle_command(&Message::Object(fields.clone()), &host()) {
        Step::Perform(Effect::WriteFile { path, content }, Pending::Write) => (path, content),
        other => panic!("{:?}", other),
    };
    fields[0].1 = Field::Text("read".to_string());
    let step = handle_command(&Message::Object(fields), &host());
    let step = after(step, Effect::ReadFile { path: stored.0 }, Outcome::Text(stored.1));
    let mut expected = Response::with_code("read", 0);
    expected.put("content", tridactyl_native::message::Item::Text(content.to_string()));
    assert_eq!(step, Step::Reply(expected));
}

#[test]
fn writerc_leaves_a_file_that_exists_alone() {
    let step = first("{\"cmd\":\"writerc\",\"file\":\"~/.rc\",\"content\":\"set x\"}");
    let step = after(step, Effect::Exists { path: "/home/ada/.rc".to_string() }, Outcome::Answer(true));
    assert_eq!(answer(step), "{\"cmd\":\"writerc\",\"code\":1}");
}

#[test]
fn writerc_writes_a_file_that_is_missing() {
    let step = first("{\"cmd\":\"writerc\",\"file\":\"~/.rc\",\"content\":\"set x\",\"force\":false}");
    let step = after(step, Effect::Exists { path: "/home/ada/.rc".to_string() }, Outcome::Answer(false));
    let step = after(
        step,
        Effect::WriteFile { path: "/home/ada/.rc".to_string(), content: "set x".to_string() },
        Outcome::Done,
    );
    assert_eq!(answer(step), "{\"cmd\":\"writerc\",\"code\":0}");
}

#[test]
fn writerc_writes_when_the_question_has_no_answer() {
    let step = first("{\"cmd\":\"writerc\",\"file\":\"/rc\",\"content\":\"c\"}");
    let step = after(step, Effect::Exists { path: "/rc".to_string() }, Outcome::Failed);
    let step = after(
        step,
        Effect::WriteFile { path: "/rc".to_string(), content: "c".to_string() },
        Outcome::Failed,
    );
    assert_eq!(answer(step), "{\"cmd\":\"writerc\",\"code\":2}");
}

#[test]
fn writerc_with_force_overwrites() {
    let step = first("{\"cmd\":\"writerc\",\"file\":\"$DIR/rc\",\"content\":\"c\",\"force\":true}");
    let step = after(
        step,
        Effect::WriteFile { path: "/srv/data/rc".to_string(), content: "c".to_string() },
        Outcome::Done,
    );
    assert_eq!(answer(step), "{\"cmd\":\"writerc\",\"code\":0}");
}

#[test]
fn writerc_does_not_read_data_urls() {
    let step = first("{\"cmd\":\"writerc\",\"file\":\"/rc\",\"content\":\"data:,x\",\"force\":true}");
    assert_eq!(
        step,
        Step::Perform(
            Effect::WriteFile { path: "/rc".to_string(), content: "data:,x".to_string() },
            Pending::RcWrite
        )
    );
}

#[test]
fn mkdir_reports_the_outcome() {
    let step = first("{\"cmd\":\"mkdir\",\"dir\":\"~/a/b\"}");
    let step = after(step, Effect::CreateDirectories { path: "/home/ada/a/b".to_string() }, Outcome::Done);
    assert_eq!(answer(step), "{\"cmd\":\"mkdir\",\"code\":0}");
    let step = first("{\"cmd\":\"mkdir\",\"dir\":\"/proc/x\"}");
    let step = after(step, Effect::CreateDirectories { path: "/proc/x".to_string() }, Outcome::Failed);
    assert_eq!(answer(step), "{\"cmd\":\"mkdir\",\"code\":2}");
}

#[test]
fn mkdir_asks_for_the_same_effect_again() {
    assert_eq!(first("{\"cmd\":\"mkdir\",\"dir\":\"~/a\"}"), first("{\"cmd\":\"mkdir\",\"dir\":\"~/a\"}"));
}

#[test]
fn list_dir_lists_a_directory() {
    let step = first("{\"cmd\":\"list_dir\",\"path\":\"~/docs\"}");
    let step = after(step, Effect::IsDirectory { path: "/home/ada/docs".to_string() }, Outcome::Answer(true));
    let step = after(
        step,
        Effect::ListDirectory { path: "/home/ada/docs".to_string() },
        Outcome::Names(vec!["b.txt".to_string(), "a.txt".to_string()]),
    );
    assert_eq!(
        answer(step),
        "{\"cmd\":\"list_dir\",\"files\":[\"b.txt\",\"a.txt\"],\"isDir\":true,\"sep\":\"/\"}"
    );
}

#[test]
fn list_dir_lists_what_lies_above_a_file() {
    let step = first("{\"cmd\":\"list_dir\",\"path\":\"/home/ada/docs/a.txt\"}");
    let step = after(
        step,
        Effect::IsDirectory { path: "/home/ada/docs/a.txt".to_string() },
        Outcome::Answer(false),
    );
    let step = after(
        step,
        Effect::ListDirectory { path: "/home/ada/docs".to_string() },
        Outcome::Names(vec!["a.txt".to_string()]),
    );
    assert_eq!(
        answer(step),
        "{\"cmd\":\"list_dir\",\"files\":[\"a.txt\"],\"isDir\":false,\"sep\":\"/\"}"
    );
}

#[test]
fn list_dir_falls_back_to_the_current_directory() {
    let step = first("{\"cmd\":\"list_dir\"}");
    let step = after(step, Effect::IsDirectory { path: "".to_string() }, Outcome::Answer(false));
    let step = after(step, Effect::ListDirectory { path: ".".to_string() }, Outcome::Failed);
    assert_eq!(answer(step), "{\"cmd\":\"list_dir\",\"files\":[],\"isDir\":false,\"sep\":\"/\"}");
}

#[test]
fn list_dir_leaves_variables_alone() {
    let step = first("{\"cmd\":\"list_dir\",\"path\":\"$DIR\"}");
    assert_eq!(
        step,
        Step::Perform(
            Effect::IsDirectory { path: "$DIR".to_string() },
            Pending::DirProbe { path: "$DIR".to_string() }
        )
    );
}

#[test]
fn temp_names_its_file_after_the_prefix() {
    let step = first("{\"cmd\":\"temp\",\"prefix\":\"My Notes..v2\",\"content\":\"text\"}");
    let step = after(
        step,
        Effect::CreateTemp {
            prefix: "tmp_mynotes.v2_".to_string(),
            suffix: ".txt".to_string(),
            content: "text".to_string(),
        },
        Outcome::Text("/tmp/tmp_mynotes.v2_Ab3dE9.txt".to_string()),
    );
    assert_eq!(
        answer(step),
        "{\"cmd\":\"temp\",\"code\":0,\"content\":\"/tmp/tmp_mynotes.v2_Ab3dE9.txt\"}"
    );
}

#[test]
fn temp_without_a_prefix_keeps_its_mark() {
    let step = first("{\"cmd\":\"temp\"}");
    assert_eq!(
        step,
        Step::Perform(
            Effect::CreateTemp {
                prefix: "tmp__".to_string(),
                suffix: ".txt".to_string(),
                content: "".to_string(),
            },
            Pending::Temp
        )
    );
}

#[test]
fn temp_that_fails_is_not_handled() {
    let step = first("{\"cmd\":\"temp\",\"prefix\":\"x\"}");
    let step = match step {
        Step::Perform(_, pending) => resume(&host(), pending, Outcome::Failed),
        other => panic!("{:?}", other),
    };
    assert_eq!(answer(step), UNHANDLED);
}

#[test]
fn move_onto_a_free_destination_renames() {
    let step = first("{\"cmd\":\"move\",\"from\":\"~/a.txt\",\"to\":\"$DIR/b.txt\"}");
    let step = after(step, Effect::Exists { path: "/srv/data/b.txt".to_string() }, Outcome::Answer(false));
    let step = after(
        step,
        Effect::Rename { from: "/home/ada/a.txt".to_string(), to: "/srv/data/b.txt".to_string() },
        Outcome::Done,
    );
    assert_eq!(answer(step), "{\"cmd\":\"move\",\"code\":0}");
}

#[test]
fn move_that_fails_says_so() {
    let step = first("{\"cmd\":\"move\",\"from\":\"/a\",\"to\":\"/b\"}");
    let step = after(step, Effect::Exists { path: "/b".to_string() }, Outcome::Failed);
    let step = after(
        step,
        Effect::Rename { from: "/a".to_string(), to: "/b".to_string() },
        Outcome::Failed,
    );
    assert_eq!(answer(step), "{\"cmd\":\"move\",\"code\":2}");
}

#[test]
fn move_does_not_overwrite_a_file_unasked() {
    let step = first("{\"cmd\":\"move\",\"from\":\"/x/a.txt\",\"to\":\"/y/b.txt\"}");
    let step = after(step, Effect::Exists { path: "/y/b.txt".to_string() }, Outcome::Answer(true));
    let step = after(
        step,
        Effect::IsDirectory { path: "/y/b.txt".to_string() },
        Outcome::Answer(false),
    );
    assert_eq!(answer(step), "{\"cmd\":\"move\",\"code\":1}");
}

#[test]
fn move_does_not_go_into_a_directory_unasked() {
    let step = first("{\"cmd\":\"move\",\"from\":\"/x/a.txt\",\"to\":\"/y\"}");
    let step = after(step, Effect::Exists { path: "/y".to_string() }, Outcome::Answer(true));
    let step = after(step, Effect::IsDirectory { path: "/y".to_string() }, Outcome::Answer(true));
    let step = after(step, Effect::Exists { path: "/y/a.txt".to_string() }, Outcome::Answer(false));
    assert_eq!(answer(step), "{\"cmd\":\"move\",\"code\":1}");
}

#[test]
fn move_into_a_directory_that_holds_the_name_renames_into_it() {
    let step =
        first("{\"cmd\":\"move\",\"from\":\"/x/a.txt\",\"to\":\"/y/\",\"overwrite\":false}");
    let step = after(step, Effect::Exists { path: "/y/".to_string() }, Outcome::Answer(true));
    let step = after(step, Effect::IsDirectory { path: "/y/".to_string() }, Outcome::Answer(true));
    let step = after(step, Effect::Exists { path: "/y/a.txt".to_string() }, Outcome::Answer(true));
    let step = after(
        step,
        Effect::Rename { from: "/x/a.txt".to_string(), to: "/y/a.txt".to_string() },
        Outcome::Done,
    );
    assert_eq!(answer(step), "{\"cmd\":\"move\",\"code\":0}");
}

#[test]
fn move_with_overwrite_overwrites_a_file() {
    let step =
        first("{\"cmd\":\"move\",\"from\":\"/x/a.txt\",\"to\":\"/y/b.txt\",\"overwrite\":true}");
    let step = after(step, Effect::Exists { path: "/y/b.txt".to_string() }, Outcome::Answer(true));
    let step = after(
        step,
        Effect::IsDirectory { path: "/y/b.txt".to_string() },
        Outcome::Answer(false),
    );
    let step = after(
        step,
        Effect::Rename { from: "/x/a.txt".to_string(), to: "/y/b.txt".to_string() },
        Outcome::Done,
    );
    assert_eq!(answer(step), "{\"cmd\":\"move\",\"code\":0}");
}

#[test]
fn move_with_overwrite_goes_into_a_directory() {
    let step = first("{\"cmd\":\"move\",\"from\":\"/x/a.txt\",\"to\":\"/y\",\"overwrite\":true}");
    let step = after(step, Effect::Exists { path: "/y".to_string() }, Outcome::Answer(true));
    let step = after(step, Effect::IsDirectory { path: "/y".to_string() }, Outcome::Answer(true));
    let step = after(
        step,
        Effect::Rename { from: "/x/a.txt".to_string(), to: "/y/a.txt".to_string() },
        Outcome::Failed,
    );
    assert_eq!(answer(step), "{\"cmd\":\"move\",\"code\":2}");
}

#[test]
fn move_of_a_path_without_a_name_does_not_go_into_a_directory() {
    let step = first("{\"cmd\":\"move\",\"from\":\"/\",\"to\":\"/y\"}");
    let step = after(step, Effect::Exists { path: "/y".to_string() }, Outcome::Answer(true));
    let step = after(step, Effect::IsDirectory { path: "/y".to_string() }, Outcome::Answer(true));
    assert_eq!(answer(step), "{\"cmd\":\"move\",\"code\":1}");
    let step = first("{\"cmd\":\"move\",\"from\":\"..\",\"to\":\"/y\",\"overwrite\":true}");
    let step = after(step, Effect::Exists { path: "/y".to_string() }, Outcome::Answer(true));
    let step = after(step, Effect::IsDirectory { path: "/y".to_string() }, Outcome::Answer(true));
    assert_eq!(answer(step), "{\"cmd\":\"move\",\"code\":2}");
}

#[test]
fn move_with_cleanup_removes_the_source_whatever_the_code() {
    let step = first("{\"cmd\":\"move\",\"from\":\"/x/a\",\"to\":\"/y\",\"cleanup\":true}");
    let step = after(step, Effect::Exists { path: "/y".to_string() }, Outcome::Answer(true));
    let step = after(step, Effect::IsDirectory { path: "/y".to_string() }, Outcome::Answer(true));
    let step = after(step, Effect::Exists { path: "/y/a".to_string() }, Outcome::Answer(false));
    let step = after(step, Effect::RemoveFile { path: "/x/a".to_string() }, Outcome::Done);
    assert_eq!(answer(step), "{\"cmd\":\"move\",\"code\":1}");
    let step = first("{\"cmd\":\"move\",\"from\":\"/x/a\",\"to\":\"/y\",\"cleanup\":true}");
    let step = after(step, Effect::Exists { path: "/y".to_string() }, Outcome::Answer(true));
    let step = after(step, Effect::IsDirectory { path: "/y".to_string() }, Outcome::Failed);
    let step = after(step, Effect::RemoveFile { path: "/x/a".to_string() }, Outcome::Failed);
    assert_eq!(answer(step), "{\"cmd\":\"move\",\"code\":1}");
}

#[test]
fn move_keeps_its_code_when_the_cleanup_fails() {
    let step = first("{\"cmd\":\"move\",\"from\":\"/x/a\",\"to\":\"/y\",\"cleanup\":true}");
    let step = after(step, Effect::Exists { path: "/y".to_string() }, Outcome::Answer(false));
    let step = after(
        step,
        Effect::Rename { from: "/x/a".to_string(), to: "/y".to_string() },
        Outcome::Done,
    );
    let step = after(step, Effect::RemoveFile { path: "/x/a".to_string() }, Outcome::Failed);
    assert_eq!(answer(step), "{\"cmd\":\"move\",\"code\":0}");
}

#[test]
fn run_reports_output_and_code() {
    let step = first("{\"cmd\":\"run\",\"command\":\"echo hi\"}");
    let step = after(
        step,
        Effect::Run { command: "echo hi".to_string(), input: None },
        Outcome::Exited { status: Some(0), output: b"hi\n".to_vec() },
    );
    assert_eq!(answer(step), "{\"cmd\":\"run\",\"code\":0,\"result\":\"hi\\n\"}");
}

#[test]
fn run_normalizes_the_ends_of_lines() {
    let step = first("{\"cmd\":\"run\",\"command\":\"echo hi\"}");
    let step = after(
        step,
        Effect::Run { command: "echo hi".to_string(), input: None },
        Outcome::Exited { status: Some(0), output: b"hi\r\nthere".to_vec() },
    );
    assert_eq!(answer(step), "{\"cmd\":\"run\",\"code\":0,\"result\":\"hi\\nthere\\n\"}");
}

#[test]
fn run_hands_its_content_to_the_command() {
    let step = first("{\"cmd\":\"run\",\"command\":\"cat\",\"content\":\"in\"}");
    let step = after(
        step,
        Effect::Run { command: "cat".to_string(), input: Some("in".to_string()) },
        Outcome::Exited { status: Some(3), output: b"in".to_vec() },
    );
    assert_eq!(answer(step), "{\"cmd\":\"run\",\"code\":3,\"result\":\"in\\n\"}");
}

#[test]
fn run_takes_content_of_another_type_as_absent() {
    let step = first("{\"cmd\":\"run\",\"command\":\"cat\",\"content\":12}");
    assert_eq!(
        step,
        Step::Perform(Effect::Run { command: "cat".to_string(), input: None }, Pending::Run)
    );
}

#[test]
fn run_without_a_status_reports_success() {
    let step = first("{\"cmd\":\"run\",\"command\":\"kill $$\"}");
    let step = after(
        step,
        Effect::Run { command: "kill $$".to_string(), input: None },
        Outcome::Exited { status: None, output: Vec::new() },
    );
    assert_eq!(answer(step), "{\"cmd\":\"run\",\"code\":0,\"result\":\"\"}");
}

#[test]
fn run_that_could_not_start_fails() {
    let step = first("{\"cmd\":\"run\",\"command\":\"x\"}");
    let step = after(step, Effect::Run { command: "x".to_string(), input: None }, Outcome::Failed);
    assert_eq!(answer(step), "{\"cmd\":\"run\",\"code\":2,\"result\":\"\"}");
}

#[test]
fn run_with_output_that_is_no_text_fails() {
    let step = first("{\"cmd\":\"run\",\"command\":\"x\"}");
    let step = after(
        step,
        Effect::Run { command: "x".to_string(), input: None },
        Outcome::Exited { status: Some(0), output: vec![0xff, 10] },
    );
    assert_eq!(answer(step), "{\"cmd\":\"run\",\"code\":2,\"result\":\"\"}");
}

#[test]
fn run_async_splits_its_command() {
    let step = first("{\"cmd\":\"run_async\",\"command\":\"  firefox --new-tab  about:blank \"}");
    let step = after(
        step,
        Effect::Spawn {
            program: "firefox".to_string(),
            arguments: vec!["--new-tab".to_string(), "about:blank".to_string()],
        },
        Outcome::Failed,
    );
    assert_eq!(answer(step), "{\"cmd\":\"run_async\"}");
}

#[test]
fn run_async_without_a_program_starts_nothing() {
    assert_eq!(answer(first("{\"cmd\":\"run_async\"}")), "{\"cmd\":\"run_async\"}");
    assert_eq!(answer(first("{\"cmd\":\"run_async\",\"command\":\" \\t \"}")), "{\"cmd\":\"run_async\"}");
}

#[test]
fn getconfig_reads_the_first_place_that_exists() {
    let step = first("{\"cmd\":\"getconfig\"}");
    let step = after(
        step,
        Effect::Exists { path: "/home/ada/.config/tridactyl/tridactylrc".to_string() },
        Outcome::Answer(true),
    );
    let step = after(
        step,
        Effect::ReadFile { path: "/home/ada/.config/tridactyl/tridactylrc".to_string() },
        Outcome::Text("set theme dark".to_string()),
    );
    assert_eq!(answer(step), "{\"cmd\":\"getconfig\",\"code\":0,\"content\":\"set theme dark\"}");
}

#[test]
fn getconfig_falls_back_to_the_home_directory() {
    let step = get_config(&host());
    let step = after(
        step,
        Effect::Exists { path: "/home/ada/.config/tridactyl/tridactylrc".to_string() },
        Outcome::Answer(false),
    );
    let step = after(step, Effect::Exists { path: "/home/ada/.tridactylrc".to_string() }, Outcome::Answer(true));
    let step = after(step, Effect::ReadFile { path: "/home/ada/.tridactylrc".to_string() }, Outcome::Failed);
    assert_eq!(answer(step), "{\"cmd\":\"getconfig\",\"code\":2}");
}

#[test]
fn getconfig_without_a_file_finds_nothing() {
    let step = get_config(&host());
    let step = after(
        step,
        Effect::Exists { path: "/home/ada/.config/tridactyl/tridactylrc".to_string() },
        Outcome::Answer(false),
    );
    let step = after(step, Effect::Exists { path: "/home/ada/.tridactylrc".to_string() }, Outcome::Failed);
    assert_eq!(answer(step), "{\"cmd\":\"getconfig\",\"code\":1}");
}

#[test]
fn getconfig_without_a_place_finds_nothing() {
    let mut machine = host();
    machine.home = None;
    machine.config_dir = None;
    assert_eq!(answer(get_config(&machine)), "{\"cmd\":\"getconfig\",\"code\":1}");
    assert_eq!(answer(get_config_path(&machine)), "{\"cmd\":\"getconfigpath\",\"code\":1}");
}

#[test]
fn getconfigpath_reports_the_resolved_path() {
    let step = first("{\"cmd\":\"getconfigpath\"}");
    let step = after(
        step,
        Effect::Exists { path: "/home/ada/.config/tridactyl/tridactylrc".to_string() },
        Outcome::Answer(false),
    );
    let step = after(step, Effect::Exists { path: "/home/ada/.tridactylrc".to_string() }, Outcome::Answer(true));
    let step = after(
        step,
        Effect::Canonicalize { path: "/home/ada/.tridactylrc".to_string() },
        Outcome::Text("/mnt/home/ada/.tridactylrc".to_string()),
    );
    assert_eq!(
        answer(step),
        "{\"cmd\":\"getconfigpath\",\"code\":0,\"content\":\"/mnt/home/ada/.tridactylrc\"}"
    );
}

#[test]
fn getconfigpath_that_cannot_resolve_fails() {
    let step = get_config_path(&host());
    let step = after(
        step,
        Effect::Exists { path: "/home/ada/.config/tridactyl/tridactylrc".to_string() },
        Outcome::Answer(true),
    );
    let step = after(
        step,
        Effect::Canonicalize { path: "/home/ada/.config/tridactyl/tridactylrc".to_string() },
        Outcome::Failed,
    );
    assert_eq!(answer(step), "{\"cmd\":\"getconfigpath\",\"code\":2}");
}

#[test]
fn an_outcome_of_the_wrong_kind_counts_as_a_failure() {
    let machine = host();
    assert_eq!(
        answer(resume(&machine, Pending::Read, Outcome::Done)),
        "{\"cmd\":\"read\",\"code\":2,\"content\":\"\"}"
    );
    assert_eq!(
        answer(resume(&machine, Pending::Write, Outcome::Text("x".to_string()))),
        "{\"cmd\":\"write\",\"code\":2}"
    );
    assert_eq!(
        answer(resume(&machine, Pending::RcWrite, Outcome::Answer(true))),
        "{\"cmd\":\"writerc\",\"code\":2}"
    );
    assert_eq!(
        answer(resume(&machine, Pending::Mkdir, Outcome::Names(Vec::new()))),
        "{\"cmd\":\"mkdir\",\"code\":2}"
    );
    assert_eq!(
        answer(resume(&machine, Pending::MoveCleanup { code: 2 }, Outcome::Failed)),
        "{\"cmd\":\"move\",\"code\":2}"
    );
}

#[test]
fn every_request_ends_after_a_few_effects() {
    let machine = host();
    let requests = [
        "{\"cmd\":\"getconfig\"}",
        "{\"cmd\":\"getconfigpath\"}",
        "{\"cmd\":\"read\"}",
        "{\"cmd\":\"write\"}",
        "{\"cmd\":\"writerc\"}",
        "{\"cmd\":\"move\",\"from\":\"/a/b\",\"to\":\"/c\",\"cleanup\":true}",
        "{\"cmd\":\"mkdir\"}",
        "{\"cmd\":\"list_dir\"}",
        "{\"cmd\":\"temp\"}",
        "{\"cmd\":\"run\"}",
        "{\"cmd\":\"run_async\",\"command\":\"x\"}",
    ];
    let outcomes = [
        Outcome::Failed,
        Outcome::Done,
        Outcome::Answer(true),
        Outcome::Answer(false),
        Outcome::Text("t".to_string()),
    ];
    for text in requests {
        for outcome in &outcomes {
            let mut step = handle_command(&request(text), &machine);
            let mut effects = 0;
            while let Step::Perform(_, pending) = step {
                effects += 1;
                assert!(effects <= 5, "{} {:?}", text, outcome);
                step = resume(&machine, pending, outcome.clone());
            }
        }
    }
}
