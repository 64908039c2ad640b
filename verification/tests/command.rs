use swu::command::{call, finish, CommandError, Invocation, Output};

fn output(success: bool, stdout: &[u8], stderr: &[u8]) -> Output {
    Output { success, stdout: stdout.to_vec(), stderr: stderr.to_vec() }
}

#[test]
fn call_splits_program_and_arguments() {
    assert_eq!(
        call("ps3cli /psw0 custom pcieswitch halt off"),
        Ok(Invocation {
            command: String::from("ps3cli /psw0 custom pcieswitch halt off"),
            program: String::from("ps3cli"),
            args: vec![
                String::from("/psw0"),
                String::from("custom"),
                String::from("pcieswitch"),
                String::from("halt"),
                String::from("off"),
            ],
        })
    );
}

#[test]
fn call_takes_any_whitespace_between_tokens() {
    let prepared = call("  lsscsi\t-g \n").unwrap();
    assert_eq!(prepared.command, "  lsscsi\t-g \n");
    assert_eq!(prepared.program, "lsscsi");
    assert_eq!(prepared.args, vec!["-g"]);
}

#[test]
fn call_of_a_program_alone_has_no_arguments() {
    let prepared = call("true").unwrap();
    assert_eq!(prepared.program, "true");
    assert!(prepared.args.is_empty());
}

#[test]
fn call_has_no_quoting() {
    let prepared = call("echo \"a b\"").unwrap();
    assert_eq!(prepared.args, vec!["\"a", "b\""]);
}

#[test]
fn blank_command_is_empty_command() {
    for blank in ["", " ", "\t", " \r\n \u{3000}"] {
        assert_eq!(call(blank), Err(CommandError::EmptyCommand { command: String::from(blank) }));
    }
}

#[test]
fn success_gives_standard_output_as_it_is() {
    assert_eq!(
        finish("lsscsi -g", output(true, b"line one\nline two\n\n", b"a warning")),
        Ok(String::from("line one\nline two\n\n"))
    );
    assert_eq!(finish("true", output(true, b"", b"")), Ok(String::new()));
}

#[test]
fn success_decodes_utf8() {
    let text = "gr\u{fc}n \u{2713} \u{1f600}";
    assert_eq!(finish("echo", output(true, text.as_bytes(), b"")), Ok(String::from(text)));
}

#[test]
fn failure_carries_command_and_standard_error() {
    assert_eq!(
        finish("ps3cli /psw0 download file=x", output(false, b"partial", b"no such device\n")),
        Err(CommandError::CommandFailed {
            command: String::from("ps3cli /psw0 download file=x"),
            stderr: String::from("no such device\n"),
        })
    );
    assert_eq!(
        finish("false", output(false, b"", b"")),
        Err(CommandError::CommandFailed { command: String::from("false"), stderr: String::new() })
    );
}

#[test]
fn only_the_stream_that_counts_has_to_be_text() {
    assert_eq!(finish("a", output(true, b"fine", &[0xff, 0xfe])), Ok(String::from("fine")));
    assert_eq!(
        finish("a", output(false, &[0xff, 0xfe], b"bad")),
        Err(CommandError::CommandFailed { command: String::from("a"), stderr: String::from("bad") })
    );
}

#[test]
fn output_that_is_no_utf8_is_invalid_output() {
    assert_eq!(
        finish("cat image", output(true, &[0x66, 0xff, 0x6f], b"")),
        Err(CommandError::InvalidOutput { command: String::from("cat image") })
    );
    assert_eq!(
        finish("cat image", output(false, b"", &[0xc3])),
        Err(CommandError::InvalidOutput { command: String::from("cat image") })
    );
    assert_eq!(
        finish("cat image", output(true, &[0xed, 0xa0, 0x80], b"")),
        Err(CommandError::InvalidOutput { command: String::from("cat image") })
    );
}
