use proxmox_znc::process::{captured_output, exit_message, format_failure};

#[test]
fn failure_message_lists_nonempty_outputs() {
    assert_eq!(
        format_failure("pct", "exit status: 2", b"  out\n", b"err  \n"),
        "pct exited with status exit status: 2 | stderr: err | stdout: out"
    );
    assert_eq!(
        format_failure("pct", "exit status: 1", b"\n", b""),
        "pct exited with status exit status: 1"
    );
    assert_eq!(
        format_failure("pct", "exit status: 1", b"only out", b" \t "),
        "pct exited with status exit status: 1 | stdout: only out"
    );
}

#[test]
fn captured_output_is_decoded_and_trimmed() {
    assert_eq!(captured_output(b"  100\n"), "100");
    assert_eq!(captured_output("h\u{e9}\n".as_bytes()), "h\u{e9}");
    assert_eq!(captured_output(b"a\xffb"), "a\u{FFFD}b");
}

#[test]
fn exit_messages() {
    assert_eq!(exit_message("sh", "exit status: 127"), "sh exited with status exit status: 127");
}
