use gocode::tools::process::{
    build_command, credential_env_vars, BoundedBuffer, CommandRequest, ProcessEvent, ProcessOutcome,
    ProcessRun, ProcessStep, ProcessStream, DEFAULT_OUTPUT_LIMIT,
};
use gocode::tools::redact::redact_secrets;

fn cwd() -> String {
    "/work".to_string()
}

#[test]
fn credential_environment_variables_are_explicitly_removed_from_the_child_command() {
    let request = CommandRequest::new("echo", vec!["hi".to_string()], cwd());
    let command = build_command(&request, false);

    let removed_nvidia_key = command.removed_env.iter().any(|key| key == "NVIDIA_API_KEY");

    assert!(removed_nvidia_key);
    assert_eq!(credential_env_vars(), ["NVIDIA_API_KEY"]);
}

#[test]
fn redacts_common_secrets_from_process_output() {
    let output = "token=abc123 password: hunter2 Authorization: Bearer xyz";
    let redacted = redact_secrets(output);
    assert!(!redacted.contains("abc123"));
    assert!(!redacted.contains("hunter2"));
    assert!(!redacted.contains("xyz"));
    assert!(redacted.contains("[REDACTED]"));
    assert_eq!(
        redacted,
        "token=[REDACTED] password: [REDACTED] Authorization: Bearer [REDACTED]"
    );
}

#[test]
fn redaction_reaches_over_white_space_and_ignores_case() {
    assert_eq!(redact_secrets("nothing here"), "nothing here");
    assert_eq!(redact_secrets("TOKEN:\n  abc def"), "TOKEN:\n  [REDACTED] def");
    assert_eq!(redact_secrets("api_key="), "api_key=[REDACTED]");
    assert_eq!(redact_secrets("token= password=abc"), "token= [REDACTED]");
    assert_eq!(
        redact_secrets("é secret=ü Cookie: a=b; c"),
        "é secret=[REDACTED] Cookie: [REDACTED] c"
    );
}

#[test]
fn a_request_runs_directly_or_by_a_shell() {
    let mut request = CommandRequest::new("cargo", vec!["test".to_string()], cwd());
    assert_eq!(request.timeout_ms, 120_000);
    let plan = build_command(&request, false);
    assert_eq!(plan.program, "cargo");
    assert_eq!(plan.args, ["test"]);
    assert_eq!(plan.cwd, "/work");

    request.shell = true;
    let plan = build_command(&request, false);
    assert_eq!(plan.program, "/bin/sh");
    assert_eq!(plan.args, ["-c", "cargo", "test"]);
    let plan = build_command(&request, true);
    assert_eq!(plan.program, "cmd");
    assert_eq!(plan.args, ["/C", "cargo", "test"]);
}

#[test]
fn output_that_fits_is_kept_whole() {
    let mut buffer = BoundedBuffer::new(10);
    buffer.push("hello");
    buffer.push("world");
    assert_eq!(buffer.finish(), ("helloworld".to_string(), false));
}

#[test]
fn long_output_keeps_its_beginning_and_its_end() {
    let mut buffer = BoundedBuffer::new(4);
    buffer.push("abc");
    buffer.push("defgh");
    buffer.push("ijk");
    assert_eq!(
        buffer.finish(),
        ("abcd\n[... output truncated ...]\nhijk".to_string(), true)
    );
}

#[test]
fn characters_are_not_split() {
    let mut buffer = BoundedBuffer::new(3);
    buffer.push("aéé");
    assert_eq!(buffer.head, "aé");
    assert_eq!(buffer.tail, "é");
    let mut buffer = BoundedBuffer::new(2);
    buffer.push("aéxé");
    assert_eq!(buffer.head, "a");
    assert_eq!(buffer.tail, "é");
    assert!(buffer.truncated);
}

#[test]
fn a_process_that_ends_gives_its_output_and_exit_code() {
    let mut run = ProcessRun::start(true, true);
    assert_eq!(
        run.step(),
        ProcessStep::Listen {
            stdout: true,
            stderr: true
        }
    );
    let told = run.on_event(&ProcessEvent::Read(
        ProcessStream::Stdout,
        b"hello token=abc\n".to_vec(),
    ));
    assert_eq!(told.as_deref(), Some("hello token=[REDACTED]\n"));
    assert_eq!(
        run.on_event(&ProcessEvent::Read(ProcessStream::Stdout, Vec::new())),
        None
    );
    assert_eq!(
        run.step(),
        ProcessStep::Listen {
            stdout: false,
            stderr: true
        }
    );
    run.on_event(&ProcessEvent::Failed(ProcessStream::Stderr));
    assert_eq!(run.step(), ProcessStep::Drain);
    assert_eq!(run.drain(ProcessStream::Stdout, Some("")), None);
    assert_eq!(run.drain(ProcessStream::Stdout, None), None);
    assert_eq!(
        run.drain(ProcessStream::Stderr, Some("oops")).as_deref(),
        Some("oops")
    );
    let result = run.finish(Some(0), 12);
    assert_eq!(result.exit_code, Some(0));
    assert_eq!(result.stdout, "hello token=[REDACTED]\n");
    assert_eq!(result.stderr, "oops");
    assert_eq!(result.duration_ms, 12);
    assert_eq!(result.outcome, ProcessOutcome::Completed);
    assert!(!result.stdout_truncated);
}

#[test]
fn a_terminated_process_has_no_exit_code() {
    let mut run = ProcessRun::start(true, false);
    run.on_event(&ProcessEvent::DeadlinePassed);
    assert_eq!(run.step(), ProcessStep::Terminate);
    let result = run.finish(Some(0), u128::MAX);
    assert_eq!(result.outcome, ProcessOutcome::TimedOut);
    assert_eq!(result.exit_code, None);
    assert_eq!(result.duration_ms, u64::MAX);

    let mut run = ProcessRun::start(true, true);
    run.on_event(&ProcessEvent::Cancelled);
    let result = run.finish(Some(1), 0);
    assert_eq!(result.outcome, ProcessOutcome::Cancelled);
    assert_eq!(result.exit_code, None);
}

#[test]
fn output_that_is_not_text_is_decoded_as_far_as_it_goes() {
    let mut run = ProcessRun::start(true, true);
    let told = run.on_event(&ProcessEvent::Read(
        ProcessStream::Stderr,
        vec![b'a', 0xff, b'b'],
    ));
    assert_eq!(told.as_deref(), Some("a\u{fffd}b"));
    let told = run.on_event(&ProcessEvent::Read(
        ProcessStream::Stderr,
        "größe".as_bytes().to_vec(),
    ));
    assert_eq!(told.as_deref(), Some("größe"));
}

#[test]
fn a_stream_keeps_no_more_than_its_limit() {
    let mut run = ProcessRun::start(true, true);
    let chunk = vec![b'x'; 60_000];
    for _ in 0..3 {
        run.on_event(&ProcessEvent::Read(ProcessStream::Stdout, chunk.clone()));
    }
    assert_eq!(run.stdout.head.len(), DEFAULT_OUTPUT_LIMIT);
    assert_eq!(run.stdout.tail.len(), 80_000);
    let result = run.finish(None, 0);
    assert!(result.stdout_truncated);
    assert!(!result.stderr_truncated);
}

#[test]
fn output_that_fills_the_limit_is_whole_until_more_comes() {
    let mut exact = BoundedBuffer::new(4);
    exact.push("a\u{e9}");
    exact.push("b");
    assert!(!exact.truncated);
    exact.push("");
    assert_eq!(
        exact.finish(),
        ("a\u{e9}b\n[... output truncated ...]\n".to_string(), true)
    );
    let mut short = BoundedBuffer::new(4);
    short.push("");
    short.push("abcd");
    assert_eq!(short.finish(), ("abcd".to_string(), false));
}

#[test]
fn the_beginning_does_not_grow_once_output_was_cut() {
    let mut buffer = BoundedBuffer::new(2);
    buffer.push("a\u{e9}");
    assert_eq!(buffer.head, "a");
    buffer.push("b");
    assert_eq!(buffer.head, "a");
    assert_eq!(buffer.tail, "b");
    assert_eq!(
        buffer.finish(),
        ("a\n[... output truncated ...]\nb".to_string(), true)
    );
}

#[test]
fn redacting_twice_changes_nothing() {
    for output in ["api_key=abc next", "password: hunter2", "no marker at all"] {
        let once = redact_secrets(output);
        assert_eq!(redact_secrets(&once), once);
    }
    assert_eq!(redact_secrets("no marker at all"), "no marker at all");
    assert!(redact_secrets("api_key=abc").ends_with("[REDACTED]"));
}
