use rlm::exec::{execution_outcome, ExecutionEnvironment, GuestOutcome, Pyo3Executor};
use rlm::repl::{process_outcome, Command, DispatchError, SessionContext, REPL};

#[test]
fn failing_process_reports_stderr_as_ok() {
    // A non-zero exit is not an error at the dispatch layer: the captured
    // standard error text is the successful feedback for the model, never
    // an Err.
    let shown = process_outcome(
        false,
        String::new(),
        "ls: cannot access 'nowhere': No such file or directory\n".to_string(),
    );
    assert_eq!(
        shown,
        Ok("ls: cannot access 'nowhere': No such file or directory\n".to_string())
    );
}

#[test]
fn succeeding_process_reports_stdout() {
    let shown = process_outcome(true, "Cargo.toml\nsrc\n".to_string(), String::new());
    assert_eq!(shown, Ok("Cargo.toml\nsrc\n".to_string()));
}

#[test]
fn final_command_passes_through_unchanged() {
    let repl = REPL::new();
    let out = repl.run_command(Command::Final("hello world".to_string()));
    assert_eq!(out, Ok("hello world".to_string()));
}

#[test]
fn invalid_command_is_the_one_hard_error() {
    let repl = REPL::new();
    let out = repl.run_command(Command::InvalidCommand);
    assert_eq!(out, Err(DispatchError::InvalidCommand));
    assert_eq!(
        DispatchError::InvalidCommand.describe(),
        "Could not find command."
    );
}

#[test]
fn reparsing_the_final_passthrough_keeps_the_answer() {
    // The dispatcher's passthrough of a terminal answer, put back behind its
    // keyword, parses to the same answer: collapsing is idempotent.
    let repl = REPL::new();
    let first = Command::parse("FINAL  hello   world");
    let message = match &first {
        Command::Final(m) => m.clone(),
        _ => panic!("expected a terminal answer"),
    };
    let passed = repl.run_command(first).unwrap();
    assert_eq!(passed, message);
    match Command::parse(&format!("FINAL {}", passed)) {
        Command::Final(again) => assert_eq!(again, message),
        _ => panic!("expected a terminal answer again"),
    }
}

#[test]
fn outcome_prefers_error_text_over_everything() {
    let o = GuestOutcome {
        raised: Some("ValueError: boom".to_string()),
        value: Some("42".to_string()),
        printed: "noise".to_string(),
    };
    assert_eq!(execution_outcome(o), "ValueError: boom");
}

#[test]
fn outcome_prefers_result_variable_over_output() {
    let o = GuestOutcome {
        raised: None,
        value: Some("42".to_string()),
        printed: "ignored".to_string(),
    };
    assert_eq!(execution_outcome(o), "42");
}

#[test]
fn outcome_falls_back_to_captured_output() {
    let o = GuestOutcome {
        raised: None,
        value: None,
        printed: "hello\n".to_string(),
    };
    assert_eq!(execution_outcome(o), "hello\n");
}

#[test]
fn session_context_set_get_and_shadowing() {
    let mut ctx = SessionContext::new();
    assert_eq!(ctx.get("greeting"), None);
    ctx.set("greeting".to_string(), "hi".to_string());
    ctx.set("other".to_string(), "there".to_string());
    assert_eq!(ctx.get("greeting"), Some("hi".to_string()));
    assert_eq!(ctx.get("other"), Some("there".to_string()));
    ctx.set("greeting".to_string(), "hello".to_string());
    assert_eq!(ctx.get("greeting"), Some("hello".to_string()));
    assert_eq!(ctx.get("missing"), None);
}

#[test]
fn get_variable_reads_the_session_context() {
    let mut repl = REPL::new();
    assert_eq!(repl.get_variable("k"), None);
    repl.context.set("k".to_string(), "v".to_string());
    assert_eq!(repl.get_variable("k"), Some("v".to_string()));
}

#[test]
fn guest_result_variable_wins_over_print() {
    // The conventional result variable, bound to an integer, is returned in
    // textual form, preferentially over the captured output.
    let repl = REPL::new();
    let out = repl.run_command(Command::RunCode(
        "my_answer = 42\nprint('ignored')".to_string(),
    ));
    assert_eq!(out, Ok("42".to_string()));
}

#[test]
fn guest_print_is_captured() {
    let repl = REPL::new();
    let out = repl
        .run_command(Command::RunCode("print('hello')".to_string()))
        .unwrap();
    assert!(out.contains("hello"));
}

#[test]
fn guest_string_result_is_returned_as_is() {
    let repl = REPL::new();
    let out = repl.run_command(Command::RunCode("my_answer = 'done'".to_string()));
    assert_eq!(out, Ok("done".to_string()));
}

#[test]
fn guest_error_is_recovered_as_text() {
    let repl = REPL::new();
    let out = repl
        .run_command(Command::RunCode("raise ValueError('boom')".to_string()))
        .unwrap();
    assert!(out.contains("ValueError"));
    assert!(out.contains("boom"));
}

#[test]
fn guest_syntax_error_is_recovered_as_text() {
    let repl = REPL::new();
    let out = repl
        .run_command(Command::RunCode("def (".to_string()))
        .unwrap();
    assert!(out.contains("SyntaxError"));
}

#[test]
fn guest_sees_the_session_context() {
    let mut repl = REPL::new();
    repl.context
        .set("greeting".to_string(), "salutations".to_string());
    let out = repl.run_command(Command::RunCode(
        "my_answer = context['greeting']".to_string(),
    ));
    assert_eq!(out, Ok("salutations".to_string()));
}

#[test]
fn guest_sees_the_newest_binding() {
    // Rebinding a name shadows the older value for the guest exactly as it
    // does for get_variable.
    let mut repl = REPL::new();
    repl.context.set("k".to_string(), "old".to_string());
    repl.context.set("k".to_string(), "new".to_string());
    assert_eq!(repl.get_variable("k"), Some("new".to_string()));
    let out = repl.run_command(Command::RunCode("my_answer = context['k']".to_string()));
    assert_eq!(out, Ok("new".to_string()));
}

#[test]
fn executor_backend_offers_the_same_contract() {
    let backend = Pyo3Executor;
    let out = backend.execute_code("print('hello')".to_string()).unwrap();
    assert!(out.contains("hello"));
    let out = backend.execute_code("my_answer = 7".to_string()).unwrap();
    assert_eq!(out, "7");
}

#[test]
fn guest_runs_get_a_fresh_namespace() {
    let repl = REPL::new();
    let _ = repl.run_command(Command::RunCode("leak = 1".to_string()));
    let out = repl
        .run_command(Command::RunCode("my_answer = 'leak' in dir()".to_string()))
        .unwrap();
    assert_eq!(out, "False");
}
