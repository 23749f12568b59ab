use rlm::agent::{restatement_prompt, seed_prompt, AgentSession, LoopState, Role, TurnOutcome};
use rlm::repl::Command;

#[test]
fn seed_prompt_embeds_the_task() {
    let p = seed_prompt("count the ducks");
    assert!(p.contains("count the ducks"));
    assert!(p.starts_with("Think step-by-step"));
}

#[test]
fn restatement_prompt_embeds_the_answer() {
    let p = restatement_prompt("forty-two");
    assert!(p.starts_with("Please send a message to the user"));
    assert!(p.ends_with("forty-two"));
}

#[test]
fn one_extra_call_after_a_final_turn() {
    // Drive a conversation whose third response is terminal and count the
    // model calls: one per loop turn, plus exactly one restatement call.
    let responses = ["RUN ls .", "```repl\nmy_answer = 1\n```", "FINAL  all   done"];
    let mut session = AgentSession::new();
    let mut prompt = seed_prompt("task");
    let mut model_calls = 0usize;
    let mut completed_turns = 0usize;
    let result = loop {
        // One model call produces the next response.
        let response = responses[model_calls];
        model_calls += 1;
        match session.record_turn(prompt.clone(), response.to_string()) {
            TurnOutcome::Restate { message } => {
                assert_eq!(message, "all done");
                // History handed to the restatement call: two entries per
                // completed turn, the terminal turn included.
                assert_eq!(session.history.len(), 2 * model_calls);
                let restate = restatement_prompt(&message);
                assert!(restate.contains("all done"));
                // Exactly one additional model call, then the loop returns.
                model_calls += 1;
                break session.finish("All done.".to_string());
            }
            TurnOutcome::Dispatch { command } => {
                completed_turns += 1;
                assert!(!matches!(command, Command::Final(_)));
                prompt = "feedback".to_string();
            }
        }
    };
    assert_eq!(result, "All done.");
    assert_eq!(model_calls, 4);
    assert_eq!(completed_turns, 2);
    assert!(matches!(session.state, LoopState::Terminated));
}

#[test]
fn history_is_append_only_and_alternates() {
    let mut session = AgentSession::new();
    assert!(matches!(session.state, LoopState::AwaitingModel));
    session.record_turn("p1".to_string(), "gibberish".to_string());
    session.record_turn("p2".to_string(), "RUN true".to_string());
    assert_eq!(session.history.len(), 4);
    assert_eq!(session.history[0].role, Role::User);
    assert_eq!(session.history[0].text, "p1");
    assert_eq!(session.history[1].role, Role::Assistant);
    assert_eq!(session.history[1].text, "gibberish");
    assert_eq!(session.history[2].role, Role::User);
    assert_eq!(session.history[2].text, "p2");
    assert_eq!(session.history[3].role, Role::Assistant);
    assert_eq!(session.history[3].text, "RUN true");
}

#[test]
fn non_final_turns_hand_back_the_parsed_command() {
    let mut session = AgentSession::new();
    match session.record_turn("p".to_string(), "RUN echo hi".to_string()) {
        TurnOutcome::Dispatch { command } => match command {
            Command::Run(ra) => {
                assert_eq!(ra.program, "echo");
                assert_eq!(ra.args, vec!["hi".to_string()]);
            }
            _ => panic!("expected a run command"),
        },
        _ => panic!("expected a dispatch outcome"),
    }
    assert!(matches!(session.state, LoopState::AwaitingModel));
}

#[test]
fn invalid_turns_are_dispatched_not_terminal() {
    let mut session = AgentSession::new();
    match session.record_turn("p".to_string(), "who knows".to_string()) {
        TurnOutcome::Dispatch { command } => {
            assert!(matches!(command, Command::InvalidCommand));
        }
        _ => panic!("expected a dispatch outcome"),
    }
    assert!(matches!(session.state, LoopState::AwaitingModel));
}
