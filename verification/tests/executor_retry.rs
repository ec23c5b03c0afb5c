//! The agent executor's rounds and termination, the tool-result pairing,
//! the retry policy, and the completion-check policy.

use oli_core::args::{ArgValue, Args};
use oli_core::executor::{
    cap_forces_completion, interpret_verdict, process_response, round_decision, AgentExecutor,
    ApiResponse, RoundDecision, ToolCallRequest,
};
use oli_core::fsstore::FileStore;
use oli_core::policy::{determine_completion_threshold, should_request_completion};
use oli_core::retry::{retry_step, run_retry, RetryError, RetryStep, TransportEvent};

fn text_args(pairs: &[(&str, &str)]) -> Args {
    let mut args = Args::new();
    for (k, v) in pairs {
        args.push(k.to_string(), ArgValue::Text(v.to_string()));
    }
    args
}

#[test]
fn executor_immediate_answer() {
    let mut ex = AgentExecutor::new();
    ex.add_system_message("You are a coding assistant.".to_string());
    ex.add_user_message("Say hello.".to_string());
    let mut fs = FileStore::new();
    let responses = vec![ApiResponse {
        content: "Hello there.".to_string(),
        tool_calls: None,
    }];
    let r = ex.execute(&responses, &mut fs);
    assert_eq!(r.unwrap(), "Hello there.");
}

#[test]
fn executor_tool_round_then_answer() {
    // A tool call on round 1 and a plain-text answer on round 2: the task
    // ends after round 2 with that text, and the tool ran.
    let mut ex = AgentExecutor::new();
    ex.add_user_message("Create a file.".to_string());
    let mut fs = FileStore::new();
    let responses = vec![
        ApiResponse {
            content: "Writing the file now.".to_string(),
            tool_calls: Some(vec![ToolCallRequest {
                id: Some("call_1".to_string()),
                name: "Write".to_string(),
                arguments: text_args(&[("file_path", "hello.txt"), ("content", "hi there")]),
            }]),
        },
        ApiResponse {
            content: "The file hello.txt was created.".to_string(),
            tool_calls: None,
        },
    ];
    let r = ex.execute(&responses, &mut fs);
    assert_eq!(r.unwrap(), "The file hello.txt was created.");
    assert_eq!(fs.read("hello.txt").unwrap(), "hi there");
    // the assistant turn records the batch with each call's arguments
    let conv = ex.get_conversation_history();
    assert_eq!(
        conv[1].content,
        "Writing the file now.\n[tool_call call_1] Write {file_path=\"hello.txt\", content=\"hi there\"}"
    );
}

#[test]
fn executor_forced_completion_at_cap() {
    // A model that always asks for a tool call is cut off at exactly the
    // round cap, with the forced-completion diagnostic in the answer.
    let mut ex = AgentExecutor::new();
    ex.add_user_message("Loop forever.".to_string());
    let mut fs = FileStore::new();
    fs.write("d/x.txt", "content".to_string());
    let mut responses: Vec<ApiResponse> = Vec::new();
    for i in 0..102 {
        responses.push(ApiResponse {
            content: format!("step {}", i),
            tool_calls: Some(vec![ToolCallRequest {
                id: None,
                name: "LS".to_string(),
                arguments: text_args(&[("path", "d")]),
            }]),
        });
    }
    let r = ex.execute(&responses, &mut fs).unwrap();
    assert_eq!(
        r,
        "Reached maximum number of tool call loops (100). Forcing completion.\nstep 100"
    );
}

#[test]
fn executor_verdict_ends_task() {
    let mut ex = AgentExecutor::new();
    let mut fs = FileStore::new();
    fs.write("d/x.txt", "content".to_string());
    let responses = vec![
        ApiResponse {
            content: "Looking around.".to_string(),
            tool_calls: Some(vec![ToolCallRequest {
                id: Some("a".to_string()),
                name: "LS".to_string(),
                arguments: text_args(&[("path", "d")]),
            }]),
        },
        ApiResponse {
            content: "{\"taskComplete\":true,\"finalSummary\":\"All done.\"}".to_string(),
            tool_calls: Some(vec![ToolCallRequest {
                id: Some("b".to_string()),
                name: "LS".to_string(),
                arguments: text_args(&[("path", "d")]),
            }]),
        },
        ApiResponse {
            content: "never reached".to_string(),
            tool_calls: None,
        },
    ];
    let r = ex.execute(&responses, &mut fs).unwrap();
    assert_eq!(r, "All done.");
}

#[test]
fn executor_drained_empty_answer_asks_for_summary() {
    let mut ex = AgentExecutor::new();
    let mut fs = FileStore::new();
    fs.write("d/x.txt", "content".to_string());
    let responses = vec![
        ApiResponse {
            content: "Working.".to_string(),
            tool_calls: Some(vec![ToolCallRequest {
                id: Some("a".to_string()),
                name: "LS".to_string(),
                arguments: text_args(&[("path", "d")]),
            }]),
        },
        // the model drains with an empty reply: one extra summary call
        ApiResponse {
            content: "".to_string(),
            tool_calls: None,
        },
        ApiResponse {
            content: "{\"finalSummary\":\"Summary of the work.\"}".to_string(),
            tool_calls: None,
        },
    ];
    let r = ex.execute(&responses, &mut fs).unwrap();
    assert_eq!(r, "Summary of the work.");
}

#[test]
fn executor_no_response_is_a_network_error() {
    let mut ex = AgentExecutor::new();
    let mut fs = FileStore::new();
    let responses: Vec<ApiResponse> = Vec::new();
    assert!(ex.execute(&responses, &mut fs).is_err());
}

#[test]
fn tool_batch_yields_one_result_per_call_in_order() {
    // N requests yield exactly N results, correlation ids preserved, a
    // missing id synthesized from the call's position, and failures
    // readable as text rather than fatal.
    let mut ex = AgentExecutor::new();
    let mut fs = FileStore::new();
    fs.write("d/x.txt", "content".to_string());
    let calls = vec![
        ToolCallRequest {
            id: Some("call_a".to_string()),
            name: "LS".to_string(),
            arguments: text_args(&[("path", "d")]),
        },
        ToolCallRequest {
            id: None,
            name: "NoSuchTool".to_string(),
            arguments: Args::new(),
        },
        ToolCallRequest {
            id: None,
            name: "Read".to_string(),
            arguments: Args::new(),
        },
    ];
    let before = ex.get_conversation_history().len();
    let results = ex.execute_tool_calls(&calls, &mut fs);
    assert_eq!(results.len(), 3);
    assert_eq!(results[0].tool_call_id, "call_a");
    assert_eq!(results[1].tool_call_id, "tool_1");
    assert_eq!(results[2].tool_call_id, "tool_2");
    assert!(results[0].output.contains("x.txt"));
    assert!(results[1]
        .output
        .starts_with("ERROR PARSING TOOL CALL: Unknown tool: NoSuchTool"));
    assert!(results[2]
        .output
        .contains("missing or invalid field 'file_path'"));
    // one conversation entry per result, in order
    let conv = ex.get_conversation_history();
    assert_eq!(conv.len(), before + 3);
    assert!(conv[before]
        .content
        .starts_with("Tool result for call call_a: "));
    assert!(conv[before + 1]
        .content
        .starts_with("Tool result for call tool_1: "));
}

#[test]
fn process_response_extracts_verdicts() {
    let (text, complete) =
        process_response("{\"taskComplete\":true,\"finalSummary\":\"done\"}");
    assert_eq!(text, "done");
    assert!(complete);

    let (text, complete) =
        process_response("{\"taskComplete\":false,\"finalSummary\":\"partial\"}");
    assert_eq!(text, "partial");
    assert!(!complete);

    let (text, complete) = process_response("just plain prose");
    assert_eq!(text, "just plain prose");
    assert!(!complete);

    // a JSON object without a finalSummary is passed through unchanged
    let raw = "{\"taskComplete\":true}";
    let (text, complete) = process_response(raw);
    assert_eq!(text, raw);
    assert!(!complete);
}

#[test]
fn verdict_interpretation_rule() {
    // the rule itself, on plain values: a summary becomes the answer and
    // only an explicit true counts as complete
    let (text, complete) =
        interpret_verdict("raw reply", Some("done".to_string()), Some(true));
    assert_eq!(text, "done");
    assert!(complete);
    let (text, complete) = interpret_verdict("raw reply", Some("done".to_string()), Some(false));
    assert_eq!(text, "done");
    assert!(!complete);
    let (text, complete) = interpret_verdict("raw reply", Some("done".to_string()), None);
    assert_eq!(text, "done");
    assert!(!complete);
    let (text, complete) = interpret_verdict("raw reply", None, Some(true));
    assert_eq!(text, "raw reply");
    assert!(!complete);
}

#[test]
fn round_decisions_follow_the_rule() {
    assert!(matches!(round_decision(true, true, false), RoundDecision::Finished));
    assert!(matches!(round_decision(false, true, false), RoundDecision::AskAgain));
    assert!(matches!(round_decision(false, false, true), RoundDecision::AskSummary));
    assert!(matches!(round_decision(false, false, false), RoundDecision::Finished));
    assert!(!cap_forces_completion(100));
    assert!(cap_forces_completion(101));
}

#[test]
fn hosted_batch_takes_shell_outcomes() {
    // the host runs the shell itself and hands the captured outcome in;
    // the engine keeps the pairing and the store untouched for that call
    let mut ex = AgentExecutor::new();
    let mut fs = FileStore::new();
    let calls = vec![
        ToolCallRequest {
            id: Some("sh1".to_string()),
            name: "Bash".to_string(),
            arguments: text_args(&[("command", "echo hi")]),
        },
        ToolCallRequest {
            id: Some("w1".to_string()),
            name: "Write".to_string(),
            arguments: text_args(&[("file_path", "out.txt"), ("content", "body")]),
        },
    ];
    let outcomes = vec![Some("hi\n".to_string()), None];
    let results = ex.execute_tool_calls_hosted(&calls, &mut fs, &outcomes);
    assert_eq!(results.len(), 2);
    assert_eq!(results[0].tool_call_id, "sh1");
    assert_eq!(results[0].output, "hi\n");
    assert!(results[1].output.contains("out.txt"));
    assert_eq!(fs.read("out.txt").unwrap(), "body");
}

#[test]
fn retry_steps_follow_the_rule() {
    let limited = TransportEvent::Status { code: 429, retry_after: Some(2000) };
    match retry_step(0, &limited, 1000) {
        RetryStep::RetryAfter { delay_ms } => assert!((2000..2500).contains(&delay_ms)),
        other => panic!("expected a retry, got {:?}", other),
    }
    let failed = TransportEvent::Failed { message: "reset".to_string() };
    match retry_step(1, &failed, 4000) {
        RetryStep::RetryAfter { delay_ms } => assert!((4000..4500).contains(&delay_ms)),
        other => panic!("expected a retry, got {:?}", other),
    }
    let ok = TransportEvent::Status { code: 200, retry_after: None };
    assert!(matches!(retry_step(0, &ok, 1000), RetryStep::GiveBack));
    // the final allowed attempt gives back whatever it got
    assert!(matches!(retry_step(3, &limited, 1000), RetryStep::GiveBack));
}

#[test]
fn retry_succeeds_on_third_attempt() {
    // rate-limit status on the first 2 calls and success on the 3rd:
    // exactly 3 calls are made and the final success is returned
    let events = vec![
        TransportEvent::Status { code: 429, retry_after: None },
        TransportEvent::Status { code: 429, retry_after: Some(50) },
        TransportEvent::Status { code: 200, retry_after: None },
    ];
    let (result, attempts) = run_retry(&events);
    assert_eq!(attempts, 3);
    assert_eq!(result.unwrap(), 200);
}

#[test]
fn retry_exhausts_on_constant_rate_limit() {
    // always rate-limited: max_retries + 1 calls, the last (failed)
    // response returned
    let events = vec![
        TransportEvent::Status { code: 429, retry_after: None },
        TransportEvent::Status { code: 529, retry_after: None },
        TransportEvent::Status { code: 429, retry_after: None },
        TransportEvent::Status { code: 429, retry_after: None },
        TransportEvent::Status { code: 429, retry_after: None },
    ];
    let (result, attempts) = run_retry(&events);
    assert_eq!(attempts, 4);
    assert_eq!(result.unwrap(), 429);
}

#[test]
fn retry_exhausts_on_transport_failure() {
    let events = vec![
        TransportEvent::Failed { message: "connection reset".to_string() },
        TransportEvent::Failed { message: "connection reset".to_string() },
        TransportEvent::Failed { message: "connection reset".to_string() },
        TransportEvent::Failed { message: "timed out".to_string() },
    ];
    let (result, attempts) = run_retry(&events);
    assert_eq!(attempts, 4);
    match result {
        Err(RetryError::Network { attempts, message }) => {
            assert_eq!(attempts, 4);
            assert_eq!(message, "timed out");
        },
        other => panic!("expected a network error, got {:?}", other),
    }
}

#[test]
fn retry_returns_non_retryable_status_at_once() {
    let events = vec![
        TransportEvent::Status { code: 500, retry_after: None },
        TransportEvent::Status { code: 200, retry_after: None },
        TransportEvent::Status { code: 200, retry_after: None },
        TransportEvent::Status { code: 200, retry_after: None },
    ];
    let (result, attempts) = run_retry(&events);
    assert_eq!(attempts, 1);
    assert_eq!(result.unwrap(), 500);
}

#[test]
fn backoff_delays_double_and_cap() {
    assert_eq!(oli_core::retry::next_delay_ms(1000), 2000);
    assert_eq!(oli_core::retry::next_delay_ms(4000), 8000);
    assert_eq!(oli_core::retry::next_delay_ms(8000), 10000);
    assert_eq!(oli_core::retry::next_delay_ms(10000), 10000);
    // the delay prefers a server-sent retry-after, plus jitter below 500ms
    let d = oli_core::retry::retry_delay_ms(1000, Some(3000));
    assert!((3000..3500).contains(&d));
    let d = oli_core::retry::retry_delay_ms(1000, None);
    assert!((1000..1500).contains(&d));
}

#[test]
fn completion_thresholds_follow_the_table() {
    assert_eq!(determine_completion_threshold(0), 1000);
    assert_eq!(determine_completion_threshold(2), 1000);
    assert_eq!(determine_completion_threshold(3), 10);
    assert_eq!(determine_completion_threshold(6), 10);
    assert_eq!(determine_completion_threshold(7), 5);
    assert_eq!(determine_completion_threshold(15), 5);
    assert_eq!(determine_completion_threshold(16), 3);
    assert_eq!(determine_completion_threshold(25), 3);
    assert_eq!(determine_completion_threshold(26), 2);
    assert_eq!(determine_completion_threshold(40), 2);
    assert_eq!(determine_completion_threshold(41), 1);
    assert_eq!(determine_completion_threshold(100), 1);
}

#[test]
fn completion_checks_escalate() {
    // never before round 3
    assert!(!should_request_completion(1, 100, determine_completion_threshold(1)));
    assert!(!should_request_completion(2, 100, determine_completion_threshold(2)));
    // periodic by threshold
    assert!(should_request_completion(10, 100, determine_completion_threshold(10)));
    assert!(!should_request_completion(11, 100, determine_completion_threshold(11)));
    // fixed checkpoints
    assert!(should_request_completion(5, 100, determine_completion_threshold(5)));
    assert!(should_request_completion(75, 100, determine_completion_threshold(75)));
    // always from round 41 on
    assert!(should_request_completion(41, 100, determine_completion_threshold(41)));
    assert!(should_request_completion(43, 100, determine_completion_threshold(43)));
    // forced within 5 rounds of the cap
    assert!(should_request_completion(96, 100, 1000));
}

#[test]
fn next_round_options_fix_sampling_and_schema() {
    let ex = AgentExecutor::new();
    let opts = ex.next_round_options(1);
    assert_eq!(opts.temperature_milli, Some(250));
    assert_eq!(opts.top_p_milli, Some(950));
    assert_eq!(opts.max_tokens, Some(4096));
    assert!(!opts.require_tool_use);
    assert!(opts.tools.is_some());
    assert!(opts.json_schema.is_none());
    let opts = ex.next_round_options(50);
    let schema = opts.json_schema.expect("late rounds ask for a verdict");
    assert!(schema.contains("taskComplete"));
    assert!(schema.contains("finalSummary"));
}
