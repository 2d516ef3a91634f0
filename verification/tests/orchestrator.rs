use axiom_assistant::ipc::orchestrator::{
    check_admission, compose, draft_failure_token, logical_token, Dispatch, Orchestrator,
    OrchestratorStats, OrchestratorStatsSnapshot, ResponseStream, ValidationError,
};
use axiom_assistant::modules::deterministic::EvalError;
use axiom_assistant::modules::neuro_symbolic::Intent;
use axiom_assistant::modules::probabilistic::{GenError, TokenStream};
use axiom_assistant::modules::{DeterministicModule, NeuroSymbolicRouter, ProbabilisticModule};

fn orchestrator() -> Orchestrator {
    let prob = ProbabilisticModule::load_local_llm(None, None, None, None);
    let det = DeterministicModule::init_deterministic_module(None, None);
    let router = NeuroSymbolicRouter::new();
    Orchestrator::new(prob, det, router)
}

fn snapshot(total: u64, creative: u64, logical: u64, hybrid: u64) -> OrchestratorStatsSnapshot {
    OrchestratorStatsSnapshot {
        queries_processed: total,
        creative_queries: creative,
        logical_queries: logical,
        hybrid_queries: hybrid,
    }
}

#[test]
fn test_orchestrator_initialization() {
    let prob = ProbabilisticModule::load_local_llm(None, None, None, None);
    let det = DeterministicModule::init_deterministic_module(None, None);
    let router = NeuroSymbolicRouter::new();

    let orchestrator = Orchestrator::new(prob, det, router);
    assert_eq!(orchestrator.max_query_length, 50000);
    assert_eq!(orchestrator.get_stats(), snapshot(0, 0, 0, 0));
}

#[test]
fn test_orchestrator_creative_query() {
    let mut orchestrator = orchestrator();

    let mut stream = orchestrator.process_query("Explain something");
    let mut token_count = 0;

    while let Some(_token) = stream.next_token() {
        token_count += 1;
        if token_count > 100 {
            break; // Prevent infinite loop
        }
    }

    assert!(token_count > 0, "Should stream at least one token");
    assert_eq!(token_count, 3);
    assert_eq!(
        orchestrator.process_query("Explain something").collect(),
        vec!["Explain ", "something ", "\n"]
    );
}

#[test]
fn a_logical_query_is_answered_by_one_token() {
    let mut orchestrator = orchestrator();
    let tokens = orchestrator.process_query("2 + 2").collect();
    assert_eq!(tokens, vec!["4"]);
    let expected = orchestrator.det_module.execute_logic("2 + 2").unwrap();
    assert_eq!(tokens, vec![expected]);
    assert_eq!(orchestrator.process_query("Solve 6 * 7 - 2").collect(), vec![
        "[deterministic error] Math evaluation failed: Function identifier is not bound to anything by context: \"Solve\"."
    ]);
    assert_eq!(orchestrator.process_query("10 - 2.5").collect(), vec!["7.5"]);
}

#[test]
fn a_failure_of_the_backend_is_a_token_too() {
    let mut orchestrator = orchestrator();
    assert_eq!(
        orchestrator.process_query("3 +").collect(),
        vec!["[deterministic error] Math evaluation failed: An operator expected 2 arguments, but got 1."]
    );
    assert_eq!(orchestrator.handle_logical("").collect(), vec!["[deterministic error] Query cannot be empty"]);
    assert_eq!(orchestrator.get_stats(), snapshot(1, 0, 1, 0));
}

#[test]
fn the_token_of_a_logical_answer() {
    assert_eq!(logical_token(Ok("42".to_string())), "42");
    assert_eq!(logical_token(Ok("".to_string())), "");
    assert_eq!(
        logical_token(Err(EvalError::NoValidCharacters)),
        "[deterministic error] Query contains no valid characters"
    );
    assert_eq!(
        logical_token(Err(EvalError::MathEvaluation { detail: "x".to_string() })),
        "[deterministic error] Math evaluation failed: x"
    );
}

#[test]
fn a_hybrid_answer_is_the_stream_and_then_the_report() {
    let mut orchestrator = orchestrator();
    let query = "what is 2 + 2";
    let tokens = orchestrator.process_query(query).collect();
    assert_eq!(
        tokens,
        vec![
            "what ",
            "is ",
            "2 ",
            "+ ",
            "2 ",
            "\n",
            "\n[Verification Results: 1 verified, 0 failed]\n✓ Claim: 2 + 2 = 4\n",
        ]
    );
    let stream = orchestrator.prob_module.stream_tokens(query).collect();
    assert_eq!(tokens.len(), stream.len() + 1);
    assert_eq!(&tokens[..stream.len()], &stream[..]);
    assert!(tokens.last().unwrap().starts_with("\n[Verification Results: "));
    assert_eq!(orchestrator.get_stats(), snapshot(1, 0, 0, 1));
}

#[test]
fn the_report_is_on_the_claims_of_the_draft() {
    let mut orchestrator = orchestrator();
    // The draft holds no expression, so its first numbers are the claims:
    // the one of the query and the two of the line on the settings.
    assert_eq!(
        orchestrator.process_query("explain 42 and calculate").collect(),
        vec![
            "explain ",
            "42 ",
            "and ",
            "calculate ",
            "\n",
            "\n[Verification Results: 3 verified, 0 failed]\n\
             ✓ Claim: 42 = 42\n\
             ✓ Claim: 0.7 = 0.7\n\
             ✓ Claim: 2048 = 2048\n",
        ]
    );
    assert_eq!(
        orchestrator.verify_draft("it is 1 + 1 or 5 / 0 or 2 * 3.5"),
        "\n[Verification Results: 2 verified, 1 failed]\n\
         ✓ Claim: 1 + 1 = 2\n\
         ✗ Claim: 5 / 0 → Error: Math evaluation failed: Error dividing 5 / 0\n\
         ✓ Claim: 2 * 3.5 = 7\n"
    );
    assert_eq!(orchestrator.verify_draft("nothing to check"), "");
}

#[test]
fn where_inference_fails_a_token_stands_in_for_the_report() {
    let mut orchestrator = orchestrator();
    let query = format!("solve and explain {}", "x ".repeat(5000));
    assert!(query.len() > 10000);
    let tokens = orchestrator.process_query(&query).collect();
    let stream = orchestrator.prob_module.stream_tokens(&query).collect();
    assert_eq!(stream.len(), 5004);
    assert_eq!(tokens.len(), stream.len() + 1);
    assert_eq!(&tokens[..stream.len()], &stream[..]);
    assert_eq!(
        tokens.last().unwrap(),
        "[error] Failed to process hybrid query: Prompt exceeds maximum length of 10000 characters"
    );
    assert_eq!(
        draft_failure_token(GenError::EmptyPrompt),
        "[error] Failed to process hybrid query: Prompt cannot be empty"
    );
    assert_eq!(
        draft_failure_token(GenError::PromptTooLong { limit: 7 }),
        "[error] Failed to process hybrid query: Prompt exceeds maximum length of 7 characters"
    );
}

#[test]
fn composing_puts_the_tail_last() {
    let primary = TokenStream::over(vec!["a".to_string(), "b".to_string()]);
    assert_eq!(compose(primary, "c".to_string()).collect(), vec!["a ", "b ", "\n", "c"]);
    assert_eq!(compose(TokenStream::over(vec![]), "c".to_string()).collect(), vec!["\n", "c"]);
    assert_eq!(ResponseStream::single("only".to_string()).collect(), vec!["only"]);
    assert_eq!(
        ResponseStream::streamed(TokenStream::over(vec!["x".to_string()])).collect(),
        vec!["x ", "\n"]
    );
}

#[test]
fn the_tail_is_held_back_until_the_stream_has_ended() {
    let mut response = orchestrator().handle_hybrid("1 + 1");
    assert!(!response.is_complete());
    assert_eq!(response.next_token(), Some("1 ".to_string()));
    assert_eq!(response.next_token(), Some("+ ".to_string()));
    assert_eq!(response.next_token(), Some("1 ".to_string()));
    assert_eq!(response.next_token(), Some("\n".to_string()));
    assert!(!response.is_complete());
    assert_eq!(
        response.next_token(),
        Some("\n[Verification Results: 1 verified, 0 failed]\n✓ Claim: 1 + 1 = 2\n".to_string())
    );
    assert!(response.is_complete());
    assert_eq!(response.next_token(), None);
    assert_eq!(response.next_token(), None);
    assert!(response.is_complete());
}

#[test]
fn an_answer_can_be_left_unread() {
    let mut orchestrator = orchestrator();
    let mut response = orchestrator.process_query("tell me about the sea");
    assert_eq!(response.next_token(), Some("tell ".to_string()));
    assert!(!response.is_complete());
    drop(response);
    // The next query is answered as if the first had been read to its end.
    assert_eq!(orchestrator.process_query("a poem").collect(), vec!["a ", "poem ", "\n"]);
    assert_eq!(orchestrator.get_stats(), snapshot(2, 2, 0, 0));
}

#[test]
fn what_is_left_of_an_answer_can_be_collected() {
    let mut response = orchestrator().handle_hybrid("7");
    assert_eq!(response.next_token(), Some("7 ".to_string()));
    let rest = response.collect();
    assert_eq!(rest.len(), 2);
    assert_eq!(rest[0], "\n");
    assert!(rest[1].starts_with("\n[Verification Results: 3 verified, 0 failed]\n✓ Claim: 7 = 7\n"));
}

#[test]
fn the_handlers_answer_each_in_its_mode() {
    let orchestrator = orchestrator();
    assert_eq!(orchestrator.handle_creative("2 + 2").collect(), vec!["2 ", "+ ", "2 ", "\n"]);
    assert_eq!(orchestrator.handle_logical("2 + 2").collect(), vec!["4"]);
    assert_eq!(
        orchestrator.handle_hybrid("2 + 2").collect(),
        vec![
            "2 ",
            "+ ",
            "2 ",
            "\n",
            "\n[Verification Results: 1 verified, 0 failed]\n✓ Claim: 2 + 2 = 4\n"
        ]
    );
    assert_eq!(
        orchestrator.handle_hybrid("").collect(),
        vec!["\n", "[error] Failed to process hybrid query: Prompt cannot be empty"]
    );
    assert_eq!(orchestrator.get_stats(), snapshot(0, 0, 0, 0));
}

#[test]
fn snapshots_are_the_same_until_a_query_is_processed() {
    let mut orchestrator = orchestrator();
    assert_eq!(orchestrator.get_stats(), orchestrator.get_stats());
    orchestrator.process_query("Explain something");
    let first = orchestrator.get_stats();
    let second = orchestrator.get_stats();
    assert_eq!(first, second);
    assert_eq!(first, snapshot(1, 1, 0, 0));
}

#[test]
fn each_query_counts_once_under_its_intent() {
    let mut orchestrator = orchestrator();
    orchestrator.process_query("Explain something");
    assert_eq!(orchestrator.get_stats(), snapshot(1, 1, 0, 0));
    orchestrator.process_query("2 + 2");
    assert_eq!(orchestrator.get_stats(), snapshot(2, 1, 1, 0));
    orchestrator.process_query("what is 2 + 2");
    assert_eq!(orchestrator.get_stats(), snapshot(3, 1, 1, 1));
    orchestrator.process_query("calculate 1");
    assert_eq!(orchestrator.get_stats(), snapshot(4, 1, 2, 1));
    orchestrator.process_query("42");
    assert_eq!(orchestrator.get_stats(), snapshot(5, 1, 2, 2));
    let before = orchestrator.get_stats();
    assert_eq!(orchestrator.dispatch("a poem"), Dispatch::Routed(Intent::Creative));
    let after = orchestrator.get_stats();
    assert_eq!(after.queries_processed, before.queries_processed + 1);
    assert_eq!(after.creative_queries, before.creative_queries + 1);
    assert_eq!(after.logical_queries, before.logical_queries);
    assert_eq!(after.hybrid_queries, before.hybrid_queries);
}

#[test]
fn counters_of_two_orchestrators_are_apart() {
    let mut first = orchestrator();
    let second = orchestrator();
    first.process_query("2 + 2");
    assert_eq!(first.get_stats(), snapshot(1, 0, 1, 0));
    assert_eq!(second.get_stats(), snapshot(0, 0, 0, 0));
}

#[test]
fn a_full_counter_starts_again() {
    let mut stats = OrchestratorStats::default();
    stats.queries_processed = u64::MAX;
    stats.logical_queries = 3;
    stats.record(Intent::Logical);
    assert_eq!(stats.queries_processed, 0);
    assert_eq!(stats.logical_queries, 4);
    assert_eq!(stats.creative_queries, 0);
    assert_eq!(stats.hybrid_queries, 0);
    stats.record(Intent::Creative);
    stats.record(Intent::Hybrid);
    stats.record(Intent::Hybrid);
    assert_eq!(stats.queries_processed, 3);
    assert_eq!(stats.creative_queries, 1);
    assert_eq!(stats.hybrid_queries, 2);
}

#[test]
fn an_empty_query_is_turned_away() {
    let mut orchestrator = orchestrator();
    assert_eq!(orchestrator.process_query("").collect(), vec!["[error] Query cannot be empty"]);
    assert_eq!(orchestrator.process_query("   ").collect(), vec!["[error] Query cannot be empty"]);
    assert_eq!(orchestrator.process_query("\t\n\u{a0}").collect(), vec!["[error] Query cannot be empty"]);
    assert_eq!(orchestrator.dispatch(""), Dispatch::Rejected(ValidationError::EmptyQuery));
    assert_eq!(orchestrator.get_stats(), snapshot(0, 0, 0, 0));
}

#[test]
fn the_limit_on_length_is_inclusive() {
    let mut orchestrator = orchestrator();
    let at_limit = "a".repeat(50000);
    let tokens = orchestrator.process_query(&at_limit).collect();
    assert_eq!(tokens, vec![format!("{} ", at_limit), "\n".to_string()]);
    assert_eq!(orchestrator.get_stats(), snapshot(1, 1, 0, 0));

    let over = "a".repeat(50001);
    assert_eq!(orchestrator.process_query(&over).collect(), vec!["[error] Query exceeds maximum length"]);
    assert_eq!(orchestrator.dispatch(&over), Dispatch::Rejected(ValidationError::QueryTooLong));
    // Nothing was counted, so no backend was asked.
    assert_eq!(orchestrator.get_stats(), snapshot(1, 1, 0, 0));
}

#[test]
fn the_limit_counts_characters() {
    let mut orchestrator = orchestrator();
    orchestrator.max_query_length = 3;
    assert_eq!(orchestrator.process_query("ééé").collect(), vec!["ééé ", "\n"]);
    assert_eq!(orchestrator.process_query("éééé").collect(), vec!["[error] Query exceeds maximum length"]);
    assert_eq!(orchestrator.process_query("    ").collect(), vec!["[error] Query exceeds maximum length"]);
    assert_eq!(orchestrator.process_query("   ").collect(), vec!["[error] Query cannot be empty"]);
}

#[test]
fn admission_by_length_and_blankness() {
    assert_eq!(check_admission(0, true, 10), Some(ValidationError::EmptyQuery));
    assert_eq!(check_admission(5, true, 10), Some(ValidationError::EmptyQuery));
    assert_eq!(check_admission(5, false, 10), None);
    assert_eq!(check_admission(10, false, 10), None);
    assert_eq!(check_admission(11, false, 10), Some(ValidationError::QueryTooLong));
    assert_eq!(check_admission(11, true, 10), Some(ValidationError::QueryTooLong));
    assert_eq!(check_admission(0, true, 0), Some(ValidationError::EmptyQuery));
    assert_eq!(ValidationError::EmptyQuery.token(), "[error] Query cannot be empty");
    assert_eq!(ValidationError::QueryTooLong.token(), "[error] Query exceeds maximum length");
}

#[test]
fn dispatch_by_intent() {
    let mut orchestrator = orchestrator();
    assert_eq!(orchestrator.dispatch("Calculate 2 + 2"), Dispatch::Routed(Intent::Logical));
    assert_eq!(orchestrator.dispatch("Explain it"), Dispatch::Routed(Intent::Creative));
    assert_eq!(orchestrator.dispatch("Explain 2 + 2"), Dispatch::Routed(Intent::Hybrid));
    assert_eq!(orchestrator.get_stats(), snapshot(3, 1, 1, 1));
}
