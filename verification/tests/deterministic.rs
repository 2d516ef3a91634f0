use axiom_assistant::modules::deterministic::{
    logic_signal, looks_like_logic, looks_like_math, math_result, EvalError, ANCESTOR_PROOF,
    DEFAULT_MAX_QUERY_LENGTH, MEMBER_PROOF,
};
use axiom_assistant::modules::DeterministicModule;

fn module() -> DeterministicModule {
    DeterministicModule::init_deterministic_module(None, None)
}

#[test]
fn test_deterministic_module_initialization() {
    let module = DeterministicModule::init_deterministic_module(None, None);
    assert!(!module.config.enable_prolog);
    assert_eq!(module.config.max_query_length, 10000);
    assert_eq!(DEFAULT_MAX_QUERY_LENGTH, 10000);
}

#[test]
fn test_deterministic_math_evaluation() {
    let module = DeterministicModule::init_deterministic_module(None, None);

    // Test basic arithmetic
    let result = module.execute_logic("2 + 2").expect("Math evaluation failed");
    assert_eq!(result, "4");

    // Test multiplication
    let result = module.execute_logic("5 * 10").expect("Math evaluation failed");
    assert_eq!(result, "50");
}

#[test]
fn backend_settings_are_read_from_text() {
    let module = DeterministicModule::init_deterministic_module(Some("true"), Some("500"));
    assert!(module.config.enable_prolog);
    assert_eq!(module.config.max_query_length, 500);
    let module = DeterministicModule::init_deterministic_module(Some("false"), Some("+7"));
    assert!(!module.config.enable_prolog);
    assert_eq!(module.config.max_query_length, 7);
    let module = DeterministicModule::init_deterministic_module(Some("yes"), Some("many"));
    assert!(!module.config.enable_prolog);
    assert_eq!(module.config.max_query_length, 10000);
    let module = DeterministicModule::init_deterministic_module(Some("TRUE"), Some(""));
    assert!(!module.config.enable_prolog);
    assert_eq!(module.config.max_query_length, 10000);
}

#[test]
fn arithmetic_in_the_evaluators_own_notation() {
    let module = module();
    assert_eq!(module.execute_logic("2 * (3 + 4)"), Ok("14".to_string()));
    assert_eq!(module.execute_logic("10 / 4"), Ok("2".to_string()));
    assert_eq!(module.execute_logic("10 % 3"), Ok("1".to_string()));
    assert_eq!(module.execute_logic("1.5 + 1"), Ok("2.5".to_string()));
    assert_eq!(module.execute_logic("0.1 + 0.2"), Ok("0.30000000000000004".to_string()));
    assert_eq!(module.execute_logic("1.0 / 3"), Ok("0.3333333333333333".to_string()));
    assert_eq!(module.execute_logic("7"), Ok("7".to_string()));
    assert_eq!(module.execute_logic("(3)"), Ok("3".to_string()));
}

#[test]
fn an_empty_query_is_refused() {
    let error = module().execute_logic("").unwrap_err();
    assert_eq!(error, EvalError::EmptyQuery);
    assert_eq!(error.message(), "Query cannot be empty");
}

#[test]
fn a_query_over_the_limit_is_refused() {
    let module = DeterministicModule::init_deterministic_module(None, Some("5"));
    assert_eq!(module.execute_logic("1 + 1"), Ok("2".to_string()));
    let error = module.execute_logic("1 + 11").unwrap_err();
    assert_eq!(error, EvalError::QueryTooLong { limit: 5 });
    assert_eq!(error.message(), "Query exceeds maximum length of 5 characters");
    // The limit counts bytes: this query has five characters and six bytes.
    assert_eq!(module.execute_logic("é + 1"), Err(EvalError::QueryTooLong { limit: 5 }));
}

#[test]
fn the_usual_limit_is_ten_thousand_bytes() {
    let module = module();
    let at_limit = "a".repeat(10000);
    assert_eq!(
        module.execute_logic(&at_limit),
        Ok("[deterministic: query type not recognized]".to_string())
    );
    let over = "a".repeat(10001);
    let error = module.execute_logic(&over).unwrap_err();
    assert_eq!(error, EvalError::QueryTooLong { limit: 10000 });
    assert_eq!(error.message(), "Query exceeds maximum length of 10000 characters");
}

#[test]
fn a_query_without_a_safe_character_is_refused() {
    let error = module().execute_logic("!!!").unwrap_err();
    assert_eq!(error, EvalError::NoValidCharacters);
    assert_eq!(error.message(), "Query contains no valid characters");
}

#[test]
fn sanitizing_keeps_letters_digits_space_and_safe_punctuation() {
    let module = module();
    assert_eq!(module.sanitize_query("2 + 2?"), Ok("2 + 2".to_string()));
    assert_eq!(
        module.sanitize_query("a+b-c*d/e^f%g(h).i=j:k,l_m[n]"),
        Ok("a+b-c*d/e^f%g(h).i=j:k,l_m[n]".to_string())
    );
    assert_eq!(module.sanitize_query("<a>&\"b\";{c}|d!e@f#g$h"), Ok("abcdefgh".to_string()));
    assert_eq!(module.sanitize_query("é\t٣\n"), Ok("é\t٣\n".to_string()));
    assert_eq!(module.sanitize_query("?!"), Err(EvalError::NoValidCharacters));
    assert_eq!(module.sanitize_query(""), Err(EvalError::NoValidCharacters));
    assert_eq!(module.execute_logic("2 + 2?"), Ok("4".to_string()));
}

#[test]
fn a_failure_of_the_evaluator_is_reported() {
    let error = module().execute_logic("3 +").unwrap_err();
    assert_eq!(
        error,
        EvalError::MathEvaluation {
            detail: "An operator expected 2 arguments, but got 1.".to_string()
        }
    );
    assert_eq!(
        error.message(),
        "Math evaluation failed: An operator expected 2 arguments, but got 1."
    );
    let error = module().execute_logic("Calculate 10 + 5").unwrap_err();
    assert_eq!(
        error.message(),
        "Math evaluation failed: Function identifier is not bound to anything by context: \"Calculate\"."
    );
}

#[test]
fn unchecked_functions_are_not_evaluated() {
    let module = module();
    for query in [
        "shl(1, 64) + 1",
        "shr(1, 64) + 1",
        "math::abs(-3) + 1",
        "1 + ashlar",
        "1 + len(str::substring(str::from(123), 1, 2))",
    ] {
        let error = module.execute_logic(query).unwrap_err();
        assert_eq!(
            error.message(),
            "Math evaluation failed: the expression names a function that is not supported",
            "{}",
            query
        );
    }
    assert_eq!(module.execute_logic("math::sqrt(16) + 1"), Ok("5".to_string()));
}

#[test]
fn a_long_expression_is_not_evaluated() {
    let module = module();
    let mut fits = String::from("1");
    while fits.len() + 2 <= 256 {
        fits.push_str("+1");
    }
    assert_eq!(fits.len(), 255);
    assert_eq!(module.execute_logic(&fits), Ok("128".to_string()));
    let exactly = format!("{} ", fits);
    assert_eq!(exactly.len(), 256);
    assert_eq!(module.execute_logic(&exactly), Ok("128".to_string()));
    let over = format!("{}+1", fits);
    assert_eq!(over.len(), 257);
    let error = module.execute_logic(&over).unwrap_err();
    assert_eq!(error.message(), "Math evaluation failed: the expression is too long");
    let deep = "-".repeat(5000) + "1";
    let error = module.execute_logic(&deep).unwrap_err();
    assert_eq!(error.message(), "Math evaluation failed: the expression is too long");
    let deep = "-".repeat(255) + "1";
    assert_eq!(module.execute_logic(&deep), Ok("-1".to_string()));
}

#[test]
fn what_the_backend_makes_of_the_evaluators_outcome() {
    assert_eq!(math_result(Ok("4".to_string())), Ok("4".to_string()));
    assert_eq!(
        math_result(Err("no".to_string())),
        Err(EvalError::MathEvaluation { detail: "no".to_string() })
    );
}

#[test]
fn logic_queries_are_answered_from_the_table() {
    let module = module();
    assert_eq!(module.execute_logic("ancestor(zeus, X)"), Ok(ANCESTOR_PROOF.to_string()));
    assert_eq!(module.execute_logic("member(a, b)"), Ok(MEMBER_PROOF.to_string()));
    assert_eq!(
        module.execute_logic("parent of x"),
        Ok("[deterministic: no matching logic rule for 'parent of x']".to_string())
    );
    assert_eq!(
        module.execute_logic("Member of what"),
        Ok("[deterministic: no matching logic rule for 'Member of what']".to_string())
    );
    assert_eq!(module.execute_prolog("an ancestor and a member"), ANCESTOR_PROOF);
    assert_eq!(module.execute_prolog("a member"), MEMBER_PROOF);
    assert_eq!(module.execute_prolog("x"), "[deterministic: no matching logic rule for 'x']");
}

#[test]
fn the_proofs_line_by_line() {
    let lines: Vec<&str> = ANCESTOR_PROOF.split('\n').collect();
    assert_eq!(
        lines,
        vec![
            "% Query: ancestor(X, Y)",
            "% Rule: ancestor(X, Y) :- parent(X, Y).",
            "% Rule: ancestor(X, Y) :- parent(X, Z), ancestor(Z, Y).",
            "% Fact: parent(zeus, hercules).",
            "% Proof: ancestor(zeus, hercules) by parent(zeus, hercules).",
            "% Result: true",
        ]
    );
    let lines: Vec<&str> = MEMBER_PROOF.split('\n').collect();
    assert_eq!(
        lines,
        vec![
            "% Query: member(X, List)",
            "% Rule: member(X, [X|_]).",
            "% Rule: member(X, [_|T]) :- member(X, T).",
            "% Result: deterministic traversal",
        ]
    );
}

#[test]
fn a_query_of_neither_kind_is_not_recognized() {
    assert_eq!(
        module().execute_logic("hello"),
        Ok("[deterministic: query type not recognized]".to_string())
    );
}

#[test]
fn what_is_taken_for_arithmetic() {
    assert!(looks_like_math("1 + 1"));
    assert!(looks_like_math("a-b"));
    assert!(looks_like_math("50%"));
    assert!(looks_like_math("(3.5)"));
    assert!(looks_like_math(" 12 "));
    assert!(looks_like_math(""));
    assert!(!looks_like_math("abc"));
    assert!(!looks_like_math("12a"));
    assert!(!looks_like_math("1,2"));
    assert!(!looks_like_math("٣"));
}

#[test]
fn what_is_taken_for_logic() {
    assert!(looks_like_logic("the ancestor"));
    assert!(looks_like_logic("PARENT"));
    assert!(looks_like_logic("Append it"));
    assert!(looks_like_logic("a rule"));
    assert!(looks_like_logic("a Fact"));
    assert!(looks_like_logic("x :- y"));
    assert!(looks_like_logic("?- x"));
    assert!(!looks_like_logic("hello"));
    assert!(!looks_like_logic(""));
    assert!(logic_signal("X", "member"));
    assert!(!logic_signal("member", "X"));
    assert!(logic_signal("a:-b", ""));
}
