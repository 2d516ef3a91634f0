use axiom_assistant::ipc::verification::{
    extract_claims, select_claims, ClaimCheck, VerificationOutcome, VerificationReport,
};
use axiom_assistant::modules::deterministic::EvalError;

fn strings(items: &[&str]) -> Vec<String> {
    items.iter().map(|s| s.to_string()).collect()
}

#[test]
fn arithmetic_expressions_are_claims() {
    assert_eq!(extract_claims("25 * 4 + 100 is the result"), vec!["25 * 4 + 100"]);
    assert_eq!(extract_claims("first 1+2 then 3.5 / 7 and 8 - 9.25 * 2"), vec![
        "1+2",
        "3.5 / 7",
        "8 - 9.25 * 2"
    ]);
    // An expression shuts out the bare numbers.
    assert_eq!(extract_claims("in 1999 we had 2 + 2"), vec!["2 + 2"]);
}

#[test]
fn bare_numbers_are_claims_where_there_is_no_expression() {
    assert_eq!(extract_claims("the year 1999"), vec!["1999"]);
    assert_eq!(extract_claims("pi is 3.14, e is 2.718"), vec!["3.14", "2.718"]);
    assert_eq!(extract_claims("no claims here"), Vec::<String>::new());
    assert_eq!(extract_claims(""), Vec::<String>::new());
}

#[test]
fn at_most_five_bare_numbers() {
    assert_eq!(extract_claims("1 2 3 4 5 6 7"), vec!["1", "2", "3", "4", "5"]);
    assert_eq!(extract_claims("1 2 3 4 5"), vec!["1", "2", "3", "4", "5"]);
    assert_eq!(extract_claims("1 2 3 4"), vec!["1", "2", "3", "4"]);
}

#[test]
fn expressions_are_not_capped() {
    assert_eq!(
        extract_claims("1+1, 2+2, 3+3, 4+4, 5+5, 6+6, 7+7"),
        vec!["1+1", "2+2", "3+3", "4+4", "5+5", "6+6", "7+7"]
    );
}

#[test]
fn the_longest_match_from_the_left() {
    assert_eq!(extract_claims("1 + 2 + 3"), vec!["1 + 2 + 3"]);
    assert_eq!(extract_claims("10.5*2"), vec!["10.5*2"]);
    assert_eq!(extract_claims("1. 2"), vec!["1", "2"]);
    assert_eq!(extract_claims("1 + x 2 * 3"), vec!["2 * 3"]);
    assert_eq!(extract_claims("7 ^ 2"), vec!["7", "2"]);
}

#[test]
fn claims_from_the_outcome_of_the_searches() {
    assert_eq!(
        select_claims(Some(strings(&["1+1"])), Some(strings(&["1", "1"]))),
        vec!["1+1"]
    );
    assert_eq!(select_claims(Some(strings(&["1+1"])), None), vec!["1+1"]);
    assert_eq!(
        select_claims(Some(vec![]), Some(strings(&["1", "2", "3", "4", "5", "6"]))),
        vec!["1", "2", "3", "4", "5"]
    );
    assert_eq!(select_claims(None, Some(strings(&["9"]))), vec!["9"]);
    assert_eq!(select_claims(Some(vec![]), Some(vec![])), Vec::<String>::new());
    assert_eq!(select_claims(None, None), Vec::<String>::new());
    assert_eq!(select_claims(Some(vec![]), None), Vec::<String>::new());
}

#[test]
fn a_report_without_checks_is_empty() {
    let report = VerificationReport::new();
    assert!(report.entries().is_empty());
    assert_eq!(report.verified(), 0);
    assert_eq!(report.failed(), 0);
    assert_eq!(report.render(), "");
}

#[test]
fn a_report_counts_and_lists_its_checks() {
    let mut report = VerificationReport::new();
    report.record("2 + 2".to_string(), Ok("4".to_string()));
    assert_eq!(report.verified(), 1);
    assert_eq!(report.failed(), 0);
    assert_eq!(
        report.render(),
        "\n[Verification Results: 1 verified, 0 failed]\n✓ Claim: 2 + 2 = 4\n"
    );
    report.record(
        "3 +".to_string(),
        Err(EvalError::MathEvaluation { detail: "bad".to_string() }),
    );
    report.record("".to_string(), Err(EvalError::EmptyQuery));
    report.record("7".to_string(), Ok("7".to_string()));
    assert_eq!(report.verified(), 2);
    assert_eq!(report.failed(), 2);
    assert_eq!(report.entries().len(), 4);
    assert_eq!(
        report.entries()[1],
        ClaimCheck {
            claim: "3 +".to_string(),
            outcome: VerificationOutcome::Failed {
                reason: "Math evaluation failed: bad".to_string()
            },
        }
    );
    assert_eq!(
        report.entries()[3],
        ClaimCheck {
            claim: "7".to_string(),
            outcome: VerificationOutcome::Verified { value: "7".to_string() },
        }
    );
    assert_eq!(
        report.render(),
        "\n[Verification Results: 2 verified, 2 failed]\n\
         ✓ Claim: 2 + 2 = 4\n\
         ✗ Claim: 3 + → Error: Math evaluation failed: bad\n\
         ✗ Claim:  → Error: Query cannot be empty\n\
         ✓ Claim: 7 = 7\n"
    );
}

#[test]
fn a_report_of_failures_only() {
    let mut report = VerificationReport::new();
    report.record("x".to_string(), Err(EvalError::QueryTooLong { limit: 12 }));
    assert_eq!(
        report.render(),
        "\n[Verification Results: 0 verified, 1 failed]\n\
         ✗ Claim: x → Error: Query exceeds maximum length of 12 characters\n"
    );
}

#[test]
fn counts_of_more_than_one_digit() {
    let mut report = VerificationReport::new();
    for i in 0..12 {
        report.record(i.to_string(), Ok(i.to_string()));
    }
    let text = report.render();
    assert!(text.starts_with("\n[Verification Results: 12 verified, 0 failed]\n✓ Claim: 0 = 0\n"));
    assert!(text.ends_with("✓ Claim: 11 = 11\n"));
    assert_eq!(text.lines().count(), 14);
}
