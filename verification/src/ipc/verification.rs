//! Claims in a generated text, and the report on their verification.

use vstd::prelude::*;
use vstd::string::StringExecFns;

use crate::modules::deterministic::{EvalError, EvalFailure};
use crate::text::{decimal, decimal_string, texts};
use crate::trusted::{find_matches, regex_matches};

verus! {

/// An arithmetic expression: a number, then an operator and a number, once
/// or more, with white space allowed around each operator.
pub const EXPRESSION_PATTERN: &'static str =
    "\\d+(?:\\.\\d+)?(?:\\s*[+\\-*/]\\s*\\d+(?:\\.\\d+)?)+";

/// A number in decimal notation, with or without a fractional part.
pub const NUMBER_PATTERN: &'static str = "\\d+(?:\\.\\d+)?";

/// The most bare numbers that are taken for claims.
pub const MAX_NUMBER_CLAIMS: usize = 5;

/// The matches of a search, or none where the search could not be made.
pub open spec fn matches_or_none(found: Option<Seq<Seq<char>>>) -> Seq<Seq<char>> {
    match found {
        Some(matches) => matches,
        None => Seq::empty(),
    }
}

/// The claims chosen from the two searches: the expressions where there is
/// one, else the first few of the numbers.
pub open spec fn claims_from(
    expressions: Option<Seq<Seq<char>>>,
    numbers: Option<Seq<Seq<char>>>,
) -> Seq<Seq<char>> {
    if matches_or_none(expressions).len() > 0 {
        matches_or_none(expressions)
    } else if matches_or_none(numbers).len() > MAX_NUMBER_CLAIMS {
        matches_or_none(numbers).take(MAX_NUMBER_CLAIMS as int)
    } else {
        matches_or_none(numbers)
    }
}

/// The claims of a text, in the order in which they stand in it.
pub open spec fn claims_of(text: Seq<char>) -> Seq<Seq<char>> {
    claims_from(
        regex_matches(EXPRESSION_PATTERN@, text),
        regex_matches(NUMBER_PATTERN@, text),
    )
}

/// Where the text holds an arithmetic expression, the expressions are the
/// claims, all of them and in their order, and no bare number is one.
pub proof fn lemma_expressions_come_first(
    expressions: Seq<Seq<char>>,
    numbers: Option<Seq<Seq<char>>>,
)
    requires
        expressions.len() > 0,
    ensures
        claims_from(Some(expressions), numbers) == expressions,
{
}

/// Where the text holds no arithmetic expression, the claims are the first
/// numbers, in their order and at most `MAX_NUMBER_CLAIMS` of them.
pub proof fn lemma_numbers_are_capped(
    expressions: Option<Seq<Seq<char>>>,
    numbers: Seq<Seq<char>>,
)
    requires
        matches_or_none(expressions).len() == 0,
    ensures
        claims_from(expressions, Some(numbers)).len() <= MAX_NUMBER_CLAIMS,
        claims_from(expressions, Some(numbers)).len() <= numbers.len(),
        claims_from(expressions, Some(numbers)).len() == MAX_NUMBER_CLAIMS || claims_from(
            expressions,
            Some(numbers),
        ).len() == numbers.len(),
        forall|i: int|
            0 <= i < claims_from(expressions, Some(numbers)).len() ==> claims_from(
                expressions,
                Some(numbers),
            )[i] == numbers[i],
{
}

/// The views of the matches of a search.
pub open spec fn found_view(found: Option<Vec<String>>) -> Option<Seq<Seq<char>>> {
    match found {
        Some(matches) => Some(texts(matches@)),
        None => None,
    }
}

/// The parts of a text that can be verified on their own: its arithmetic
/// expressions, or, where it has none, its first few numbers.
pub fn extract_claims(text: &str) -> (claims: Vec<String>)
    ensures
        texts(claims@) == claims_of(text@),
{
    let expressions = find_matches(EXPRESSION_PATTERN, text);
    let has_expression = match &expressions {
        Some(matches) => matches.len() > 0,
        None => false,
    };
    let numbers = if has_expression {
        None
    } else {
        find_matches(NUMBER_PATTERN, text)
    };
    select_claims(expressions, numbers)
}

/// The claims chosen from the outcome of the two searches.
pub fn select_claims(expressions: Option<Vec<String>>, numbers: Option<Vec<String>>) -> (claims:
    Vec<String>)
    ensures
        texts(claims@) == claims_from(found_view(expressions), found_view(numbers)),
{
    match expressions {
        Some(matches) => {
            if matches.len() > 0 {
                return matches;
            }
        },
        None => {},
    }
    match numbers {
        Some(matches) => {
            let mut claims = matches;
            if claims.len() > MAX_NUMBER_CLAIMS {
                claims.truncate(MAX_NUMBER_CLAIMS);
            }
            claims
        },
        None => {
            let claims: Vec<String> = Vec::new();
            claims
        },
    }
}

/// What the verification of one claim came to.
#[derive(Debug, Clone, PartialEq, Eq)]
pub enum VerificationOutcome {
    /// The deterministic backend gave this value.
    Verified { value: String },
    /// The deterministic backend failed, for this reason.
    Failed { reason: String },
}

/// A claim and what its verification came to.
#[derive(Debug, Clone, PartialEq, Eq)]
pub struct ClaimCheck {
    pub claim: String,
    pub outcome: VerificationOutcome,
}

/// A `ClaimCheck` as contracts see it: the claim, and the value or the
/// reason of the failure.
pub struct CheckView {
    pub claim: Seq<char>,
    pub outcome: Result<Seq<char>, Seq<char>>,
}

impl View for VerificationOutcome {
    type V = Result<Seq<char>, Seq<char>>;

    open spec fn view(&self) -> Result<Seq<char>, Seq<char>> {
        match self {
            VerificationOutcome::Verified { value } => Ok(value@),
            VerificationOutcome::Failed { reason } => Err(reason@),
        }
    }
}

impl View for ClaimCheck {
    type V = CheckView;

    open spec fn view(&self) -> CheckView {
        CheckView { claim: self.claim@, outcome: self.outcome@ }
    }
}

/// The outcome of a verification for the answer of the backend: the value,
/// or the message of the failure.
pub open spec fn verdict(answer: Result<Seq<char>, EvalFailure>) -> Result<Seq<char>, Seq<char>> {
    match answer {
        Ok(value) => Ok(value),
        Err(failure) => Err(failure.message()),
    }
}

/// The views of a list of checks.
pub open spec fn check_views(checks: Seq<ClaimCheck>) -> Seq<CheckView> {
    checks.map_values(|check: ClaimCheck| check@)
}

/// How many of the checks came to a value.
pub open spec fn verified_count(checks: Seq<CheckView>) -> nat
    decreases checks.len(),
{
    if checks.len() == 0 {
        0
    } else {
        verified_count(checks.drop_last()) + if checks.last().outcome is Ok {
            1nat
        } else {
            0nat
        }
    }
}

/// How many of the checks failed.
pub open spec fn failed_count(checks: Seq<CheckView>) -> nat
    decreases checks.len(),
{
    if checks.len() == 0 {
        0
    } else {
        failed_count(checks.drop_last()) + if checks.last().outcome is Err {
            1nat
        } else {
            0nat
        }
    }
}

/// The line of the report for one check.
pub open spec fn report_line(check: CheckView) -> Seq<char> {
    match check.outcome {
        Ok(value) => "✓ Claim: "@ + check.claim + " = "@ + value + "\n"@,
        Err(reason) => "✗ Claim: "@ + check.claim + " → Error: "@ + reason + "\n"@,
    }
}

/// The lines of the report, one for each check, in order.
pub open spec fn report_lines(checks: Seq<CheckView>) -> Seq<char>
    decreases checks.len(),
{
    if checks.len() == 0 {
        Seq::empty()
    } else {
        report_lines(checks.drop_last()) + report_line(checks.last())
    }
}

/// The header of the report, which carries the two counts.
pub open spec fn report_header(verified: nat, failed: nat) -> Seq<char> {
    "\n[Verification Results: "@ + decimal(verified) + " verified, "@ + decimal(failed)
        + " failed]\n"@
}

/// The report as one text: the header and the lines, or nothing at all where
/// no claim was checked.
pub open spec fn report_text(checks: Seq<CheckView>) -> Seq<char> {
    if checks.len() == 0 {
        Seq::empty()
    } else {
        report_header(verified_count(checks), failed_count(checks)) + report_lines(checks)
    }
}

/// Every check is counted once, as verified or as failed.
pub proof fn lemma_counts_add_up(checks: Seq<CheckView>)
    ensures
        verified_count(checks) + failed_count(checks) == checks.len(),
    decreases checks.len(),
{
    if checks.len() > 0 {
        lemma_counts_add_up(checks.drop_last());
    }
}

/// The checks of a hybrid answer in order, with the count of each kind.
#[derive(Debug, Clone)]
pub struct VerificationReport {
    checks: Vec<ClaimCheck>,
    verified: usize,
    failed: usize,
}

impl VerificationReport {
    /// The checks of the report, in the order in which they were recorded.
    pub closed spec fn checks(&self) -> Seq<CheckView> {
        check_views(self.checks@)
    }

    /// The two counts that the report keeps are those of its checks.
    pub closed spec fn well_formed(&self) -> bool {
        &&& self.verified == verified_count(check_views(self.checks@))
        &&& self.failed == failed_count(check_views(self.checks@))
    }

    /// A report without checks.
    pub fn new() -> (report: Self)
        ensures
            report.well_formed(),
            report.checks() == Seq::<CheckView>::empty(),
    {
        let report = VerificationReport { checks: Vec::new(), verified: 0, failed: 0 };
        report
    }

    /// Adds the check of one claim, given the answer of the backend.
    pub fn record(&mut self, claim: String, answer: Result<String, EvalError>)
        requires
            old(self).well_formed(),
        ensures
            final(self).well_formed(),
            final(self).checks() == old(self).checks().push(
                CheckView {
                    claim: claim@,
                    outcome: verdict(crate::modules::deterministic::outcome_view(answer)),
                },
            ),
    {
        let ghost before = check_views(self.checks@);
        proof {
            lemma_counts_add_up(before);
        }
        let outcome = match answer {
            Ok(value) => VerificationOutcome::Verified { value },
            Err(error) => VerificationOutcome::Failed { reason: error.message() },
        };
        let verified = match &outcome {
            VerificationOutcome::Verified { .. } => true,
            VerificationOutcome::Failed { .. } => false,
        };
        let check = ClaimCheck { claim, outcome };
        self.checks.push(check);
        proof {
            let after = check_views(self.checks@);
            assert(after =~= before.push(check@));
            assert(after.drop_last() =~= before);
            assert(after.last() == check@);
        }
        // The two counts add up to the number of checks.
        let total = self.checks.len();
        if verified {
            self.verified = total - self.failed;
        } else {
            self.failed = total - self.verified;
        }
    }

    /// The checks, in the order in which they were recorded.
    pub fn entries(&self) -> (entries: &Vec<ClaimCheck>)
        ensures
            check_views(entries@) == self.checks(),
    {
        &self.checks
    }

    /// How many of the checks came to a value.
    pub fn verified(&self) -> (count: usize)
        requires
            self.well_formed(),
        ensures
            count == verified_count(self.checks()),
    {
        self.verified
    }

    /// How many of the checks failed.
    pub fn failed(&self) -> (count: usize)
        requires
            self.well_formed(),
        ensures
            count == failed_count(self.checks()),
    {
        self.failed
    }

    /// The report as one text.
    pub fn render(&self) -> (text: String)
        requires
            self.well_formed(),
        ensures
            text@ == report_text(self.checks()),
    {
        let mut text = String::new();
        if self.checks.len() == 0 {
            return text;
        }
        text.append("\n[Verification Results: ");
        let verified = decimal_string(self.verified);
        text.append(verified.as_str());
        text.append(" verified, ");
        let failed = decimal_string(self.failed);
        text.append(failed.as_str());
        text.append(" failed]\n");
        let ghost header = text@;
        let ghost views = check_views(self.checks@);
        let mut i: usize = 0;
        while i < self.checks.len()
            invariant
                i <= self.checks.len(),
                views == check_views(self.checks@),
                text@ == header + report_lines(views.take(i as int)),
            decreases self.checks.len() - i,
        {
            let check = &self.checks[i];
            let ghost line_start = text@;
            match &check.outcome {
                VerificationOutcome::Verified { value } => {
                    text.append("✓ Claim: ");
                    text.append(check.claim.as_str());
                    text.append(" = ");
                    text.append(value.as_str());
                    text.append("\n");
                },
                VerificationOutcome::Failed { reason } => {
                    text.append("✗ Claim: ");
                    text.append(check.claim.as_str());
                    text.append(" → Error: ");
                    text.append(reason.as_str());
                    text.append("\n");
                },
            }
            proof {
                let seen = views.take(i as int);
                let next = views.take(i + 1);
                assert(next.drop_last() =~= seen);
                assert(next.last() == views[i as int]);
                assert(views[i as int] == check@);
                assert(text@ =~= line_start + report_line(check@));
                assert(text@ =~= header + report_lines(next));
            }
            i = i + 1;
        }
        assert(views.take(self.checks.len() as int) =~= views);
        text
    }
}

} // verus!
