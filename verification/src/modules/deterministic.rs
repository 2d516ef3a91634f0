//! The deterministic backend: arithmetic by an expression evaluator, and a
//! small table of logic proofs.

use vstd::prelude::*;
use vstd::string::StringExecFns;

use crate::text::{
    byte_length, char_in, chars_of, contains, contains_any, contains_any_of, contains_text,
    decimal, decimal_string, has_any_of, is_decimal_digit, is_digit, is_one_of, parse_bool,
    parse_usize, parsed_bool, parsed_usize, string_of, texts, utf8_len,
};
use crate::trusted::{
    eval_number, evalexpr_number, lowercase_of, platform_rounded, unchecked_builtins,
    unicode_alphanumeric, unicode_whitespace, MAX_EXPRESSION_CHARS,
};

verus! {

/// The longest query, in bytes, that a module takes unless it is told otherwise.
pub const DEFAULT_MAX_QUERY_LENGTH: usize = 10000;

/// Punctuation that a query keeps when it is sanitized.
pub const SAFE_PUNCTUATION: &'static str = "+-*/^%().=:,_[]";

/// The arithmetic operators: one of them makes a query a math query.
pub const MATH_OPERATORS: &'static str = "+-*/^%";

/// Punctuation that may stand in a bare number.
pub const NUMBER_PUNCTUATION: &'static str = "().";

/// The proof that answers a query on ancestors.
pub const ANCESTOR_PROOF: &'static str =
    "% Query: ancestor(X, Y)\n\
     % Rule: ancestor(X, Y) :- parent(X, Y).\n\
     % Rule: ancestor(X, Y) :- parent(X, Z), ancestor(Z, Y).\n\
     % Fact: parent(zeus, hercules).\n\
     % Proof: ancestor(zeus, hercules) by parent(zeus, hercules).\n\
     % Result: true";

/// The proof that answers a query on membership in a list.
pub const MEMBER_PROOF: &'static str =
    "% Query: member(X, List)\n\
     % Rule: member(X, [X|_]).\n\
     % Rule: member(X, [_|T]) :- member(X, T).\n\
     % Result: deterministic traversal";

/// The answer to a query that is neither arithmetic nor logic.
pub const NOT_RECOGNIZED: &'static str = "[deterministic: query type not recognized]";

/// What stands before the query in the answer to a logic query for which
/// the table has no proof.
pub const NO_RULE_PREFIX: &'static str = "[deterministic: no matching logic rule for '";

/// What stands behind the query in that answer.
pub const NO_RULE_SUFFIX: &'static str = "']";

/// Why an expression that holds the name of an unchecked function fails.
pub const UNSUPPORTED_FUNCTION: &'static str =
    "the expression names a function that is not supported";

/// Why an expression that is too long for the evaluator fails.
pub const EXPRESSION_TOO_LONG: &'static str = "the expression is too long";

/// Why the deterministic backend gave no result.
#[derive(Debug, Clone, PartialEq, Eq)]
pub enum EvalError {
    /// The query was empty.
    EmptyQuery,
    /// The query was longer than the module's limit, which is given.
    QueryTooLong { limit: usize },
    /// Nothing was left of the query after it was sanitized.
    NoValidCharacters,
    /// The evaluator refused the expression; `detail` says why.
    MathEvaluation { detail: String },
}

/// An `EvalError` as contracts see it.
pub enum EvalFailure {
    EmptyQuery,
    QueryTooLong { limit: usize },
    NoValidCharacters,
    MathEvaluation { detail: Seq<char> },
}

impl View for EvalError {
    type V = EvalFailure;

    open spec fn view(&self) -> EvalFailure {
        match self {
            EvalError::EmptyQuery => EvalFailure::EmptyQuery,
            EvalError::QueryTooLong { limit } => EvalFailure::QueryTooLong { limit: *limit },
            EvalError::NoValidCharacters => EvalFailure::NoValidCharacters,
            EvalError::MathEvaluation { detail } => EvalFailure::MathEvaluation { detail: detail@ },
        }
    }
}

impl EvalFailure {
    /// The message that tells a reader of the failure.
    pub open spec fn message(self) -> Seq<char> {
        match self {
            EvalFailure::EmptyQuery => "Query cannot be empty"@,
            EvalFailure::QueryTooLong { limit } => "Query exceeds maximum length of "@ + decimal(
                limit as nat,
            ) + " characters"@,
            EvalFailure::NoValidCharacters => "Query contains no valid characters"@,
            EvalFailure::MathEvaluation { detail } => "Math evaluation failed: "@ + detail,
        }
    }
}

impl EvalError {
    /// The message that tells a reader of the failure.
    pub fn message(&self) -> (text: String)
        ensures
            text@ == self@.message(),
    {
        match self {
            EvalError::EmptyQuery => "Query cannot be empty".to_owned(),
            EvalError::QueryTooLong { limit } => {
                let mut text = "Query exceeds maximum length of ".to_owned();
                let number = decimal_string(*limit);
                text.append(number.as_str());
                text.append(" characters");
                text
            },
            EvalError::NoValidCharacters => "Query contains no valid characters".to_owned(),
            EvalError::MathEvaluation { detail } => {
                let mut text = "Math evaluation failed: ".to_owned();
                text.append(detail.as_str());
                text
            },
        }
    }
}

/// What a call of the backend came to, as contracts see it.
pub open spec fn outcome_view(outcome: Result<String, EvalError>) -> Result<
    Seq<char>,
    EvalFailure,
> {
    match outcome {
        Ok(text) => Ok(text@),
        Err(error) => Err(error@),
    }
}

/// A character that a sanitized query keeps: a letter or a digit of any
/// script, white space, or safe punctuation.
pub open spec fn is_safe_char(c: char) -> bool {
    unicode_alphanumeric(c) || unicode_whitespace(c) || is_one_of(c, SAFE_PUNCTUATION@)
}

/// `is_safe_char` as a predicate to filter by.
pub open spec fn safe_chars() -> spec_fn(char) -> bool {
    |c: char| is_safe_char(c)
}

/// A query without the characters that are not safe.
pub open spec fn sanitized(query: Seq<char>) -> Seq<char> {
    query.filter(safe_chars())
}

/// A character that may stand in a bare number: a decimal digit, white
/// space, a parenthesis or a point.
pub open spec fn is_number_char(c: char) -> bool {
    is_decimal_digit(c) || unicode_whitespace(c) || is_one_of(c, NUMBER_PUNCTUATION@)
}

/// A text is taken for arithmetic where it holds an arithmetic operator, or
/// holds nothing but the characters of a bare number.
pub open spec fn is_math_text(text: Seq<char>) -> bool {
    has_any_of(text, MATH_OPERATORS@) || forall|i: int|
        0 <= i < text.len() ==> is_number_char(#[trigger] text[i])
}

/// The words that make a query a logic query.
pub open spec fn logic_keywords() -> Seq<Seq<char>> {
    seq!["ancestor"@, "parent"@, "member"@, "append"@, "rule"@, "fact"@]
}

/// A text is taken for logic where its lower-case form, given as `lower`,
/// holds a logic keyword, or the text itself holds `:-` or `?-`.
pub open spec fn is_logic_text(text: Seq<char>, lower: Seq<char>) -> bool {
    contains_any(lower, logic_keywords()) || contains_text(text, ":-"@) || contains_text(
        text,
        "?-"@,
    )
}

/// The answer to a logic query: the proof for the first relation it names,
/// or a note that no rule matches.
pub open spec fn logic_answer(query: Seq<char>) -> Seq<char> {
    if contains_text(query, "ancestor"@) {
        ANCESTOR_PROOF@
    } else if contains_text(query, "member"@) {
        MEMBER_PROOF@
    } else {
        NO_RULE_PREFIX@ + query + NO_RULE_SUFFIX@
    }
}

/// What the backend makes of the evaluator's outcome: the number as it
/// stands, or the evaluator's message as the detail of a failure.
pub open spec fn math_outcome(evaluated: Result<Seq<char>, Seq<char>>) -> Result<
    Seq<char>,
    EvalFailure,
> {
    match evaluated {
        Ok(value) => Ok(value),
        Err(message) => Err(EvalFailure::MathEvaluation { detail: message }),
    }
}

/// What the text of a query says of its answer: the answer itself, or
/// nothing where the answer is for the platform to round.
pub type Known = Option<Result<Seq<char>, EvalFailure>>;

/// Whether an answer is as much as is known of it. An answer of which
/// nothing is known is still a value or a failure of the evaluator.
pub open spec fn agrees(answer: Result<Seq<char>, EvalFailure>, known: Known) -> bool {
    match known {
        Some(expected) => answer == expected,
        None => answer is Ok || answer->Err_0 is MathEvaluation,
    }
}

/// What is known of the answer to an arithmetic query. An expression of
/// more than `MAX_EXPRESSION_CHARS` characters is not handed to the
/// evaluator, nor one that holds the name of a built-in function that can
/// panic.
pub open spec fn math_answer(expression: Seq<char>) -> Known {
    if expression.len() > MAX_EXPRESSION_CHARS {
        Some(Err(EvalFailure::MathEvaluation { detail: EXPRESSION_TOO_LONG@ }))
    } else if contains_any(expression, unchecked_builtins()) {
        Some(Err(EvalFailure::MathEvaluation { detail: UNSUPPORTED_FUNCTION@ }))
    } else if platform_rounded(expression) {
        None
    } else {
        Some(math_outcome(evalexpr_number(expression)))
    }
}

/// What is known of the answer to a query that has passed validation and
/// has been sanitized.
pub open spec fn routed_answer(text: Seq<char>) -> Known {
    if is_math_text(text) {
        math_answer(text)
    } else if is_logic_text(text, lowercase_of(text)) {
        Some(Ok(logic_answer(text)))
    } else {
        Some(Ok(NOT_RECOGNIZED@))
    }
}

/// What is known of the answer of a backend that takes queries of up to
/// `limit` bytes.
pub open spec fn logic_outcome(query: Seq<char>, limit: usize) -> Known {
    if query.len() == 0 {
        Some(Err(EvalFailure::EmptyQuery))
    } else if utf8_len(query) > limit {
        Some(Err(EvalFailure::QueryTooLong { limit }))
    } else if sanitized(query).len() == 0 {
        Some(Err(EvalFailure::NoValidCharacters))
    } else {
        routed_answer(sanitized(query))
    }
}

/// The settings of the deterministic backend.
#[derive(Debug, Clone)]
pub struct DetConfig {
    /// Whether a Prolog engine is to be used. None is attached: the module
    /// answers from its table either way.
    pub enable_prolog: bool,
    /// The longest query that is taken, in bytes.
    pub max_query_length: usize,
}

/// The deterministic backend.
pub struct DeterministicModule {
    pub config: DetConfig,
}

impl DeterministicModule {
    /// A module with the given settings, each as the text in which it was
    /// configured. A setting that is absent or cannot be read takes its
    /// default: no Prolog, and `DEFAULT_MAX_QUERY_LENGTH`.
    pub fn init_deterministic_module(
        enable_prolog: Option<&str>,
        max_query_length: Option<&str>,
    ) -> (module: Self)
        ensures
            module.config.enable_prolog == match enable_prolog {
                Some(text) => match parsed_bool(text@) {
                    Some(flag) => flag,
                    None => false,
                },
                None => false,
            },
            module.config.max_query_length == match max_query_length {
                Some(text) => match parsed_usize(text@) {
                    Some(limit) => limit,
                    None => DEFAULT_MAX_QUERY_LENGTH,
                },
                None => DEFAULT_MAX_QUERY_LENGTH,
            },
    {
        let enable_prolog = match enable_prolog {
            Some(text) => match parse_bool(text) {
                Some(flag) => flag,
                None => false,
            },
            None => false,
        };
        let max_query_length = match max_query_length {
            Some(text) => match parse_usize(text) {
                Some(limit) => limit,
                None => DEFAULT_MAX_QUERY_LENGTH,
            },
            None => DEFAULT_MAX_QUERY_LENGTH,
        };
        DeterministicModule { config: DetConfig { enable_prolog, max_query_length } }
    }

    /// Answers a query: arithmetic by the evaluator, logic from the table.
    /// The query is validated and sanitized first.
    pub fn execute_logic(&self, query: &str) -> (outcome: Result<String, EvalError>)
        ensures
            agrees(outcome_view(outcome), logic_outcome(query@, self.config.max_query_length)),
    {
        if query.is_empty() {
            return Err(EvalError::EmptyQuery);
        }
        if byte_length(query) > self.config.max_query_length {
            return Err(EvalError::QueryTooLong { limit: self.config.max_query_length });
        }
        let sanitized_query = match self.sanitize_query(query) {
            Ok(text) => text,
            Err(error) => {
                return Err(error);
            },
        };
        let text = sanitized_query.as_str();
        if looks_like_math(text) {
            self.execute_math(text)
        } else if looks_like_logic(text) {
            Ok(self.execute_prolog(text))
        } else {
            Ok(NOT_RECOGNIZED.to_owned())
        }
    }

    /// Drops from a query every character that is not safe. A query of
    /// which nothing is left is refused.
    pub fn sanitize_query(&self, query: &str) -> (outcome: Result<String, EvalError>)
        ensures
            outcome_view(outcome) == if sanitized(query@).len() == 0 {
                Err::<Seq<char>, EvalFailure>(EvalFailure::NoValidCharacters)
            } else {
                Ok::<Seq<char>, EvalFailure>(sanitized(query@))
            },
    {
        let chars = chars_of(query);
        let punctuation = chars_of(SAFE_PUNCTUATION);
        let mut kept: Vec<char> = Vec::new();
        let mut i: usize = 0;
        while i < chars.len()
            invariant
                i <= chars.len(),
                punctuation@ == SAFE_PUNCTUATION@,
                kept@ == chars@.take(i as int).filter(safe_chars()),
            decreases chars.len() - i,
        {
            let c = chars[i];
            proof {
                assert(chars@.take(i + 1) =~= chars@.take(i as int).push(c));
                chars@.take(i as int).lemma_filter_push(c, safe_chars());
            }
            if is_kept(c, c.is_alphanumeric(), c.is_whitespace(), &punctuation) {
                kept.push(c);
            }
            i = i + 1;
        }
        proof {
            assert(chars@.take(chars.len() as int) =~= chars@);
            reveal(Seq::filter);
            assert(Seq::<char>::empty().filter(safe_chars()) =~= Seq::<char>::empty());
        }
        if kept.len() == 0 {
            return Err(EvalError::NoValidCharacters);
        }
        Ok(string_of(&kept))
    }

    /// Evaluates an arithmetic expression.
    pub fn execute_math(&self, query: &str) -> (outcome: Result<String, EvalError>)
        ensures
            agrees(outcome_view(outcome), math_answer(query@)),
    {
        let chars = chars_of(query);
        if chars.len() > MAX_EXPRESSION_CHARS {
            return Err(EvalError::MathEvaluation { detail: EXPRESSION_TOO_LONG.to_owned() });
        }
        let unchecked: Vec<String> = vec![
            "math::abs".to_owned(),
            "shl".to_owned(),
            "shr".to_owned(),
            "str::substring".to_owned(),
        ];
        assert(texts(unchecked@) =~= unchecked_builtins());
        if contains_any_of(&chars, &unchecked) {
            return Err(EvalError::MathEvaluation { detail: UNSUPPORTED_FUNCTION.to_owned() });
        }
        math_result(eval_number(query))
    }

    /// Answers a logic query from the table of proofs.
    pub fn execute_prolog(&self, query: &str) -> (answer: String)
        ensures
            answer@ == logic_answer(query@),
    {
        let chars = chars_of(query);
        if contains(&chars, "ancestor") {
            return ANCESTOR_PROOF.to_owned();
        }
        if contains(&chars, "member") {
            return MEMBER_PROOF.to_owned();
        }
        let mut answer = NO_RULE_PREFIX.to_owned();
        answer.append(query);
        answer.append(NO_RULE_SUFFIX);
        answer
    }
}

/// Whether a sanitized query keeps a character, given what Unicode says of
/// the character and which punctuation is safe.
pub fn is_kept(c: char, alphanumeric: bool, whitespace: bool, punctuation: &Vec<char>) -> (kept:
    bool)
    ensures
        kept == (alphanumeric || whitespace || is_one_of(c, punctuation@)),
{
    alphanumeric || whitespace || char_in(c, punctuation)
}

/// Whether a character may stand in a bare number, given whether it is
/// white space and which punctuation a number may hold.
pub fn is_number_part(c: char, whitespace: bool, punctuation: &Vec<char>) -> (part: bool)
    ensures
        part == (is_decimal_digit(c) || whitespace || is_one_of(c, punctuation@)),
{
    is_digit(c) || whitespace || char_in(c, punctuation)
}

/// What the backend makes of the evaluator's outcome.
pub fn math_result(evaluated: Result<String, String>) -> (outcome: Result<String, EvalError>)
    ensures
        outcome_view(outcome) == math_outcome(
            match evaluated {
                Ok(value) => Ok(value@),
                Err(message) => Err(message@),
            },
        ),
{
    match evaluated {
        Ok(value) => Ok(value),
        Err(message) => Err(EvalError::MathEvaluation { detail: message }),
    }
}

/// Whether a text is taken for arithmetic.
pub fn looks_like_math(s: &str) -> (math: bool)
    ensures
        math == is_math_text(s@),
{
    let chars = chars_of(s);
    let operators = chars_of(MATH_OPERATORS);
    let punctuation = chars_of(NUMBER_PUNCTUATION);
    let mut plain = true;
    let mut i: usize = 0;
    while i < chars.len()
        invariant
            i <= chars.len(),
            chars@ == s@,
            operators@ == MATH_OPERATORS@,
            punctuation@ == NUMBER_PUNCTUATION@,
            forall|j: int| 0 <= j < i ==> !is_one_of(#[trigger] chars@[j], MATH_OPERATORS@),
            plain == forall|j: int| 0 <= j < i ==> is_number_char(#[trigger] chars@[j]),
        decreases chars.len() - i,
    {
        let c = chars[i];
        if char_in(c, &operators) {
            return true;
        }
        if !is_number_part(c, c.is_whitespace(), &punctuation) {
            plain = false;
        }
        i = i + 1;
    }
    plain
}

/// Whether a text is taken for logic.
pub fn looks_like_logic(s: &str) -> (logic: bool)
    ensures
        logic == is_logic_text(s@, lowercase_of(s@)),
{
    let lower = s.to_lowercase();
    logic_signal(s, lower.as_str())
}

/// Whether a text is taken for logic, given its lower-case form.
pub fn logic_signal(text: &str, lower: &str) -> (logic: bool)
    ensures
        logic == is_logic_text(text@, lower@),
{
    let keywords: Vec<String> = vec![
        "ancestor".to_owned(),
        "parent".to_owned(),
        "member".to_owned(),
        "append".to_owned(),
        "rule".to_owned(),
        "fact".to_owned(),
    ];
    assert(texts(keywords@) =~= logic_keywords());
    let lower_chars = chars_of(lower);
    if contains_any_of(&lower_chars, &keywords) {
        return true;
    }
    let chars = chars_of(text);
    contains(&chars, ":-") || contains(&chars, "?-")
}

/// The kind of a request to the deterministic backend.
#[derive(Debug, Clone, Copy, PartialEq, Eq, Structural)]
pub enum QueryType {
    Math,
    Logic,
    Code,
}

/// A request to the deterministic backend, as it goes over a wire.
#[derive(Debug, Clone)]
pub struct DetRequest {
    pub query_type: QueryType,
    pub query: String,
}

/// An answer of the deterministic backend, as it goes over a wire.
#[derive(Debug, Clone)]
pub struct DetResponse {
    pub result: String,
    pub proof: Option<Vec<String>>,
    pub deterministic: bool,
}

} // verus!
