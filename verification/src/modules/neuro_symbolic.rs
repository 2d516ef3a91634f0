//! The intent classifier: which backend, or both, a query is routed to.

use vstd::prelude::*;

use crate::text::{chars_of, contains_any, contains_any_of, has_decimal_digit, has_digit, texts};
use crate::trusted::lowercase_of;

verus! {

/// The routing category of a query.
#[derive(Debug, Clone, Copy, PartialEq, Eq, Structural)]
pub enum Intent {
    /// Open-ended: answered by the generative backend alone.
    Creative,
    /// Arithmetic or logic: answered by the deterministic backend alone.
    Logical,
    /// Both: a generated answer followed by a verification of its claims.
    Hybrid,
}

/// The words and symbols that signal arithmetic or logic, unless a router is
/// given others.
pub open spec fn default_math_keywords() -> Seq<Seq<char>> {
    seq![
        "calculate"@,
        "solve"@,
        "prove"@,
        "verify"@,
        "compute"@,
        "="@,
        "+"@,
        "-"@,
        "*"@,
        "/"@,
        "^"@,
        "%"@,
        "math"@,
        "equation"@,
    ]
}

/// The phrases that signal an open-ended question, unless a router is given
/// others.
pub open spec fn default_creative_keywords() -> Seq<Seq<char>> {
    seq![
        "write"@,
        "suggest"@,
        "explain"@,
        "describe"@,
        "why"@,
        "how does"@,
        "what is"@,
        "tell me about"@,
        "story"@,
        "poem"@,
    ]
}

/// The decision table: the intent for each combination of the two signals.
/// Where neither signal is there, a digit in the text decides.
pub open spec fn intent_for(has_math: bool, has_creative: bool, has_digit: bool) -> Intent {
    if has_math && !has_creative {
        Intent::Logical
    } else if !has_math && has_creative {
        Intent::Creative
    } else if has_math && has_creative {
        Intent::Hybrid
    } else if has_digit {
        Intent::Hybrid
    } else {
        Intent::Creative
    }
}

/// The intent of a text that is already in lower case, for the given keyword
/// sets.
pub open spec fn intent_of(
    text: Seq<char>,
    math_keywords: Seq<Seq<char>>,
    creative_keywords: Seq<Seq<char>>,
) -> Intent {
    intent_for(
        contains_any(text, math_keywords),
        contains_any(text, creative_keywords),
        has_decimal_digit(text),
    )
}

/// Classification is a function of the texts alone: two routers with the
/// same keywords give the same query the same intent, whichever strings hold
/// those keywords, and each query has one of the three intents.
pub proof fn lemma_same_text_same_intent(
    first: NeuroSymbolicRouter,
    second: NeuroSymbolicRouter,
    query: Seq<char>,
)
    requires
        texts(first.math_keywords@) == texts(second.math_keywords@),
        texts(first.creative_keywords@) == texts(second.creative_keywords@),
    ensures
        first.spec_classify(query) == second.spec_classify(query),
        first.spec_classify(query) == Intent::Creative || first.spec_classify(query)
            == Intent::Logical || first.spec_classify(query) == Intent::Hybrid,
{
}

/// The decision table, row by row.
pub proof fn lemma_decision_table(has_math: bool, has_creative: bool, has_digit: bool)
    ensures
        has_math && !has_creative ==> intent_for(has_math, has_creative, has_digit)
            == Intent::Logical,
        !has_math && has_creative ==> intent_for(has_math, has_creative, has_digit)
            == Intent::Creative,
        has_math && has_creative ==> intent_for(has_math, has_creative, has_digit)
            == Intent::Hybrid,
        !has_math && !has_creative && has_digit ==> intent_for(has_math, has_creative, has_digit)
            == Intent::Hybrid,
        !has_math && !has_creative && !has_digit ==> intent_for(
            has_math,
            has_creative,
            has_digit,
        ) == Intent::Creative,
{
}

/// Classifies queries by the keywords they hold. The keyword sets are data:
/// `new` gives the usual ones, `with_keywords` takes any. A keyword is sought
/// in the lower-case form of the query, so it should itself be in lower case.
pub struct NeuroSymbolicRouter {
    pub math_keywords: Vec<String>,
    pub creative_keywords: Vec<String>,
}

impl NeuroSymbolicRouter {
    /// The intent this router gives to a query.
    pub open spec fn spec_classify(&self, query: Seq<char>) -> Intent {
        intent_of(lowercase_of(query), texts(self.math_keywords@), texts(self.creative_keywords@))
    }

    /// A router with the usual keyword sets.
    pub fn new() -> (router: Self)
        ensures
            texts(router.math_keywords@) == default_math_keywords(),
            texts(router.creative_keywords@) == default_creative_keywords(),
    {
        let math_keywords: Vec<String> = vec![
            "calculate".to_owned(),
            "solve".to_owned(),
            "prove".to_owned(),
            "verify".to_owned(),
            "compute".to_owned(),
            "=".to_owned(),
            "+".to_owned(),
            "-".to_owned(),
            "*".to_owned(),
            "/".to_owned(),
            "^".to_owned(),
            "%".to_owned(),
            "math".to_owned(),
            "equation".to_owned(),
        ];
        let creative_keywords: Vec<String> = vec![
            "write".to_owned(),
            "suggest".to_owned(),
            "explain".to_owned(),
            "describe".to_owned(),
            "why".to_owned(),
            "how does".to_owned(),
            "what is".to_owned(),
            "tell me about".to_owned(),
            "story".to_owned(),
            "poem".to_owned(),
        ];
        NeuroSymbolicRouter { math_keywords, creative_keywords }
    }

    /// A router with keyword sets of the caller's choice.
    pub fn with_keywords(math_keywords: Vec<String>, creative_keywords: Vec<String>) -> (router:
        Self)
        ensures
            router.math_keywords == math_keywords,
            router.creative_keywords == creative_keywords,
    {
        NeuroSymbolicRouter { math_keywords, creative_keywords }
    }

    /// The intent of a query. The query is put in lower case and then
    /// classified by `classify_normalized`.
    pub fn classify_intent(&self, query: &str) -> (intent: Intent)
        ensures
            intent == self.spec_classify(query@),
    {
        let lower = query.to_lowercase();
        self.classify_normalized(lower.as_str())
    }

    /// The intent of a text taken as it stands: whether it holds a math
    /// keyword, whether it holds a creative keyword, and, where it holds
    /// neither, whether it holds a digit.
    pub fn classify_normalized(&self, text: &str) -> (intent: Intent)
        ensures
            intent == intent_of(
                text@,
                texts(self.math_keywords@),
                texts(self.creative_keywords@),
            ),
    {
        let chars = chars_of(text);
        let has_math = contains_any_of(&chars, &self.math_keywords);
        let has_creative = contains_any_of(&chars, &self.creative_keywords);
        match (has_math, has_creative) {
            (true, false) => Intent::Logical,
            (false, true) => Intent::Creative,
            (true, true) => Intent::Hybrid,
            (false, false) => {
                if has_digit(&chars) {
                    Intent::Hybrid
                } else {
                    Intent::Creative
                }
            },
        }
    }
}

} // verus!
