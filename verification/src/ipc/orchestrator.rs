//! The orchestrator: it validates a query, classifies it, counts it, and
//! composes the answer of the backends into one sequence of tokens.

use vstd::prelude::*;
use vstd::string::StringExecFns;

use crate::ipc::verification::{
    claims_of, extract_claims, report_text, verdict, CheckView, VerificationReport,
};
use crate::modules::deterministic::{
    logic_outcome, outcome_view, DeterministicModule, EvalError, EvalFailure, Known,
};
use crate::modules::neuro_symbolic::{Intent, NeuroSymbolicRouter};
use crate::modules::probabilistic::{stream_texts, GenError, ProbabilisticModule, TokenStream};
use crate::text::{all_whitespace, chars_of, is_blank, texts};

verus! {

/// The longest query, in characters, that an orchestrator takes unless it is
/// told otherwise.
pub const DEFAULT_MAX_QUERY_CHARS: usize = 50000;

/// The answer to a query that is empty or blank.
pub const EMPTY_QUERY_TOKEN: &'static str = "[error] Query cannot be empty";

/// The answer to a query that is too long.
pub const QUERY_TOO_LONG_TOKEN: &'static str = "[error] Query exceeds maximum length";

/// The tag before the message of a failure of the deterministic backend.
pub const DETERMINISTIC_ERROR_PREFIX: &'static str = "[deterministic error] ";

/// The tag before the message of a failure of the inference.
pub const HYBRID_ERROR_PREFIX: &'static str = "[error] Failed to process hybrid query: ";

/// Why a query was turned away before it reached a backend.
#[derive(Debug, Clone, Copy, PartialEq, Eq, Structural)]
pub enum ValidationError {
    /// The query was empty, or white space and nothing else.
    EmptyQuery,
    /// The query had more characters than the orchestrator takes.
    QueryTooLong,
}

impl ValidationError {
    /// The token that tells the caller of the rejection.
    pub open spec fn spec_token(self) -> Seq<char> {
        match self {
            ValidationError::EmptyQuery => EMPTY_QUERY_TOKEN@,
            ValidationError::QueryTooLong => QUERY_TOO_LONG_TOKEN@,
        }
    }

    /// The token that tells the caller of the rejection.
    pub fn token(&self) -> (text: String)
        ensures
            text@ == self.spec_token(),
    {
        match self {
            ValidationError::EmptyQuery => EMPTY_QUERY_TOKEN.to_owned(),
            ValidationError::QueryTooLong => QUERY_TOO_LONG_TOKEN.to_owned(),
        }
    }
}

/// What the orchestrator decided to do with a query.
#[derive(Debug, Clone, Copy, PartialEq, Eq, Structural)]
pub enum Dispatch {
    /// The query was turned away; no backend is called.
    Rejected(ValidationError),
    /// The query goes to the backends of this intent.
    Routed(Intent),
}

/// Whether a query of the given length is turned away, and why: a query
/// over the limit as too long, a blank one as empty.
pub open spec fn admission(length: nat, blank: bool, limit: usize) -> Option<ValidationError> {
    if length > limit {
        Some(ValidationError::QueryTooLong)
    } else if blank {
        Some(ValidationError::EmptyQuery)
    } else {
        None
    }
}

/// Whether a query is turned away by an orchestrator that takes up to
/// `limit` characters.
pub open spec fn validation(query: Seq<char>, limit: usize) -> Option<ValidationError> {
    admission(query.len(), is_blank(query), limit)
}

/// Whether a query of `length` characters is turned away, given whether it is
/// blank.
pub fn check_admission(length: usize, blank: bool, limit: usize) -> (rejection: Option<
    ValidationError,
>)
    ensures
        rejection == admission(length as nat, blank, limit),
{
    if length > limit {
        Some(ValidationError::QueryTooLong)
    } else if blank {
        Some(ValidationError::EmptyQuery)
    } else {
        None
    }
}

/// How many queries an orchestrator has processed, in all and by intent. A
/// rejected query is not counted. A counter that is full starts again at
/// zero.
#[derive(Debug)]
pub struct OrchestratorStats {
    pub queries_processed: u64,
    pub creative_queries: u64,
    pub logical_queries: u64,
    pub hybrid_queries: u64,
}

/// The counters of an orchestrator as they stood at one moment.
#[derive(Debug, Clone, Copy, PartialEq, Eq, Structural)]
pub struct OrchestratorStatsSnapshot {
    pub queries_processed: u64,
    pub creative_queries: u64,
    pub logical_queries: u64,
    pub hybrid_queries: u64,
}

/// A counter after one more query.
pub open spec fn bumped(count: u64) -> u64 {
    if count == u64::MAX {
        0
    } else {
        (count + 1) as u64
    }
}

/// The counters after a query of the given intent was processed.
pub open spec fn stats_after(stats: OrchestratorStats, intent: Intent) -> OrchestratorStats {
    OrchestratorStats {
        queries_processed: bumped(stats.queries_processed),
        creative_queries: if intent == Intent::Creative {
            bumped(stats.creative_queries)
        } else {
            stats.creative_queries
        },
        logical_queries: if intent == Intent::Logical {
            bumped(stats.logical_queries)
        } else {
            stats.logical_queries
        },
        hybrid_queries: if intent == Intent::Hybrid {
            bumped(stats.hybrid_queries)
        } else {
            stats.hybrid_queries
        },
    }
}

/// The counters after a query was dispatched: a rejected query leaves them
/// as they were.
pub open spec fn stats_after_dispatch(
    stats: OrchestratorStats,
    dispatch: Dispatch,
) -> OrchestratorStats {
    match dispatch {
        Dispatch::Rejected(_) => stats,
        Dispatch::Routed(intent) => stats_after(stats, intent),
    }
}

impl Default for OrchestratorStats {
    fn default() -> (stats: Self)
        ensures
            stats.queries_processed == 0,
            stats.creative_queries == 0,
            stats.logical_queries == 0,
            stats.hybrid_queries == 0,
    {
        OrchestratorStats {
            queries_processed: 0,
            creative_queries: 0,
            logical_queries: 0,
            hybrid_queries: 0,
        }
    }
}

impl OrchestratorStats {
    /// The counters as a snapshot.
    pub open spec fn spec_snapshot(&self) -> OrchestratorStatsSnapshot {
        OrchestratorStatsSnapshot {
            queries_processed: self.queries_processed,
            creative_queries: self.creative_queries,
            logical_queries: self.logical_queries,
            hybrid_queries: self.hybrid_queries,
        }
    }

    /// Counts one query of the given intent.
    pub fn record(&mut self, intent: Intent)
        ensures
            *final(self) == stats_after(*old(self), intent),
    {
        self.queries_processed = self.queries_processed.wrapping_add(1);
        match intent {
            Intent::Creative => {
                self.creative_queries = self.creative_queries.wrapping_add(1);
            },
            Intent::Logical => {
                self.logical_queries = self.logical_queries.wrapping_add(1);
            },
            Intent::Hybrid => {
                self.hybrid_queries = self.hybrid_queries.wrapping_add(1);
            },
        }
    }
}

/// The single token of a logical answer: the result as it stands, or the
/// failure's message behind a tag.
pub open spec fn logical_token_text(answer: Result<Seq<char>, EvalFailure>) -> Seq<char> {
    match answer {
        Ok(value) => value,
        Err(failure) => DETERMINISTIC_ERROR_PREFIX@ + failure.message(),
    }
}

/// The single token of a logical answer, as far as the answer is known.
pub open spec fn logical_token_known(answer: Known) -> Option<Seq<char>> {
    match answer {
        Some(outcome) => Some(logical_token_text(outcome)),
        None => None,
    }
}

/// The checks of the given claims by a backend that takes queries of up to
/// `limit` bytes: one for each claim, in the order of the claims. They are
/// known where the answer to every claim is.
pub open spec fn checks_for(claims: Seq<Seq<char>>, limit: usize) -> Option<Seq<CheckView>>
    decreases claims.len(),
{
    if claims.len() == 0 {
        Some(Seq::empty())
    } else {
        match (checks_for(claims.drop_last(), limit), logic_outcome(claims.last(), limit)) {
            (Some(front), Some(answer)) => Some(
                front.push(CheckView { claim: claims.last(), outcome: verdict(answer) }),
            ),
            _ => None,
        }
    }
}

/// The checks are those of the given claims, one for each and in their
/// order, whatever they came to.
pub open spec fn checks_cover(checks: Seq<CheckView>, claims: Seq<Seq<char>>) -> bool {
    &&& checks.len() == claims.len()
    &&& forall|i: int| 0 <= i < checks.len() ==> (#[trigger] checks[i]).claim == claims[i]
}

/// The verification report on a draft, where the checks are known.
pub open spec fn verification_text(draft: Seq<char>, limit: usize) -> Option<Seq<char>> {
    match checks_for(claims_of(draft), limit) {
        Some(checks) => Some(report_text(checks)),
        None => None,
    }
}

/// The token that stands in for the report where no draft could be had.
pub open spec fn draft_failure_text(error: GenError) -> Seq<char> {
    HYBRID_ERROR_PREFIX@ + error.spec_message()
}

/// The last token of a hybrid answer, as far as it is known: the
/// verification report on the draft, or, where inference failed, the failure
/// behind a tag.
pub open spec fn hybrid_tail_text(draft: Result<Seq<char>, GenError>, limit: usize) -> Option<
    Seq<char>,
> {
    match draft {
        Ok(text) => verification_text(text, limit),
        Err(error) => Some(draft_failure_text(error)),
    }
}

/// What follows the generative stream in an answer, as far as the query
/// tells.
pub enum Tail {
    /// Nothing follows.
    Absent,
    /// This token follows.
    Token(Seq<char>),
    /// One token follows; its text is for the platform to round.
    Open,
}

/// An answer as far as the query tells: the tokens of the generative stream,
/// and what follows them.
pub struct Expected {
    pub primary: Seq<Seq<char>>,
    pub tail: Tail,
}

/// The tail for a token that is known or not.
pub open spec fn tail_of(token: Option<Seq<char>>) -> Tail {
    match token {
        Some(text) => Tail::Token(text),
        None => Tail::Open,
    }
}

/// The single token of a logical answer.
pub fn logical_token(answer: Result<String, EvalError>) -> (token: String)
    ensures
        token@ == logical_token_text(outcome_view(answer)),
{
    match answer {
        Ok(value) => value,
        Err(error) => {
            let mut token = DETERMINISTIC_ERROR_PREFIX.to_owned();
            let message = error.message();
            token.append(message.as_str());
            token
        },
    }
}

/// The token that stands in for the report where no draft could be had.
pub fn draft_failure_token(error: GenError) -> (token: String)
    ensures
        token@ == draft_failure_text(error),
{
    let mut token = HYBRID_ERROR_PREFIX.to_owned();
    let message = error.message();
    token.append(message.as_str());
    token
}

/// The answer to one query as a sequence of tokens: finite, read once from
/// front to back. It is a pipeline of two stages. The first is the stream of
/// the generative backend, which may be absent; the second is one token that
/// is held back until the first has been read to its end.
pub struct ResponseStream {
    primary: Option<TokenStream>,
    tail: Option<String>,
}

impl ResponseStream {
    /// The tokens of the generative stream that are still to come.
    pub closed spec fn primary(&self) -> Seq<Seq<char>> {
        match self.primary {
            Some(stream) => stream.remaining(),
            None => Seq::empty(),
        }
    }

    /// The token that follows the generative stream, while it is held back.
    pub closed spec fn tail(&self) -> Option<Seq<char>> {
        match self.tail {
            Some(token) => Some(token@),
            None => None,
        }
    }

    /// How many tokens the generative backend has been asked for so far.
    pub closed spec fn generated(&self) -> nat {
        match self.primary {
            Some(stream) => stream.produced(),
            None => 0,
        }
    }

    /// All the tokens that are still to come, in their order: those of the
    /// generative stream, then the one that follows it.
    pub open spec fn remaining(&self) -> Seq<Seq<char>> {
        match self.tail() {
            Some(token) => self.primary().push(token),
            None => self.primary(),
        }
    }

    /// Whether the answer, unread as yet, is what was to be expected.
    pub open spec fn fulfils(&self, expected: Expected) -> bool {
        &&& self.primary() == expected.primary
        &&& match expected.tail {
            Tail::Absent => self.tail() is None,
            Tail::Token(text) => self.tail() == Some(text),
            Tail::Open => self.tail() is Some,
        }
    }

    /// An answer of one token.
    pub fn single(token: String) -> (response: Self)
        ensures
            response.primary() == Seq::<Seq<char>>::empty(),
            response.tail() == Some(token@),
            response.generated() == 0,
    {
        ResponseStream { primary: None, tail: Some(token) }
    }

    /// An answer that is a generative stream and nothing else.
    pub fn streamed(primary: TokenStream) -> (response: Self)
        ensures
            response.primary() == primary.remaining(),
            response.tail() is None,
            response.generated() == primary.produced(),
    {
        ResponseStream { primary: Some(primary), tail: None }
    }

    /// The next token, if there is one: the next of the generative stream
    /// while that has one, then the token that follows it, then nothing. The
    /// generative backend is asked for a token by this call and by no other.
    pub fn next_token(&mut self) -> (token: Option<String>)
        ensures
            old(self).primary().len() > 0 ==> {
                &&& token matches Some(text)
                &&& text@ == old(self).primary()[0]
                &&& final(self).primary() == old(self).primary().drop_first()
                &&& final(self).tail() == old(self).tail()
                &&& final(self).generated() == old(self).generated() + 1
            },
            old(self).primary().len() == 0 ==> {
                &&& final(self).primary() == old(self).primary()
                &&& final(self).tail() is None
                &&& final(self).generated() == old(self).generated()
                &&& match token {
                    Some(text) => old(self).tail() == Some(text@),
                    None => old(self).tail() is None,
                }
            },
    {
        match &mut self.primary {
            Some(stream) => match stream.next_token() {
                Some(token) => {
                    return Some(token);
                },
                None => {},
            },
            None => {},
        }
        self.tail.take()
    }

    /// Whether every token has been read.
    pub fn is_complete(&self) -> (complete: bool)
        ensures
            complete == (self.remaining().len() == 0),
    {
        let streaming = match &self.primary {
            Some(stream) => !stream.is_exhausted(),
            None => false,
        };
        !streaming && self.tail.is_none()
    }

    /// All the tokens that are still to come.
    pub fn collect(self) -> (tokens: Vec<String>)
        ensures
            texts(tokens@) == self.remaining(),
    {
        let mut response = self;
        let mut tokens: Vec<String> = Vec::new();
        loop
            invariant
                texts(tokens@) + response.remaining() == self.remaining(),
            decreases response.remaining().len(),
        {
            match response.next_token() {
                Some(token) => {
                    tokens.push(token);
                },
                None => {
                    return tokens;
                },
            }
        }
    }
}

/// One answer from a generative stream and the token that follows it: every
/// token of the stream in its order, then the tail.
pub fn compose(primary: TokenStream, tail: String) -> (response: ResponseStream)
    ensures
        response.primary() == primary.remaining(),
        response.tail() == Some(tail@),
        response.generated() == primary.produced(),
{
    ResponseStream { primary: Some(primary), tail: Some(tail) }
}

/// Routes queries to the generative backend, the deterministic backend, or
/// both, and keeps count.
pub struct Orchestrator {
    pub prob_module: ProbabilisticModule,
    pub det_module: DeterministicModule,
    pub router: NeuroSymbolicRouter,
    pub stats: OrchestratorStats,
    /// The longest query that is taken, in characters.
    pub max_query_length: usize,
}

impl Orchestrator {
    /// What this orchestrator decides to do with a query.
    pub open spec fn spec_dispatch(&self, query: Seq<char>) -> Dispatch {
        match validation(query, self.max_query_length) {
            Some(error) => Dispatch::Rejected(error),
            None => Dispatch::Routed(self.router.spec_classify(query)),
        }
    }

    /// The token of a logical answer to a query, as far as it is known.
    pub open spec fn logical_answer(&self, query: Seq<char>) -> Option<Seq<char>> {
        logical_token_known(logic_outcome(query, self.det_module.config.max_query_length))
    }

    /// The last token of a hybrid answer to a query, as far as it is known.
    pub open spec fn hybrid_tail(&self, query: Seq<char>) -> Option<Seq<char>> {
        hybrid_tail_text(
            self.prob_module.spec_infer(query),
            self.det_module.config.max_query_length,
        )
    }

    /// The answer to a query of the given intent.
    pub open spec fn answer(&self, intent: Intent, query: Seq<char>) -> Expected {
        match intent {
            Intent::Creative => Expected { primary: stream_texts(query), tail: Tail::Absent },
            Intent::Logical => Expected {
                primary: Seq::empty(),
                tail: tail_of(self.logical_answer(query)),
            },
            Intent::Hybrid => Expected {
                primary: stream_texts(query),
                tail: tail_of(self.hybrid_tail(query)),
            },
        }
    }

    /// The whole answer to a query.
    pub open spec fn spec_response(&self, query: Seq<char>) -> Expected {
        match self.spec_dispatch(query) {
            Dispatch::Rejected(error) => Expected {
                primary: Seq::empty(),
                tail: Tail::Token(error.spec_token()),
            },
            Dispatch::Routed(intent) => self.answer(intent, query),
        }
    }

    /// An orchestrator over the given modules, with all counters at zero and
    /// the usual limit on the length of a query.
    pub fn new(
        prob: ProbabilisticModule,
        det: DeterministicModule,
        router: NeuroSymbolicRouter,
    ) -> (orchestrator: Self)
        ensures
            orchestrator.prob_module == prob,
            orchestrator.det_module == det,
            orchestrator.router == router,
            orchestrator.stats.queries_processed == 0,
            orchestrator.stats.creative_queries == 0,
            orchestrator.stats.logical_queries == 0,
            orchestrator.stats.hybrid_queries == 0,
            orchestrator.max_query_length == DEFAULT_MAX_QUERY_CHARS,
    {
        Orchestrator {
            prob_module: prob,
            det_module: det,
            router,
            stats: OrchestratorStats::default(),
            max_query_length: DEFAULT_MAX_QUERY_CHARS,
        }
    }

    /// Answers a query with the sequence of its output tokens, which the
    /// caller reads one by one. A query that is turned away is answered by
    /// one token that says why, and is not counted.
    pub fn process_query(&mut self, query: &str) -> (response: ResponseStream)
        ensures
            response.fulfils(old(self).spec_response(query@)),
            response.generated() == 0,
            final(self).stats == stats_after_dispatch(
                old(self).stats,
                old(self).spec_dispatch(query@),
            ),
            final(self).prob_module == old(self).prob_module,
            final(self).det_module == old(self).det_module,
            final(self).router == old(self).router,
            final(self).max_query_length == old(self).max_query_length,
    {
        match self.dispatch(query) {
            Dispatch::Rejected(error) => ResponseStream::single(error.token()),
            Dispatch::Routed(Intent::Creative) => self.handle_creative(query),
            Dispatch::Routed(Intent::Logical) => self.handle_logical(query),
            Dispatch::Routed(Intent::Hybrid) => self.handle_hybrid(query),
        }
    }

    /// Validates a query, classifies it and counts it.
    pub fn dispatch(&mut self, query: &str) -> (dispatch: Dispatch)
        ensures
            dispatch == old(self).spec_dispatch(query@),
            final(self).stats == stats_after_dispatch(old(self).stats, dispatch),
            final(self).prob_module == old(self).prob_module,
            final(self).det_module == old(self).det_module,
            final(self).router == old(self).router,
            final(self).max_query_length == old(self).max_query_length,
    {
        let chars = chars_of(query);
        let blank = all_whitespace(&chars);
        match check_admission(chars.len(), blank, self.max_query_length) {
            Some(error) => Dispatch::Rejected(error),
            None => {
                let intent = self.router.classify_intent(query);
                self.stats.record(intent);
                Dispatch::Routed(intent)
            },
        }
    }

    /// The answer to a creative query: the tokens of the generative stream,
    /// one for one and in their order.
    pub fn handle_creative(&self, query: &str) -> (response: ResponseStream)
        ensures
            response.fulfils(self.answer(Intent::Creative, query@)),
            response.generated() == 0,
    {
        ResponseStream::streamed(self.prob_module.stream_tokens(query))
    }

    /// The answer to a logical query: one token, the result of the
    /// deterministic backend or its failure behind a tag.
    pub fn handle_logical(&self, query: &str) -> (response: ResponseStream)
        ensures
            response.fulfils(self.answer(Intent::Logical, query@)),
            response.generated() == 0,
    {
        ResponseStream::single(logical_token(self.det_module.execute_logic(query)))
    }

    /// The answer to a hybrid query: the tokens of the generative stream,
    /// then one token more, which holds the verification report on the full
    /// draft, or the failure of the inference behind a tag. The last token
    /// is ready before the first is read, and is held back until the stream
    /// has been read to its end.
    pub fn handle_hybrid(&self, query: &str) -> (response: ResponseStream)
        ensures
            response.fulfils(self.answer(Intent::Hybrid, query@)),
            response.generated() == 0,
    {
        let primary = self.prob_module.stream_tokens(query);
        let tail = match self.prob_module.infer(query) {
            Ok(draft) => self.verify_draft(draft.as_str()),
            Err(error) => draft_failure_token(error),
        };
        compose(primary, tail)
    }

    /// Checks every claim of a draft with the deterministic backend and
    /// renders the report. The report covers the claims of the draft, one
    /// check for each and in their order; where the answers to the claims
    /// are known, it is the report on those answers.
    pub fn verify_draft(&self, draft: &str) -> (report: String)
        ensures
            exists|checks: Seq<CheckView>|
                checks_cover(checks, claims_of(draft@)) && report@ == report_text(checks),
            verification_text(draft@, self.det_module.config.max_query_length) matches Some(text)
                ==> report@ == text,
    {
        let claims = extract_claims(draft);
        let ghost limit = self.det_module.config.max_query_length;
        let mut report = VerificationReport::new();
        let mut i: usize = 0;
        while i < claims.len()
            invariant
                i <= claims.len(),
                limit == self.det_module.config.max_query_length,
                report.well_formed(),
                checks_cover(report.checks(), texts(claims@).take(i as int)),
                checks_for(texts(claims@).take(i as int), limit) matches Some(checks)
                    ==> report.checks() == checks,
            decreases claims.len() - i,
        {
            let claim = claims[i].clone();
            let answer = self.det_module.execute_logic(claim.as_str());
            proof {
                let next = texts(claims@).take(i + 1);
                assert(next.drop_last() =~= texts(claims@).take(i as int));
                assert(next.last() == claim@);
            }
            report.record(claim, answer);
            i = i + 1;
        }
        assert(texts(claims@).take(claims.len() as int) =~= texts(claims@));
        assert(checks_cover(report.checks(), claims_of(draft@)));
        report.render()
    }

    /// The counters as they stand.
    pub fn get_stats(&self) -> (snapshot: OrchestratorStatsSnapshot)
        ensures
            snapshot == self.stats.spec_snapshot(),
    {
        OrchestratorStatsSnapshot {
            queries_processed: self.stats.queries_processed,
            creative_queries: self.stats.creative_queries,
            logical_queries: self.stats.logical_queries,
            hybrid_queries: self.stats.hybrid_queries,
        }
    }
}

/// In the answer to a hybrid query every token of the generative stream
/// stands, in the stream's order, before the one token that follows it: the
/// verification report, or the token that stands in for it.
pub proof fn lemma_hybrid_stream_precedes_report(
    orchestrator: Orchestrator,
    query: Seq<char>,
    response: ResponseStream,
)
    requires
        orchestrator.spec_dispatch(query) == Dispatch::Routed(Intent::Hybrid),
        response.fulfils(orchestrator.spec_response(query)),
    ensures
        response.remaining().len() == stream_texts(query).len() + 1,
        forall|i: int|
            0 <= i < stream_texts(query).len() ==> response.remaining()[i] == stream_texts(
                query,
            )[i],
        response.tail() == Some(response.remaining().last()),
        orchestrator.hybrid_tail(query) matches Some(report) ==> response.remaining().last()
            == report,
{
}

/// The answer to a creative query is the generative stream, token for token.
pub proof fn lemma_creative_answer_is_the_stream(
    orchestrator: Orchestrator,
    query: Seq<char>,
    response: ResponseStream,
)
    requires
        orchestrator.spec_dispatch(query) == Dispatch::Routed(Intent::Creative),
        response.fulfils(orchestrator.spec_response(query)),
    ensures
        response.remaining() == stream_texts(query),
{
}

/// The answer to a logical query is one token: the result of the
/// deterministic backend, or its failure behind a tag.
pub proof fn lemma_logical_answer_is_one_token(
    orchestrator: Orchestrator,
    query: Seq<char>,
    response: ResponseStream,
)
    requires
        orchestrator.spec_dispatch(query) == Dispatch::Routed(Intent::Logical),
        response.fulfils(orchestrator.spec_response(query)),
    ensures
        response.remaining().len() == 1,
        logic_outcome(query, orchestrator.det_module.config.max_query_length) matches Some(
            answer,
        ) ==> response.remaining()[0] == logical_token_text(answer),
{
}

/// One processed query counts once: the total grows by one, the counter of
/// the query's intent grows by one, and the other two stay. This holds while
/// no counter is full.
pub proof fn lemma_one_query_counts_once(stats: OrchestratorStats, intent: Intent)
    requires
        stats.queries_processed < u64::MAX,
        stats.creative_queries < u64::MAX,
        stats.logical_queries < u64::MAX,
        stats.hybrid_queries < u64::MAX,
    ensures
        stats_after(stats, intent).queries_processed == stats.queries_processed + 1,
        stats_after(stats, intent).creative_queries == stats.creative_queries + if intent
            == Intent::Creative {
            1int
        } else {
            0int
        },
        stats_after(stats, intent).logical_queries == stats.logical_queries + if intent
            == Intent::Logical {
            1int
        } else {
            0int
        },
        stats_after(stats, intent).hybrid_queries == stats.hybrid_queries + if intent
            == Intent::Hybrid {
            1int
        } else {
            0int
        },
{
}

/// The total is the sum of the three counters by intent, and stays so with
/// every query that is counted. This holds while no counter is full.
pub proof fn lemma_counters_stay_balanced(stats: OrchestratorStats, intent: Intent)
    requires
        stats.queries_processed < u64::MAX,
        stats.queries_processed == stats.creative_queries + stats.logical_queries
            + stats.hybrid_queries,
    ensures
        stats_after(stats, intent).queries_processed == stats_after(stats, intent).creative_queries
            + stats_after(stats, intent).logical_queries + stats_after(
            stats,
            intent,
        ).hybrid_queries,
{
}

/// The limit on the length of a query is inclusive: a query that is not
/// blank is taken at exactly the limit and turned away one character beyond.
pub proof fn lemma_length_boundary(query: Seq<char>, limit: usize)
    requires
        !is_blank(query),
    ensures
        query.len() == limit ==> validation(query, limit) is None,
        query.len() == limit + 1 ==> validation(query, limit) == Some(
            ValidationError::QueryTooLong,
        ),
{
}

/// A query that is turned away is answered by the one token that says why,
/// whatever the backends are, and leaves the counters as they were.
pub proof fn lemma_rejection_reaches_no_backend(
    first: Orchestrator,
    second: Orchestrator,
    query: Seq<char>,
    response: ResponseStream,
)
    requires
        first.max_query_length == second.max_query_length,
        validation(query, first.max_query_length) is Some,
        response.fulfils(first.spec_response(query)),
    ensures
        response.remaining() == seq![validation(query, first.max_query_length)->0.spec_token()],
        second.spec_response(query) == first.spec_response(query),
        stats_after_dispatch(first.stats, first.spec_dispatch(query)) == first.stats,
{
}

} // verus!
