//! The lookup protocol for one affiliation, and the client that bounds how
//! many lookups run at once.
//!
//! A lookup asks the registry in up to four phases. The caller sends each
//! request and reports how the exchange went; the lookup decides what follows.

use vstd::prelude::*;
use crate::query::registry::{chosen, pick_chosen, RorResponse};
use crate::query::retry::{
    is_success, request_step, request_step_spec, Exchange, RequestError, RequestStep, MAX_ATTEMPTS,
};
use crate::query::url::{build_search_url, encoded_phrase, percent_encode, search_url};

verus! {

/// The shape of the query that a phase sends.
#[derive(Debug, Clone, Copy, PartialEq, Eq)]
pub enum Phase {
    /// The quoted phrase, restricted to the single best match.
    QuotedSingle,
    /// The bare phrase, restricted to the single best match.
    UnquotedSingle,
    /// The quoted phrase, as a broad search.
    QuotedMulti,
    /// The bare phrase, as a broad search.
    UnquotedMulti,
}

impl Phase {
    /// The place of this phase in the order of the protocol.
    pub open spec fn rank(self) -> nat {
        match self {
            Phase::QuotedSingle => 0,
            Phase::UnquotedSingle => 1,
            Phase::QuotedMulti => 2,
            Phase::UnquotedMulti => 3,
        }
    }

    /// Whether this phase puts the phrase between double quotes.
    pub open spec fn quoted(self) -> bool {
        self is QuotedSingle || self is QuotedMulti
    }

    /// Whether this phase asks for the single best match.
    pub open spec fn single(self) -> bool {
        self is QuotedSingle || self is UnquotedSingle
    }

    /// Whether this phase belongs to the broad fallback.
    pub open spec fn broad(self) -> bool {
        !self.single()
    }

    /// Whether this phase puts the phrase between double quotes.
    pub fn is_quoted(self) -> (r: bool)
        ensures
            r == self.quoted(),
    {
        match self {
            Phase::QuotedSingle => true,
            Phase::QuotedMulti => true,
            _ => false,
        }
    }

    /// Whether this phase asks for the single best match.
    pub fn is_single(self) -> (r: bool)
        ensures
            r == self.single(),
    {
        match self {
            Phase::QuotedSingle => true,
            Phase::UnquotedSingle => true,
            _ => false,
        }
    }
}

/// How a lookup ended.
#[derive(Debug, Clone)]
pub enum Resolution {
    /// The registry chose this identifier.
    Matched(String),
    /// The registry answered and chose nothing.
    NotMatched,
    /// The lookup failed.
    Failed(RequestError),
}

/// What follows a finished request.
#[derive(Debug)]
pub enum PhaseStep {
    /// Go on with this phase.
    Next(Phase),
    /// The lookup is over.
    Finish(Resolution),
}

/// What follows the request of `phase`, which ended with `result`.
///
/// A chosen identifier ends the lookup. An answer without choice in one of
/// the two restrictive phases leads to the broad fallback where that is
/// enabled, and ends the lookup as not matched where it is not.
///
/// In the first phase a server-side error leads to the second phase. Every
/// other error of a request ends the lookup there as failed, whether the
/// broad fallback is enabled or not: a status that is neither a success, a
/// rate limit nor a server-side error, and a request whose attempts are all
/// spent. The one exception is a successful reply whose body could not be
/// decoded, which leads to the broad fallback where that is enabled.
///
/// In the second phase any error leads to the broad fallback where that is
/// enabled, and ends the lookup as failed where it is not. The first broad
/// phase is followed by the second only after an error; the second ends the
/// lookup in any case.
pub open spec fn phase_step_spec(
    phase: Phase,
    fallback_multi: bool,
    result: Result<Option<String>, RequestError>,
) -> PhaseStep {
    match result {
        Ok(Some(id)) => PhaseStep::Finish(Resolution::Matched(id)),
        Ok(None) => {
            if phase.single() && fallback_multi {
                PhaseStep::Next(Phase::QuotedMulti)
            } else {
                PhaseStep::Finish(Resolution::NotMatched)
            }
        },
        Err(error) => {
            match phase {
                Phase::QuotedSingle => {
                    if error.is_server_error() {
                        PhaseStep::Next(Phase::UnquotedSingle)
                    } else if error.is_undecodable() && fallback_multi {
                        PhaseStep::Next(Phase::QuotedMulti)
                    } else {
                        PhaseStep::Finish(Resolution::Failed(error))
                    }
                },
                Phase::UnquotedSingle => {
                    if fallback_multi {
                        PhaseStep::Next(Phase::QuotedMulti)
                    } else {
                        PhaseStep::Finish(Resolution::Failed(error))
                    }
                },
                Phase::QuotedMulti => PhaseStep::Next(Phase::UnquotedMulti),
                Phase::UnquotedMulti => PhaseStep::Finish(Resolution::Failed(error)),
            }
        },
    }
}

/// Decides what follows the request of `phase`, which ended with `result`.
pub fn phase_step(
    phase: Phase,
    fallback_multi: bool,
    result: Result<Option<String>, RequestError>,
) -> (step: PhaseStep)
    ensures
        step == phase_step_spec(phase, fallback_multi, result),
{
    match result {
        Ok(Some(id)) => PhaseStep::Finish(Resolution::Matched(id)),
        Ok(None) => {
            if phase.is_single() && fallback_multi {
                PhaseStep::Next(Phase::QuotedMulti)
            } else {
                PhaseStep::Finish(Resolution::NotMatched)
            }
        },
        Err(error) => {
            match phase {
                Phase::QuotedSingle => {
                    if error.is_server() {
                        PhaseStep::Next(Phase::UnquotedSingle)
                    } else if error.is_decode() && fallback_multi {
                        PhaseStep::Next(Phase::QuotedMulti)
                    } else {
                        PhaseStep::Finish(Resolution::Failed(error))
                    }
                },
                Phase::UnquotedSingle => {
                    if fallback_multi {
                        PhaseStep::Next(Phase::QuotedMulti)
                    } else {
                        PhaseStep::Finish(Resolution::Failed(error))
                    }
                },
                Phase::QuotedMulti => PhaseStep::Next(Phase::UnquotedMulti),
                Phase::UnquotedMulti => PhaseStep::Finish(Resolution::Failed(error)),
            }
        },
    }
}

/// Where a lookup stands after an exchange.
pub struct Progress {
    /// The phase whose request is to be sent next, if the lookup goes on.
    pub phase: Phase,
    /// How many attempts of that request were made.
    pub attempt: u32,
    /// How the lookup ended, if it did.
    pub outcome: Option<Resolution>,
    /// The seconds to wait before anything else is done.
    pub wait: Option<u64>,
}

/// Where a lookup stands once the request of `phase` has ended with `result`.
pub open spec fn settled(
    phase: Phase,
    attempt: u32,
    fallback_multi: bool,
    result: Result<Option<String>, RequestError>,
    wait: Option<u64>,
) -> Progress {
    match phase_step_spec(phase, fallback_multi, result) {
        PhaseStep::Next(next) => Progress { phase: next, attempt: 0, outcome: None, wait },
        PhaseStep::Finish(resolution) => Progress {
            phase,
            attempt,
            outcome: Some(resolution),
            wait,
        },
    }
}

/// Where a lookup stands after `exchange`, which was attempt number `attempt`
/// of the request of `phase`.
///
/// A request that is to be sent again stays in its phase while attempts are
/// left. Once the last attempt is spent the request has failed, after the
/// wait that was asked for.
pub open spec fn advanced(phase: Phase, attempt: u32, fallback_multi: bool, exchange: Exchange) -> Progress {
    match request_step_spec(attempt, exchange) {
        RequestStep::Retry { wait_secs } => {
            if attempt + 1 < MAX_ATTEMPTS {
                Progress { phase, attempt: (attempt + 1) as u32, outcome: None, wait: Some(wait_secs) }
            } else {
                settled(
                    phase,
                    attempt,
                    fallback_multi,
                    Err(RequestError::RetriesExhausted),
                    Some(wait_secs),
                )
            }
        },
        RequestStep::Done(result) => settled(phase, attempt, fallback_multi, result, None),
    }
}

/// Whether `exchange` is a successful reply in which the registry's choice
/// carries the identifier `choice`, or in which there is none where `choice`
/// is nothing.
pub open spec fn answers(exchange: Exchange, choice: Option<String>) -> bool {
    match exchange {
        Exchange::Reply { code, body, .. } => is_success(code) && match body {
            Ok(response) => chosen(response.items@) == choice,
            Err(_) => false,
        },
        Exchange::Failed { .. } => false,
    }
}

/// Whether `exchange` is a reply with a server-side error: a status from 500
/// to 599.
pub open spec fn is_server_failure(exchange: Exchange) -> bool {
    match exchange {
        Exchange::Reply { code, .. } => 500 <= code <= 599,
        Exchange::Failed { .. } => false,
    }
}

/// Whether `exchange` is a reply that the registry rejects for good: its
/// status is neither a success, nor a rate limit, nor a server-side error.
pub open spec fn is_rejection(exchange: Exchange) -> bool {
    match exchange {
        Exchange::Reply { code, .. } => !is_success(code) && code != 429 && !(500 <= code <= 599),
        Exchange::Failed { .. } => false,
    }
}

/// Whether `exchange` asks for the same request to be sent again: no reply
/// came, or the reply is a rate limit.
pub open spec fn asks_again(exchange: Exchange) -> bool {
    match exchange {
        Exchange::Reply { code, .. } => code == 429,
        Exchange::Failed { .. } => true,
    }
}

/// The exchanges that a lookup may still need at most: three for its phase,
/// less those made, and three for each phase that may follow.
pub open spec fn budget(phase: Phase, attempt: u32, done: bool) -> int {
    if done {
        0
    } else {
        (4 - phase.rank()) * MAX_ATTEMPTS - attempt
    }
}

/// Every exchange brings a lookup nearer to its end: it uses up budget.
pub proof fn lemma_exchange_uses_budget(phase: Phase, attempt: u32, fallback_multi: bool, exchange: Exchange)
    requires
        attempt < MAX_ATTEMPTS,
    ensures
        ({
            let p = advanced(phase, attempt, fallback_multi, exchange);
            &&& p.attempt < MAX_ATTEMPTS
            &&& 0 <= budget(p.phase, p.attempt, p.outcome is Some) < budget(phase, attempt, false)
            &&& p.outcome is None ==> p.phase.rank() >= phase.rank()
        }),
{
}

/// With the broad fallback disabled, a lookup never enters a broad phase.
pub proof fn lemma_no_fallback_stays_single(phase: Phase, attempt: u32, exchange: Exchange)
    requires
        phase.single(),
    ensures
        advanced(phase, attempt, false, exchange).phase.single(),
{
}

/// A lookup ends as matched only on a successful reply whose chosen
/// candidate carries the identifier.
pub proof fn lemma_match_needs_choice(
    phase: Phase,
    attempt: u32,
    fallback_multi: bool,
    exchange: Exchange,
    id: String,
)
    requires
        advanced(phase, attempt, fallback_multi, exchange).outcome == Some(Resolution::Matched(id)),
    ensures
        answers(exchange, Some(id)),
{
}

/// A rate-limited reply never ends a lookup while attempts are left: the same
/// request is sent again after the wait.
pub proof fn lemma_rate_limit_retries(
    phase: Phase,
    attempt: u32,
    fallback_multi: bool,
    status: String,
    retry_after: Option<String>,
    body: Result<RorResponse, String>,
)
    requires
        attempt + 1 < MAX_ATTEMPTS,
    ensures
        ({
            let p = advanced(
                phase,
                attempt,
                fallback_multi,
                Exchange::Reply { code: 429, status, retry_after, body },
            );
            &&& p.outcome is None
            &&& p.phase == phase
            &&& p.attempt == attempt + 1
            &&& p.wait is Some
        }),
{
}

/// A server-side error in the first phase is followed at once by the second
/// phase, whose chosen candidate then ends the lookup as matched: two
/// requests in all.
pub proof fn lemma_server_error_then_choice(
    fallback_multi: bool,
    first: Exchange,
    second: Exchange,
    id: String,
)
    requires
        is_server_failure(first),
        answers(second, Some(id)),
    ensures
        advanced(Phase::QuotedSingle, 0, fallback_multi, first) == (Progress {
            phase: Phase::UnquotedSingle,
            attempt: 0,
            outcome: None,
            wait: None,
        }),
        advanced(Phase::UnquotedSingle, 0, fallback_multi, second).outcome == Some(
            Resolution::Matched(id),
        ),
{
}

/// With the broad fallback disabled, a successful reply without a chosen
/// candidate ends the lookup as not matched.
pub proof fn lemma_no_choice_is_no_match(phase: Phase, attempt: u32, exchange: Exchange)
    requires
        attempt < MAX_ATTEMPTS,
        answers(exchange, None),
    ensures
        advanced(phase, attempt, false, exchange).outcome == Some(Resolution::NotMatched),
{
}

/// A rejection of the first request ends the lookup at once as failed,
/// whether the broad fallback is enabled or not: nothing is sent again and
/// nothing else is asked.
pub proof fn lemma_rejection_is_terminal(attempt: u32, fallback_multi: bool, exchange: Exchange)
    requires
        attempt < MAX_ATTEMPTS,
        is_rejection(exchange),
    ensures
        ({
            let p = advanced(Phase::QuotedSingle, attempt, fallback_multi, exchange);
            &&& p.outcome matches Some(Resolution::Failed(RequestError::Http { code, status }))
            &&& exchange matches Exchange::Reply { code: c, status: s, .. }
            &&& code == c
            &&& status == s
            &&& p.wait is None
        }),
{
}

/// A first request whose last attempt asks for another one has spent its
/// attempts, and the lookup ends as failed, whether the broad fallback is
/// enabled or not.
pub proof fn lemma_spent_attempts_are_terminal(fallback_multi: bool, exchange: Exchange)
    requires
        asks_again(exchange),
    ensures
        advanced(
            Phase::QuotedSingle,
            (MAX_ATTEMPTS - 1) as u32,
            fallback_multi,
            exchange,
        ).outcome matches Some(Resolution::Failed(_)),
{
}

/// Where a lookup stands before its first exchange.
pub open spec fn at_start() -> Progress {
    Progress { phase: Phase::QuotedSingle, attempt: 0, outcome: None, wait: None }
}

/// Where a lookup that stood at `from` stands after `exchanges`, taken in
/// turn. Once it has ended, further exchanges change nothing.
pub open spec fn replayed(from: Progress, fallback_multi: bool, exchanges: Seq<Exchange>) -> Progress
    decreases exchanges.len(),
{
    if exchanges.len() == 0 {
        from
    } else {
        let before = replayed(from, fallback_multi, exchanges.drop_last());
        if before.outcome is Some {
            before
        } else {
            advanced(before.phase, before.attempt, fallback_multi, exchanges.last())
        }
    }
}

/// After any number of exchanges a lookup has ended, or has budget left for
/// those that may still come.
pub proof fn lemma_replay_uses_budget(fallback_multi: bool, exchanges: Seq<Exchange>)
    ensures
        ({
            let p = replayed(at_start(), fallback_multi, exchanges);
            &&& p.attempt < MAX_ATTEMPTS
            &&& p.outcome is None ==> exchanges.len() + budget(p.phase, p.attempt, false) <= 12
            &&& p.outcome is None ==> budget(p.phase, p.attempt, false) > 0
        }),
    decreases exchanges.len(),
{
    if exchanges.len() > 0 {
        lemma_replay_uses_budget(fallback_multi, exchanges.drop_last());
        let before = replayed(at_start(), fallback_multi, exchanges.drop_last());
        if before.outcome is None {
            lemma_exchange_uses_budget(before.phase, before.attempt, fallback_multi, exchanges.last());
        }
    }
}

/// Every lookup has ended after twelve exchanges at the latest, however they
/// went.
pub proof fn lemma_lookup_ends(fallback_multi: bool, exchanges: Seq<Exchange>)
    requires
        exchanges.len() >= 12,
    ensures
        replayed(at_start(), fallback_multi, exchanges).outcome is Some,
{
    lemma_replay_uses_budget(fallback_multi, exchanges);
}

/// A lookup whose first request meets a server-side error and whose second
/// request is answered with a chosen candidate ends as matched after these
/// two exchanges.
pub proof fn lemma_fallback_match_in_two(
    fallback_multi: bool,
    first: Exchange,
    second: Exchange,
    id: String,
)
    requires
        is_server_failure(first),
        answers(second, Some(id)),
    ensures
        replayed(at_start(), fallback_multi, seq![first, second]).outcome == Some(
            Resolution::Matched(id),
        ),
{
    let both = seq![first, second];
    assert(both.drop_last() =~= seq![first]);
    assert(seq![first].drop_last() =~= Seq::<Exchange>::empty());
    lemma_server_error_then_choice(fallback_multi, first, second, id);
    reveal_with_fuel(replayed, 3);
}

/// A lookup whose first request is rate limited and whose second attempt is
/// answered with a chosen candidate ends as matched: the rate limit is not
/// surfaced.
pub proof fn lemma_rate_limit_then_match(
    fallback_multi: bool,
    first: Exchange,
    second: Exchange,
    id: String,
)
    requires
        first matches Exchange::Reply { code, .. } && code == 429,
        answers(second, Some(id)),
    ensures
        replayed(at_start(), fallback_multi, seq![first, second]).outcome == Some(
            Resolution::Matched(id),
        ),
{
    let both = seq![first, second];
    assert(both.drop_last() =~= seq![first]);
    assert(seq![first].drop_last() =~= Seq::<Exchange>::empty());
    reveal_with_fuel(replayed, 3);
}

/// A lookup whose first request is rejected has ended as failed after this
/// one exchange, whatever the registry would have answered to another
/// request.
pub proof fn lemma_rejection_ends_in_one(fallback_multi: bool, first: Exchange)
    requires
        is_rejection(first),
    ensures
        replayed(at_start(), fallback_multi, seq![first]).outcome matches Some(
            Resolution::Failed(_),
        ),
{
    let one = seq![first];
    assert(one.drop_last() =~= Seq::<Exchange>::empty());
    lemma_rejection_is_terminal(0, fallback_multi, first);
    reveal_with_fuel(replayed, 2);
}

/// A lookup: the state of the protocol for one affiliation.
pub struct Lookup {
    base_url: String,
    encoded: String,
    fallback_multi: bool,
    phase: Phase,
    attempt: u32,
    outcome: Option<Resolution>,
}

impl Lookup {
    /// The address below which the registry is reached.
    pub closed spec fn base(&self) -> Seq<char> {
        self.base_url@
    }

    /// The percent-encoded affiliation.
    pub closed spec fn phrase(&self) -> Seq<char> {
        self.encoded@
    }

    /// Whether the broad fallback is enabled.
    pub closed spec fn fallback(&self) -> bool {
        self.fallback_multi
    }

    /// The phase that the lookup is in.
    pub closed spec fn current_phase(&self) -> Phase {
        self.phase
    }

    /// How many attempts of the current request were made.
    pub closed spec fn attempts(&self) -> u32 {
        self.attempt
    }

    /// How the lookup ended, if it did.
    pub closed spec fn result(&self) -> Option<Resolution> {
        self.outcome
    }

    /// Well-formedness: an attempt is left for the current request, and a
    /// broad phase is entered only with the fallback enabled.
    pub open spec fn wf(&self) -> bool {
        &&& self.attempts() < MAX_ATTEMPTS
        &&& self.current_phase().broad() ==> self.fallback()
    }

    /// The exchanges that this lookup may still need at most.
    pub open spec fn remaining(&self) -> int {
        budget(self.current_phase(), self.attempts(), self.result() is Some)
    }

    /// A lookup for `affiliation` that has not sent anything yet.
    pub fn start(base_url: &str, affiliation: &str, fallback_multi: bool) -> (lookup: Lookup)
        ensures
            lookup.wf(),
            lookup.base() == base_url@,
            lookup.phrase() == encoded_phrase(affiliation@),
            lookup.fallback() == fallback_multi,
            lookup.current_phase() == Phase::QuotedSingle,
            lookup.attempts() == 0,
            lookup.result() is None,
    {
        Lookup {
            base_url: base_url.to_owned(),
            encoded: percent_encode(affiliation),
            fallback_multi,
            phase: Phase::QuotedSingle,
            attempt: 0,
            outcome: None,
        }
    }

    /// Whether the lookup has ended.
    pub fn is_done(&self) -> (r: bool)
        ensures
            r == (self.result() is Some),
    {
        self.outcome.is_some()
    }

    /// The phase that the lookup is in.
    pub fn phase(&self) -> (r: Phase)
        ensures
            r == self.current_phase(),
    {
        self.phase
    }

    /// How many attempts of the current request were made.
    pub fn attempt(&self) -> (r: u32)
        ensures
            r == self.attempts(),
    {
        self.attempt
    }

    /// How the lookup ended, if it did.
    pub fn outcome(&self) -> (r: &Option<Resolution>)
        ensures
            *r == self.result(),
    {
        &self.outcome
    }

    /// How the lookup ended, if it did.
    pub fn into_outcome(self) -> (r: Option<Resolution>)
        ensures
            r == self.result(),
    {
        self.outcome
    }

    /// The address of the request to send next, or nothing where the lookup
    /// has ended.
    pub fn next_url(&self) -> (url: Option<String>)
        ensures
            self.result() is Some ==> url is None,
            self.result() is None ==> url is Some && url->0@ == search_url(
                self.base(),
                self.phrase(),
                self.current_phase().quoted(),
                self.current_phase().single(),
            ),
    {
        if self.outcome.is_some() {
            None
        } else {
            Some(
                build_search_url(
                    self.base_url.as_str(),
                    self.encoded.as_str(),
                    self.phase.is_quoted(),
                    self.phase.is_single(),
                ),
            )
        }
    }

    /// Takes note of how the request that was sent last went, and returns the
    /// seconds to wait before anything else is done. A lookup that has ended
    /// ignores the exchange.
    pub fn record(&mut self, exchange: Exchange) -> (wait: Option<u64>)
        requires
            old(self).wf(),
        ensures
            final(self).wf(),
            final(self).base() == old(self).base(),
            final(self).phrase() == old(self).phrase(),
            final(self).fallback() == old(self).fallback(),
            old(self).result() is Some ==> {
                &&& wait is None
                &&& final(self).current_phase() == old(self).current_phase()
                &&& final(self).attempts() == old(self).attempts()
                &&& final(self).result() == old(self).result()
            },
            old(self).result() is None ==> (Progress {
                phase: final(self).current_phase(),
                attempt: final(self).attempts(),
                outcome: final(self).result(),
                wait,
            }) == advanced(
                old(self).current_phase(),
                old(self).attempts(),
                old(self).fallback(),
                exchange,
            ),
            old(self).result() is None ==> 0 <= final(self).remaining() < old(self).remaining(),
    {
        if self.outcome.is_some() {
            return None;
        }
        proof {
            lemma_exchange_uses_budget(self.phase, self.attempt, self.fallback_multi, exchange);
        }
        let (result, wait) = match request_step(self.attempt, exchange) {
            RequestStep::Retry { wait_secs } => {
                if self.attempt + 1 < MAX_ATTEMPTS {
                    self.attempt = self.attempt + 1;
                    return Some(wait_secs);
                }
                (Err(RequestError::RetriesExhausted), Some(wait_secs))
            },
            RequestStep::Done(result) => (result, None),
        };
        match phase_step(self.phase, self.fallback_multi, result) {
            PhaseStep::Next(next) => {
                self.phase = next;
                self.attempt = 0;
            },
            PhaseStep::Finish(resolution) => {
                self.outcome = Some(resolution);
            },
        }
        wait
    }
}

/// What a caller asks of the client that bears on the number of running
/// lookups.
pub enum Demand {
    /// To start a lookup.
    Start,
    /// To take back a lookup that is over, given up or lost.
    End,
}

/// The number of lookups that run after `demand`, where `running` ran
/// before and `limit` may run at once: a lookup is started only below the
/// limit.
pub open spec fn running_after(running: int, limit: int, demand: Demand) -> int {
    match demand {
        Demand::Start => if running < limit {
            running + 1
        } else {
            running
        },
        Demand::End => if running > 0 {
            running - 1
        } else {
            0
        },
    }
}

/// The number of lookups that run after all of `demands`, made in turn of a
/// client without running lookups.
pub open spec fn running_after_all(limit: int, demands: Seq<Demand>) -> int
    decreases demands.len(),
{
    if demands.len() == 0 {
        0
    } else {
        running_after(running_after_all(limit, demands.drop_last()), limit, demands.last())
    }
}

/// Whatever is asked of a client, and in whatever order, never more lookups
/// run than may run at once.
pub proof fn lemma_running_is_bounded(limit: int, demands: Seq<Demand>)
    requires
        0 <= limit,
    ensures
        0 <= running_after_all(limit, demands) <= limit,
    decreases demands.len(),
{
    if demands.len() > 0 {
        lemma_running_is_bounded(limit, demands.drop_last());
    }
}

/// The registry client: where the registry is reached, and how many lookups
/// may run at once.
pub struct RorClient {
    base_url: String,
    concurrency: usize,
    timeout_secs: u64,
    in_flight: usize,
}

impl RorClient {
    /// The address below which the registry is reached.
    pub closed spec fn base(&self) -> Seq<char> {
        self.base_url@
    }

    /// How many lookups may run at once.
    pub closed spec fn limit(&self) -> usize {
        self.concurrency
    }

    /// The seconds after which a request is given up.
    pub closed spec fn timeout(&self) -> u64 {
        self.timeout_secs
    }

    /// How many lookups run now.
    pub closed spec fn running(&self) -> usize {
        self.in_flight
    }

    /// Well-formedness: never more lookups run than may run at once.
    pub open spec fn wf(&self) -> bool {
        self.running() <= self.limit()
    }

    /// A client for the registry at `base_url`, with no lookup running.
    pub fn new(base_url: String, concurrency: usize, timeout_secs: u64) -> (client: RorClient)
        ensures
            client.wf(),
            client.base() == base_url@,
            client.limit() == concurrency,
            client.timeout() == timeout_secs,
            client.running() == 0,
    {
        RorClient { base_url, concurrency, timeout_secs, in_flight: 0 }
    }

    /// The address below which the registry is reached.
    pub fn base_url(&self) -> (r: &str)
        ensures
            r@ == self.base(),
    {
        self.base_url.as_str()
    }

    /// How many lookups may run at once.
    pub fn concurrency(&self) -> (r: usize)
        ensures
            r == self.limit(),
    {
        self.concurrency
    }

    /// The seconds after which a request is given up.
    pub fn timeout_secs(&self) -> (r: u64)
        ensures
            r == self.timeout(),
    {
        self.timeout_secs
    }

    /// How many lookups run now.
    pub fn in_flight(&self) -> (r: usize)
        ensures
            r == self.running(),
    {
        self.in_flight
    }

    /// Starts a lookup for `affiliation` if fewer lookups run than may run at
    /// once, and counts it as running until it is handed to `finish`. Where
    /// the limit is reached nothing is started: the caller waits for a
    /// running lookup to finish and asks again.
    pub fn query_affiliation(&mut self, affiliation: &str, fallback_multi: bool) -> (r: Option<Lookup>)
        requires
            old(self).wf(),
        ensures
            final(self).wf(),
            final(self).base() == old(self).base(),
            final(self).limit() == old(self).limit(),
            final(self).timeout() == old(self).timeout(),
            r is Some <==> old(self).running() < old(self).limit(),
            final(self).running() == running_after(
                old(self).running() as int,
                old(self).limit() as int,
                Demand::Start,
            ),
            r matches Some(lookup) ==> {
                &&& lookup.wf()
                &&& lookup.base() == old(self).base()
                &&& lookup.phrase() == encoded_phrase(affiliation@)
                &&& lookup.fallback() == fallback_multi
                &&& lookup.current_phase() == Phase::QuotedSingle
                &&& lookup.attempts() == 0
                &&& lookup.result() is None
            },
    {
        if self.in_flight < self.concurrency {
            self.in_flight = self.in_flight + 1;
            Some(Lookup::start(self.base_url.as_str(), affiliation, fallback_multi))
        } else {
            None
        }
    }

    /// Takes back a lookup that is over or given up, so that another one may
    /// start, and returns how it ended, if it did.
    pub fn finish(&mut self, lookup: Lookup) -> (r: Option<Resolution>)
        requires
            old(self).wf(),
        ensures
            final(self).wf(),
            final(self).base() == old(self).base(),
            final(self).limit() == old(self).limit(),
            final(self).timeout() == old(self).timeout(),
            final(self).running() == running_after(
                old(self).running() as int,
                old(self).limit() as int,
                Demand::End,
            ),
            r == lookup.result(),
    {
        if self.in_flight > 0 {
            self.in_flight = self.in_flight - 1;
        }
        lookup.into_outcome()
    }

    /// Gives back the place of a lookup that was lost before it could be
    /// handed to `finish`, so that another one may start.
    pub fn abandon(&mut self)
        requires
            old(self).wf(),
        ensures
            final(self).wf(),
            final(self).base() == old(self).base(),
            final(self).limit() == old(self).limit(),
            final(self).timeout() == old(self).timeout(),
            final(self).running() == running_after(
                old(self).running() as int,
                old(self).limit() as int,
                Demand::End,
            ),
    {
        if self.in_flight > 0 {
            self.in_flight = self.in_flight - 1;
        }
    }

    /// The identifier that `response` has the registry's choice carry.
    pub fn extract_chosen_ror_id(&self, response: &RorResponse) -> (r: Option<String>)
        ensures
            r == chosen(response.items@),
    {
        pick_chosen(&response.items)
    }
}

} // verus!
