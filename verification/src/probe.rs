//! The race of the existence probes.
//!
//! One probe is sent for each candidate address, all at once. A probe that
//! answers with success claims a single winner's place, if it is still free.
//! The probes are then joined in the order of the candidates, and the place
//! is looked at after each join. So the answer is the address of the first
//! success to land, whatever its rank among the candidates: the joining
//! order only decides when the place is looked at. A probe that fails, by a
//! status other than 200 or in the transport, counts for itself alone.

use vstd::prelude::*;
use crate::error::TwitchRecoverError;
use crate::text::views;

verus! {

/// What came back from one probe.
#[derive(Clone, Copy, Debug, PartialEq, Eq, Structural)]
pub enum ProbeReply {
    /// A reply, with its HTTP status.
    Status(u16),
    /// No reply: a timeout, a refused connection, a name that did not resolve.
    TransportFailure,
}

/// How a probe's reply counts.
#[derive(Clone, Copy, Debug, PartialEq, Eq, Structural)]
pub enum ProbeOutcome {
    /// The address holds the recording.
    Hit,
    /// The address answered, not with success.
    Miss,
    /// The address could not be asked.
    Error,
}

/// A probe that has finished: the rank of its candidate, and what came back.
#[derive(Clone, Copy, Debug, PartialEq, Eq, Structural)]
pub struct Arrival {
    pub candidate: usize,
    pub reply: ProbeReply,
}

/// A reply is a hit if and only if its status is exactly 200.
pub open spec fn outcome_of(reply: ProbeReply) -> ProbeOutcome {
    match reply {
        ProbeReply::Status(status) => if status == 200 {
            ProbeOutcome::Hit
        } else {
            ProbeOutcome::Miss
        },
        ProbeReply::TransportFailure => ProbeOutcome::Error,
    }
}

pub open spec fn is_hit(reply: ProbeReply) -> bool {
    reply == ProbeReply::Status(200)
}

/// The candidate of the earliest hit among probes listed as they finished.
pub open spec fn first_hit(arrivals: Seq<Arrival>) -> Option<usize>
    decreases arrivals.len(),
{
    if arrivals.len() == 0 {
        None
    } else {
        match first_hit(arrivals.drop_last()) {
            Some(winner) => Some(winner),
            None => if is_hit(arrivals.last().reply) {
                Some(arrivals.last().candidate)
            } else {
                None
            },
        }
    }
}

/// Whether the probe of a candidate is among those that finished.
pub open spec fn has_landed(arrivals: Seq<Arrival>, candidate: int) -> bool {
    exists|k: int| 0 <= k < arrivals.len() && (#[trigger] arrivals[k]).candidate == candidate
}

/// The answer of a race whose probes finished as listed: the address of the
/// earliest hit, or the failure that no address holds the recording.
pub open spec fn race_result(urls: Seq<Seq<char>>, arrivals: Seq<Arrival>) -> Result<
    Seq<char>,
    TwitchRecoverError,
> {
    match first_hit(arrivals) {
        Some(winner) => Ok(urls[winner as int]),
        None => Err(TwitchRecoverError::StreamNotFound),
    }
}

/// An answer with its address taken as a sequence of characters.
pub open spec fn answer_view(answer: Result<String, TwitchRecoverError>) -> Result<
    Seq<char>,
    TwitchRecoverError,
> {
    match answer {
        Ok(url) => Ok(url@),
        Err(e) => Err(e),
    }
}

/// Every finished probe belongs to one of `count` candidates.
pub open spec fn in_range(arrivals: Seq<Arrival>, count: int) -> bool {
    forall|k: int| 0 <= k < arrivals.len() ==> (#[trigger] arrivals[k]).candidate < count
}

/// Classifies what came back from one probe.
pub fn classify(reply: ProbeReply) -> (outcome: ProbeOutcome)
    ensures
        outcome == outcome_of(reply),
        outcome == ProbeOutcome::Hit <==> is_hit(reply),
{
    match reply {
        ProbeReply::Status(status) => {
            if status == 200 {
                ProbeOutcome::Hit
            } else {
                ProbeOutcome::Miss
            }
        },
        ProbeReply::TransportFailure => ProbeOutcome::Error,
    }
}

/// A hit found among the first probes to finish stays the earliest hit
/// whatever finishes later.
pub proof fn lemma_first_hit_stays(arrivals: Seq<Arrival>, k: int)
    requires
        0 <= k <= arrivals.len(),
        first_hit(arrivals.take(k)) is Some,
    ensures
        first_hit(arrivals) == first_hit(arrivals.take(k)),
    decreases arrivals.len(),
{
    if k == arrivals.len() {
        assert(arrivals.take(k) =~= arrivals);
    } else {
        assert(arrivals.drop_last().take(k) =~= arrivals.take(k));
        lemma_first_hit_stays(arrivals.drop_last(), k);
    }
}

/// Where the earliest hit stands: at a hit before which no probe hit; and
/// there is none exactly when no probe hit.
pub proof fn lemma_first_hit_position(arrivals: Seq<Arrival>)
    ensures
        first_hit(arrivals) is None <==> forall|k: int|
            0 <= k < arrivals.len() ==> !is_hit((#[trigger] arrivals[k]).reply),
        first_hit(arrivals) matches Some(winner) ==> exists|k: int|
            0 <= k < arrivals.len() && is_hit((#[trigger] arrivals[k]).reply)
                && arrivals[k].candidate == winner && forall|j: int|
                0 <= j < k ==> !is_hit((#[trigger] arrivals[j]).reply),
    decreases arrivals.len(),
{
    if arrivals.len() > 0 {
        let front = arrivals.drop_last();
        lemma_first_hit_position(front);
        assert(forall|k: int| 0 <= k < front.len() ==> front[k] == arrivals[k]);
        match first_hit(front) {
            Some(winner) => {
                let k = choose|k: int|
                    0 <= k < front.len() && is_hit((#[trigger] front[k]).reply)
                        && front[k].candidate == winner && forall|j: int|
                        0 <= j < k ==> !is_hit((#[trigger] front[j]).reply);
                assert(is_hit(arrivals[k].reply) && arrivals[k].candidate == winner);
                assert(forall|j: int| 0 <= j < k ==> !is_hit((#[trigger] arrivals[j]).reply));
            },
            None => {
                let last = arrivals.len() - 1;
                if is_hit(arrivals.last().reply) {
                    assert(is_hit(arrivals[last].reply) && arrivals[last].candidate
                        == arrivals.last().candidate);
                    assert(forall|j: int|
                        0 <= j < last ==> !is_hit((#[trigger] arrivals[j]).reply));
                } else {
                    assert forall|k: int| 0 <= k < arrivals.len() implies !is_hit(
                        (#[trigger] arrivals[k]).reply,
                    ) by {
                        if k < last {
                            assert(front[k] == arrivals[k]);
                        }
                    }
                }
            },
        }
    }
}

/// Find a valid url: the address of the first probe that hit, the probes
/// being listed in the order in which they finished.
pub fn find_valid_url(urls: &Vec<String>, arrivals: &Vec<Arrival>) -> (answer: Result<
    String,
    TwitchRecoverError,
>)
    requires
        in_range(arrivals@, urls@.len() as int),
    ensures
        answer_view(answer) == race_result(views(urls@), arrivals@),
{
    let mut i: usize = 0;
    while i < arrivals.len()
        invariant
            0 <= i <= arrivals@.len(),
            in_range(arrivals@, urls@.len() as int),
            first_hit(arrivals@.take(i as int)) is None,
        decreases arrivals@.len() - i,
    {
        let arrival = arrivals[i];
        proof {
            assert(arrivals@.take(i + 1).drop_last() =~= arrivals@.take(i as int));
            assert(arrivals@.take(i + 1).last() == arrivals@[i as int]);
        }
        match classify(arrival.reply) {
            ProbeOutcome::Hit => {
                proof {
                    lemma_first_hit_stays(arrivals@, i + 1);
                }
                return Ok(urls[arrival.candidate].clone());
            },
            _ => {},
        }
        i += 1;
    }
    proof {
        assert(arrivals@.take(i as int) =~= arrivals@);
    }
    Err(TwitchRecoverError::StreamNotFound)
}

/// If the probes of exactly one candidate hit, the answer is that
/// candidate's address, whenever the probes finished.
pub proof fn lemma_single_hit(urls: Seq<Seq<char>>, arrivals: Seq<Arrival>, candidate: usize)
    requires
        exists|k: int|
            0 <= k < arrivals.len() && (#[trigger] arrivals[k]).candidate == candidate && is_hit(
                arrivals[k].reply,
            ),
        forall|k: int|
            0 <= k < arrivals.len() && is_hit((#[trigger] arrivals[k]).reply)
                ==> arrivals[k].candidate == candidate,
    ensures
        race_result(urls, arrivals) == Ok::<Seq<char>, TwitchRecoverError>(urls[candidate as int]),
{
    lemma_first_hit_position(arrivals);
}

/// If no probe hit, whether it answered with another status or failed in
/// the transport, the answer is that the stream was not found.
pub proof fn lemma_all_miss(urls: Seq<Seq<char>>, arrivals: Seq<Arrival>)
    requires
        forall|k: int|
            0 <= k < arrivals.len() ==> outcome_of((#[trigger] arrivals[k]).reply)
                != ProbeOutcome::Hit,
    ensures
        race_result(urls, arrivals) == Err::<Seq<char>, TwitchRecoverError>(
            TwitchRecoverError::StreamNotFound,
        ),
{
    lemma_first_hit_position(arrivals);
}

/// A transport failure counts as a plain miss: where some probes that
/// failed in the transport are taken to have answered with a status other
/// than 200 instead, the answer is the same.
pub proof fn lemma_failure_as_miss(
    urls: Seq<Seq<char>>,
    arrivals: Seq<Arrival>,
    softened: Seq<Arrival>,
)
    requires
        softened.len() == arrivals.len(),
        forall|k: int|
            0 <= k < arrivals.len() ==> (#[trigger] softened[k]) == arrivals[k] || (
            arrivals[k].reply == ProbeReply::TransportFailure && softened[k].candidate
                == arrivals[k].candidate && outcome_of(softened[k].reply) == ProbeOutcome::Miss),
    ensures
        race_result(urls, softened) == race_result(urls, arrivals),
    decreases arrivals.len(),
{
    if arrivals.len() > 0 {
        let last = arrivals.len() - 1;
        assert(softened[last] == softened.last());
        assert forall|k: int| 0 <= k < arrivals.drop_last().len() implies (
        #[trigger] softened.drop_last()[k]) == arrivals.drop_last()[k] || (
        arrivals.drop_last()[k].reply == ProbeReply::TransportFailure
            && softened.drop_last()[k].candidate == arrivals.drop_last()[k].candidate
            && outcome_of(softened.drop_last()[k].reply) == ProbeOutcome::Miss) by {
            assert(softened.drop_last()[k] == softened[k]);
        }
        lemma_failure_as_miss(urls, arrivals.drop_last(), softened.drop_last());
    }
}

/// The state of a race: the candidates' addresses, the probes that have
/// finished, in the order in which they did, and how many probes were joined.
pub ghost struct RaceState {
    pub urls: Seq<Seq<char>>,
    pub landed: Seq<Arrival>,
    pub joined: nat,
}

/// What holds of every state of a race: each finished probe belongs to a
/// candidate, and each probe that was joined has finished.
pub open spec fn well_formed(state: RaceState) -> bool {
    &&& state.joined <= state.urls.len()
    &&& in_range(state.landed, state.urls.len() as int)
    &&& forall|c: int| 0 <= c < state.joined ==> has_landed(state.landed, c)
}

/// What a look at the winner's place decides, after a join: the answer, once
/// a hit has landed or every probe was joined; nothing yet otherwise.
pub open spec fn verdict(state: RaceState) -> Option<Result<Seq<char>, TwitchRecoverError>> {
    if first_hit(state.landed) is Some || state.joined == state.urls.len() {
        Some(race_result(state.urls, state.landed))
    } else {
        None
    }
}

/// A step's answer with its address taken as a sequence of characters.
pub open spec fn step_view(step: Option<Result<String, TwitchRecoverError>>) -> Option<
    Result<Seq<char>, TwitchRecoverError>,
> {
    match step {
        Some(answer) => Some(answer_view(answer)),
        None => None,
    }
}

/// A race in progress. The caller sends the probes and awaits them; the race
/// holds the winner's place and decides.
pub struct ProbeRace {
    urls: Vec<String>,
    landed: Vec<Arrival>,
    winner: Option<usize>,
    joined: usize,
}

impl View for ProbeRace {
    type V = RaceState;

    closed spec fn view(&self) -> RaceState {
        RaceState { urls: views(self.urls@), landed: self.landed@, joined: self.joined as nat }
    }
}

impl ProbeRace {
    /// The winner's place holds the earliest hit, and the state is well formed.
    #[verifier::type_invariant]
    closed spec fn inv(self) -> bool {
        &&& well_formed(self@)
        &&& self.winner == first_hit(self.landed@)
    }

    /// Starts a race over the candidates: no probe has finished, none was joined.
    pub fn launch(urls: Vec<String>) -> (race: Self)
        ensures
            well_formed(race@),
            race@ == (RaceState { urls: views(urls@), landed: Seq::empty(), joined: 0 }),
    {
        let race = ProbeRace { urls, landed: Vec::new(), winner: None, joined: 0 };
        assert(race@.landed =~= Seq::empty());
        race
    }

    /// The number of candidates.
    pub fn candidates(&self) -> (count: usize)
        ensures
            count == self@.urls.len(),
    {
        self.urls.len()
    }

    /// Records that a candidate's probe has finished. A hit takes the
    /// winner's place if no earlier hit holds it.
    pub fn complete(&mut self, candidate: usize, reply: ProbeReply)
        requires
            candidate < old(self)@.urls.len(),
        ensures
            well_formed(final(self)@),
            final(self)@ == (RaceState {
                landed: old(self)@.landed.push(Arrival { candidate, reply }),
                ..old(self)@
            }),
    {
        proof {
            use_type_invariant(&*self);
        }
        let mut taken = ProbeRace { urls: Vec::new(), landed: Vec::new(), winner: None, joined: 0 };
        std::mem::swap(self, &mut taken);
        let ProbeRace { urls, landed, winner, joined } = taken;
        let mut landed = landed;
        let ghost before = landed@;
        let arrival = Arrival { candidate, reply };
        landed.push(arrival);
        let winner = match (winner, classify(reply)) {
            (None, ProbeOutcome::Hit) => Some(candidate),
            (held, _) => held,
        };
        proof {
            let after = landed@;
            assert(after.drop_last() =~= before);
            assert(after.last() == arrival);
            assert forall|c: int| 0 <= c < joined implies has_landed(after, c) by {
                assert(has_landed(before, c));
                let k = choose|k: int|
                    0 <= k < before.len() && (#[trigger] before[k]).candidate == c;
                assert(after[k].candidate == c);
            }
        }
        *self = ProbeRace { urls, landed, winner, joined };
    }

    /// Whether a candidate's probe has finished.
    pub fn has_landed(&self, candidate: usize) -> (landed: bool)
        ensures
            landed == has_landed(self@.landed, candidate as int),
    {
        let mut i: usize = 0;
        while i < self.landed.len()
            invariant
                0 <= i <= self.landed@.len(),
                forall|k: int| 0 <= k < i ==> (#[trigger] self.landed@[k]).candidate != candidate,
            decreases self.landed@.len() - i,
        {
            if self.landed[i].candidate == candidate {
                return true;
            }
            i += 1;
        }
        false
    }

    /// The candidate whose probe is joined next, if any is left.
    pub fn awaited(&self) -> (next: Option<usize>)
        ensures
            next == if self@.joined < self@.urls.len() {
                Some(self@.joined as usize)
            } else {
                None
            },
    {
        if self.joined < self.urls.len() {
            Some(self.joined)
        } else {
            None
        }
    }

    /// Joins the next probe, which has finished, and looks at the winner's
    /// place: the answer is the address there, if there is one; the failure
    /// that the stream was not found, once every probe was joined; and
    /// nothing yet otherwise.
    pub fn join_next(&mut self) -> (step: Option<Result<String, TwitchRecoverError>>)
        requires
            old(self)@.joined < old(self)@.urls.len(),
            has_landed(old(self)@.landed, old(self)@.joined as int),
        ensures
            well_formed(final(self)@),
            final(self)@ == (RaceState { joined: old(self)@.joined + 1, ..old(self)@ }),
            step_view(step) == verdict(final(self)@),
    {
        proof {
            use_type_invariant(&*self);
        }
        let count = self.urls.len();
        assert(self.joined < count) by {
            assert(self@.urls.len() == self.urls@.len());
        }
        self.joined = self.joined + 1;
        match self.winner {
            Some(winner) => {
                proof {
                    lemma_first_hit_position(self.landed@);
                }
                Some(Ok(self.urls[winner].clone()))
            },
            None => {
                if self.joined == count {
                    Some(Err(TwitchRecoverError::StreamNotFound))
                } else {
                    None
                }
            },
        }
    }
}

/// A race ends without an address only after every probe has finished, none
/// of them a hit.
pub proof fn lemma_not_found_is_final(state: RaceState)
    requires
        well_formed(state),
        verdict(state) == Some(
            Err::<Seq<char>, TwitchRecoverError>(TwitchRecoverError::StreamNotFound),
        ),
    ensures
        state.joined == state.urls.len(),
        forall|c: int| 0 <= c < state.urls.len() ==> has_landed(state.landed, c),
        forall|k: int|
            0 <= k < state.landed.len() ==> outcome_of((#[trigger] state.landed[k]).reply)
                != ProbeOutcome::Hit,
{
    lemma_first_hit_position(state.landed);
}

/// Whenever a race gives an answer, it is the answer of `race_result` on the
/// probes that have finished by then; and once a hit has landed, no probe
/// that finishes later changes it.
pub proof fn lemma_answer_is_settled(state: RaceState, later: Arrival)
    requires
        well_formed(state),
        first_hit(state.landed) is Some,
    ensures
        verdict(state) == Some(race_result(state.urls, state.landed)),
        race_result(state.urls, state.landed.push(later)) == race_result(
            state.urls,
            state.landed,
        ),
{
    assert(state.landed.push(later).drop_last() =~= state.landed);
}

} // verus!
