//! The per-session episode registry and its evidence ledgers.
//!
//! A session owns an ordered list of episodes.  Each episode has an
//! evidence ledger: its start state, the agent's declared intent, the
//! triggers fired, the frames captured and the observations the agent
//! appended.  At most one episode is active; triggers and captures go to
//! it.  The payloads that carry floating-point data (start state, intent,
//! trigger kind and timing, frame contents, observation interval and
//! confidence) are type parameters the application fills in; the registry
//! only files and finds them.

use vstd::prelude::*;
use crate::error::Error;
use crate::ids::{is_prefixed_id, EpisodeId, FrameId, ObservationId, SessionId, TriggerEventId};
use crate::model::{InputMode, WaitOutcome, WaitPolicy};

verus! {

/// A trigger recorded into an episode.  `event` carries the trigger kind
/// and the virtual time it fired at.
pub struct TriggerRecord<T> {
    pub trigger_id: TriggerEventId,
    pub wait_policy: WaitPolicy,
    pub input_mode: InputMode,
    pub wait_outcome: WaitOutcome,
    pub event: T,
}

pub struct TriggerRecordView<T> {
    pub trigger_id: Seq<char>,
    pub wait_policy: WaitPolicy,
    pub input_mode: InputMode,
    pub wait_outcome: WaitOutcome,
    pub event: T,
}

impl<T> View for TriggerRecord<T> {
    type V = TriggerRecordView<T>;

    open spec fn view(&self) -> TriggerRecordView<T> {
        TriggerRecordView {
            trigger_id: self.trigger_id@,
            wait_policy: self.wait_policy,
            input_mode: self.input_mode,
            wait_outcome: self.wait_outcome,
            event: self.event,
        }
    }
}

/// A captured frame filed into an episode.
pub struct FrameRecord<F> {
    pub frame_id: FrameId,
    pub episode_id: EpisodeId,
    pub frame: F,
}

pub struct FrameRecordView<F> {
    pub frame_id: Seq<char>,
    pub episode_id: Seq<char>,
    pub frame: F,
}

impl<F> View for FrameRecord<F> {
    type V = FrameRecordView<F>;

    open spec fn view(&self) -> FrameRecordView<F> {
        FrameRecordView { frame_id: self.frame_id@, episode_id: self.episode_id@, frame: self.frame }
    }
}

/// An agent claim appended to an episode; `detail` carries the optional
/// interval and the confidence.
pub struct ObservationRecord<O> {
    pub observation_id: ObservationId,
    pub episode_id: EpisodeId,
    pub claim: String,
    pub evidence_frame_ids: Vec<FrameId>,
    pub detail: O,
}

pub struct ObservationRecordView<O> {
    pub observation_id: Seq<char>,
    pub episode_id: Seq<char>,
    pub claim: Seq<char>,
    pub evidence_frame_ids: Seq<Seq<char>>,
    pub detail: O,
}

impl<O> View for ObservationRecord<O> {
    type V = ObservationRecordView<O>;

    open spec fn view(&self) -> ObservationRecordView<O> {
        ObservationRecordView {
            observation_id: self.observation_id@,
            episode_id: self.episode_id@,
            claim: self.claim@,
            evidence_frame_ids: self.evidence_frame_ids@.map_values(|f: FrameId| f@),
            detail: self.detail,
        }
    }
}

/// Everything recorded in one episode.
pub struct EvidenceLedger<S, I, T, F, O> {
    pub start_state: Option<S>,
    pub intent: Option<I>,
    pub triggers: Vec<TriggerRecord<T>>,
    pub frames: Vec<FrameRecord<F>>,
    pub observations: Vec<ObservationRecord<O>>,
}

pub struct LedgerView<S, I, T, F, O> {
    pub start_state: Option<S>,
    pub intent: Option<I>,
    pub triggers: Seq<TriggerRecordView<T>>,
    pub frames: Seq<FrameRecordView<F>>,
    pub observations: Seq<ObservationRecordView<O>>,
}

impl<S, I, T, F, O> View for EvidenceLedger<S, I, T, F, O> {
    type V = LedgerView<S, I, T, F, O>;

    open spec fn view(&self) -> LedgerView<S, I, T, F, O> {
        LedgerView {
            start_state: self.start_state,
            intent: self.intent,
            triggers: self.triggers@.map_values(|r: TriggerRecord<T>| r@),
            frames: self.frames@.map_values(|r: FrameRecord<F>| r@),
            observations: self.observations@.map_values(|r: ObservationRecord<O>| r@),
        }
    }
}

/// The ledger of an episode that has just started.
pub open spec fn fresh_ledger<S, I, T, F, O>(start_state: S) -> LedgerView<S, I, T, F, O> {
    LedgerView {
        start_state: Some(start_state),
        intent: None,
        triggers: Seq::empty(),
        frames: Seq::empty(),
        observations: Seq::empty(),
    }
}

struct EpisodeRecord<S, I, T, F, O> {
    id: EpisodeId,
    ledger: EvidenceLedger<S, I, T, F, O>,
}

/// Abstract state of a registry: the session, the active episode, and the
/// episodes in creation order (their ids and ledgers, index for index).
pub struct RegistryView<S, I, T, F, O> {
    pub session: Seq<char>,
    pub active: Option<Seq<char>>,
    pub ids: Seq<Seq<char>>,
    pub ledgers: Seq<LedgerView<S, I, T, F, O>>,
}

/// The episodes of one session.
pub struct EpisodeRegistry<S, I, T, F, O> {
    session_id: SessionId,
    active_episode: Option<EpisodeId>,
    episodes: Vec<EpisodeRecord<S, I, T, F, O>>,
}

impl<S, I, T, F, O> View for EpisodeRegistry<S, I, T, F, O> {
    type V = RegistryView<S, I, T, F, O>;

    closed spec fn view(&self) -> RegistryView<S, I, T, F, O> {
        RegistryView {
            session: self.session_id@,
            active: match self.active_episode {
                Some(e) => Some(e@),
                None => None,
            },
            ids: self.episodes@.map_values(|e: EpisodeRecord<S, I, T, F, O>| e.id@),
            ledgers: self.episodes@.map_values(|e: EpisodeRecord<S, I, T, F, O>| e.ledger@),
        }
    }
}

/// Index of the episode a lookup by `id` finds: the first with that id.
pub open spec fn episode_index<S, I, T, F, O>(v: RegistryView<S, I, T, F, O>, id: Seq<char>) -> Option<int> {
    v.ids.index_of_first(id)
}

/// The ledger a lookup by `id` finds, if any.
pub open spec fn lookup<S, I, T, F, O>(v: RegistryView<S, I, T, F, O>, id: Seq<char>) -> Option<LedgerView<S, I, T, F, O>> {
    match episode_index(v, id) {
        Some(i) => Some(v.ledgers[i]),
        None => None,
    }
}

/// State after starting episode `id` with `start_state`.
pub open spec fn after_start<S, I, T, F, O>(v: RegistryView<S, I, T, F, O>, id: Seq<char>, start_state: S) -> RegistryView<S, I, T, F, O> {
    RegistryView {
        session: v.session,
        active: Some(id),
        ids: v.ids.push(id),
        ledgers: v.ledgers.push(fresh_ledger(start_state)),
    }
}

/// State after replacing the ledger at index `i`.
pub open spec fn with_ledger<S, I, T, F, O>(v: RegistryView<S, I, T, F, O>, i: int, l: LedgerView<S, I, T, F, O>) -> RegistryView<S, I, T, F, O> {
    RegistryView { session: v.session, active: v.active, ids: v.ids, ledgers: v.ledgers.update(i, l) }
}

/// Ledger `l` with its intent declared.
pub open spec fn ledger_with_intent<S, I, T, F, O>(l: LedgerView<S, I, T, F, O>, intent: I) -> LedgerView<S, I, T, F, O> {
    LedgerView { intent: Some(intent), ..l }
}

pub open spec fn ledger_with_trigger<S, I, T, F, O>(l: LedgerView<S, I, T, F, O>, r: TriggerRecordView<T>) -> LedgerView<S, I, T, F, O> {
    LedgerView { triggers: l.triggers.push(r), ..l }
}

pub open spec fn ledger_with_frame<S, I, T, F, O>(l: LedgerView<S, I, T, F, O>, r: FrameRecordView<F>) -> LedgerView<S, I, T, F, O> {
    LedgerView { frames: l.frames.push(r), ..l }
}

pub open spec fn ledger_with_observation<S, I, T, F, O>(l: LedgerView<S, I, T, F, O>, r: ObservationRecordView<O>) -> LedgerView<S, I, T, F, O> {
    LedgerView { observations: l.observations.push(r), ..l }
}

/// Ledger `l` with the wait outcome of its last trigger set to `outcome`,
/// provided that trigger is `trigger_id`; otherwise `l` unchanged.
pub open spec fn ledger_settled<S, I, T, F, O>(l: LedgerView<S, I, T, F, O>, trigger_id: Seq<char>, outcome: WaitOutcome) -> LedgerView<S, I, T, F, O> {
    if l.triggers.len() > 0 && l.triggers.last().trigger_id == trigger_id {
        LedgerView {
            triggers: l.triggers.update(
                l.triggers.len() - 1,
                TriggerRecordView { wait_outcome: outcome, ..l.triggers.last() },
            ),
            ..l
        }
    } else {
        l
    }
}

/// Ids of the frames of a ledger, in capture order.
pub open spec fn frame_ids_of<S, I, T, F, O>(l: LedgerView<S, I, T, F, O>) -> Seq<Seq<char>> {
    l.frames.map_values(|r: FrameRecordView<F>| r.frame_id)
}

/// Frame lookup across ledgers: the first ledger holding a frame with the
/// id, and in it the first such frame.
pub open spec fn find_frame_in<S, I, T, F, O>(ls: Seq<LedgerView<S, I, T, F, O>>, frame_id: Seq<char>) -> Option<FrameRecordView<F>>
    decreases ls.len(),
{
    if ls.len() == 0 {
        None
    } else {
        match frame_ids_of(ls[0]).index_of_first(frame_id) {
            Some(j) => Some(ls[0].frames[j]),
            None => find_frame_in(ls.drop_first(), frame_id),
        }
    }
}


/// Whether no ledger of `ls` holds a frame with `frame_id`.
pub open spec fn frame_id_unused<S, I, T, F, O>(ls: Seq<LedgerView<S, I, T, F, O>>, frame_id: Seq<char>) -> bool {
    forall|k: int| 0 <= k < ls.len() ==> !#[trigger] frame_ids_of(ls[k]).contains(frame_id)
}

proof fn lemma_index_of_first_push<A>(s: Seq<A>, a: A)
    requires
        !s.contains(a),
    ensures
        s.push(a).index_of_first(a) == Some(s.len() as int),
{
    let t = s.push(a);
    t.index_of_first_ensures(a);
    assert(t[s.len() as int] == a);
    assert(t.contains(a));
    let k = t.index_of_first(a).unwrap();
    if k < s.len() {
        assert(t[k] == s[k]);
        assert(s.contains(a));
    }
}

proof fn lemma_index_of_first_push_other<A>(s: Seq<A>, a: A, b: A)
    requires
        a != b,
    ensures
        s.push(a).index_of_first(b) == s.index_of_first(b),
{
    let t = s.push(a);
    t.index_of_first_ensures(b);
    s.index_of_first_ensures(b);
    if s.contains(b) {
        let k = choose|k: int| 0 <= k < s.len() && s[k] == b;
        assert(t[k] == b);
        let i = s.index_of_first(b).unwrap();
        let j = t.index_of_first(b).unwrap();
        assert(t[i] == b);
        assert(s[j] == b);
    } else if t.contains(b) {
        let j = t.index_of_first(b).unwrap();
        assert(s[j] == b);
    }
}

/// Starting an episode with a fresh id makes it the active one, and a
/// lookup of that id then gives a ledger holding only the start state;
/// every other id looks up as before.
pub proof fn law_start_then_lookup<S, I, T, F, O>(v: RegistryView<S, I, T, F, O>, id: Seq<char>, start_state: S, other: Seq<char>)
    requires
        v.ids.len() == v.ledgers.len(),
        !v.ids.contains(id),
        other != id,
    ensures
        after_start(v, id, start_state).active == Some(id),
        lookup(after_start(v, id, start_state), id) == Some(fresh_ledger::<S, I, T, F, O>(start_state)),
        lookup(after_start(v, id, start_state), other) == lookup(v, other),
{
    lemma_index_of_first_push(v.ids, id);
    lemma_index_of_first_push_other(v.ids, id, other);
    v.ids.index_of_first_ensures(other);
}

/// Editing the ledger at position `i` leaves the lookup of every id that
/// does not resolve to `i` unchanged, and makes the id at `i` resolve to
/// the new ledger.
pub proof fn law_edit_is_local<S, I, T, F, O>(v: RegistryView<S, I, T, F, O>, i: int, l: LedgerView<S, I, T, F, O>, other: Seq<char>)
    requires
        v.ids.len() == v.ledgers.len(),
        0 <= i < v.ids.len(),
        episode_index(v, other) != Some(i),
    ensures
        lookup(with_ledger(v, i, l), other) == lookup(v, other),
        with_ledger(v, i, l).active == v.active,
        with_ledger(v, i, l).ids == v.ids,
{
    v.ids.index_of_first_ensures(other);
}

/// After the intent is set on the active episode, reading that episode's
/// evidence gives back the intent, with its other records unchanged.
pub proof fn law_intent_read_back<S, I, T, F, O>(v: RegistryView<S, I, T, F, O>, intent: I)
    requires
        v.ids.len() == v.ledgers.len(),
        v.active is Some,
        episode_index(v, v.active->0) is Some,
    ensures
        ({
            let a = v.active->0;
            let i = episode_index(v, a)->0;
            let after = with_ledger(v, i, ledger_with_intent(v.ledgers[i], intent));
            &&& lookup(after, a) matches Some(l)
            &&& l.intent == Some(intent)
            &&& l.start_state == v.ledgers[i].start_state
            &&& l.triggers == v.ledgers[i].triggers
            &&& l.frames == v.ledgers[i].frames
            &&& l.observations == v.ledgers[i].observations
        }),
{
    v.ids.index_of_first_ensures(v.active->0);
}

/// An appended observation is the last observation of its episode's
/// ledger on the next read.
pub proof fn law_observation_read_back<S, I, T, F, O>(v: RegistryView<S, I, T, F, O>, episode_id: Seq<char>, r: ObservationRecordView<O>)
    requires
        v.ids.len() == v.ledgers.len(),
        episode_index(v, episode_id) is Some,
    ensures
        ({
            let i = episode_index(v, episode_id)->0;
            let after = with_ledger(v, i, ledger_with_observation(v.ledgers[i], r));
            &&& lookup(after, episode_id) matches Some(l)
            &&& l.observations.last() == r
            &&& l.observations.drop_last() == v.ledgers[i].observations
        }),
{
    v.ids.index_of_first_ensures(episode_id);
    let i = episode_index(v, episode_id)->0;
    let o = v.ledgers[i].observations;
    assert(o.push(r).drop_last() =~= o);
}

/// A trigger recorded into the active episode and then settled reads back
/// as that episode's last trigger, carrying the settled outcome; the
/// triggers recorded before it are unchanged.
pub proof fn law_trigger_settles<S, I, T, F, O>(v: RegistryView<S, I, T, F, O>, r: TriggerRecordView<T>, outcome: WaitOutcome)
    requires
        v.ids.len() == v.ledgers.len(),
        v.active is Some,
        episode_index(v, v.active->0) is Some,
    ensures
        ({
            let a = v.active->0;
            let i = episode_index(v, a)->0;
            let recorded = with_ledger(v, i, ledger_with_trigger(v.ledgers[i], r));
            let settled = with_ledger(recorded, i, ledger_settled(recorded.ledgers[i], r.trigger_id, outcome));
            &&& episode_index(recorded, a) == Some(i)
            &&& lookup(settled, a) matches Some(l)
            &&& l.triggers.last() == (TriggerRecordView { wait_outcome: outcome, ..r })
            &&& l.triggers.drop_last() == v.ledgers[i].triggers
        }),
{
    let a = v.active->0;
    v.ids.index_of_first_ensures(a);
    let i = episode_index(v, a)->0;
    let t = v.ledgers[i].triggers;
    let settled_t = t.push(r).update(t.len() as int, TriggerRecordView { wait_outcome: outcome, ..r });
    assert(settled_t.drop_last() =~= t);
}

proof fn lemma_find_unused<S, I, T, F, O>(ls: Seq<LedgerView<S, I, T, F, O>>, frame_id: Seq<char>)
    requires
        frame_id_unused(ls, frame_id),
    ensures
        find_frame_in(ls, frame_id) is None,
    decreases ls.len(),
{
    if ls.len() > 0 {
        let f0 = frame_ids_of(ls[0]);
        f0.index_of_first_ensures(frame_id);
        assert(!f0.contains(frame_id));
        let rest = ls.drop_first();
        assert forall|k: int| 0 <= k < rest.len() implies !#[trigger] frame_ids_of(rest[k]).contains(frame_id) by {
            assert(rest[k] == ls[k + 1]);
        }
        lemma_find_unused(rest, frame_id);
    }
}

proof fn lemma_find_after_push<S, I, T, F, O>(ls: Seq<LedgerView<S, I, T, F, O>>, i: int, r: FrameRecordView<F>)
    requires
        0 <= i < ls.len(),
        frame_id_unused(ls, r.frame_id),
    ensures
        find_frame_in(ls.update(i, ledger_with_frame(ls[i], r)), r.frame_id) == Some(r),
    decreases ls.len(),
{
    let nl = ls.update(i, ledger_with_frame(ls[i], r));
    let f0 = frame_ids_of(nl[0]);
    f0.index_of_first_ensures(r.frame_id);
    if i == 0 {
        let old_ids = frame_ids_of(ls[0]);
        assert(!old_ids.contains(r.frame_id));
        assert(f0 =~= old_ids.push(r.frame_id));
        lemma_index_of_first_push(old_ids, r.frame_id);
        assert(nl[0].frames[old_ids.len() as int] == r);
    } else {
        assert(nl[0] == ls[0]);
        assert(!f0.contains(r.frame_id));
        let rest = ls.drop_first();
        assert forall|k: int| 0 <= k < rest.len() implies !#[trigger] frame_ids_of(rest[k]).contains(r.frame_id) by {
            assert(rest[k] == ls[k + 1]);
        }
        lemma_find_after_push(rest, i - 1, r);
        assert(nl.drop_first() =~= rest.update(i - 1, ledger_with_frame(rest[i - 1], r)));
    }
}

/// A frame filed under an id that no episode used before is the frame a
/// lookup by that id finds; before the filing the lookup finds nothing.
pub proof fn law_frame_read_back<S, I, T, F, O>(v: RegistryView<S, I, T, F, O>, episode_id: Seq<char>, r: FrameRecordView<F>)
    requires
        v.ids.len() == v.ledgers.len(),
        episode_index(v, episode_id) is Some,
        frame_id_unused(v.ledgers, r.frame_id),
    ensures
        find_frame_in(v.ledgers, r.frame_id) is None,
        ({
            let i = episode_index(v, episode_id)->0;
            find_frame_in(with_ledger(v, i, ledger_with_frame(v.ledgers[i], r)).ledgers, r.frame_id) == Some(r)
        }),
{
    v.ids.index_of_first_ensures(episode_id);
    lemma_find_unused(v.ledgers, r.frame_id);
    lemma_find_after_push(v.ledgers, episode_index(v, episode_id)->0, r);
}

impl<S, I, T, F, O> EpisodeRegistry<S, I, T, F, O> {
    /// A registry with no episodes for `session_id`.
    pub fn new(session_id: SessionId) -> (r: Self)
        ensures
            r@.session == session_id@,
            r@.active is None,
            r@.ids.len() == 0,
            r@.ledgers.len() == 0,
    {
        let r = EpisodeRegistry { session_id, active_episode: None, episodes: Vec::new() };
        proof {
            assert(r@.ids =~= Seq::empty());
            assert(r@.ledgers =~= Seq::empty());
        }
        r
    }

    /// Every registry holds exactly one ledger per episode it started.
    pub proof fn law_one_ledger_per_episode(&self)
        ensures
            self@.ids.len() == self@.ledgers.len(),
    {
    }

    pub fn session_id(&self) -> (s: &SessionId)
        ensures
            s@ == self@.session,
    {
        &self.session_id
    }

    /// The active episode, if any.
    pub fn active_episode(&self) -> (a: Option<&EpisodeId>)
        ensures
            match a {
                Some(e) => self@.active == Some(e@),
                None => self@.active is None,
            },
    {
        match &self.active_episode {
            Some(e) => Some(e),
            None => None,
        }
    }

    /// Position of the first episode with `id`.
    fn find_index(&self, id: &EpisodeId) -> (r: Option<usize>)
        ensures
            match r {
                Some(i) => episode_index(self@, id@) == Some(i as int) && i < self.episodes@.len(),
                None => episode_index(self@, id@) is None,
            },
    {
        let ghost ids = self@.ids;
        proof {
            ids.index_of_first_ensures(id@);
        }
        let n = self.episodes.len();
        let mut i: usize = 0;
        while i < n
            invariant
                n == self.episodes@.len(),
                ids == self@.ids,
                ids.len() == n,
                i <= n,
                forall|j: int| 0 <= j < i ==> ids[j] != id@,
            decreases n - i,
        {
            if self.episodes[i].id.same(id) {
                proof {
                    ids.index_of_first_ensures(id@);
                    assert(ids[i as int] == id@);
                    assert(ids.contains(id@));
                    let k = ids.index_of_first(id@).unwrap();
                    assert(k == i as int) by {
                        if k < i as int {
                            assert(ids[k] != id@);
                        }
                    }
                }
                return Some(i);
            }
            i = i + 1;
        }
        proof {
            ids.index_of_first_ensures(id@);
            assert(!ids.contains(id@)) by {
                if ids.contains(id@) {
                    let k = choose|k: int| 0 <= k < ids.len() && ids[k] == id@;
                    assert(ids[k] != id@);
                }
            }
        }
        None
    }

    /// Makes a new episode with `start_state` the active one and returns its
    /// fresh `ep-<uuid>` id.  The new ledger holds only the start state.
    pub fn start_episode(&mut self, start_state: S) -> (id: EpisodeId)
        ensures
            is_prefixed_id("ep"@, id@),
            final(self)@ == after_start(old(self)@, id@, start_state),
    {
        let id = EpisodeId::new();
        let ledger = EvidenceLedger {
            start_state: Some(start_state),
            intent: None,
            triggers: Vec::new(),
            frames: Vec::new(),
            observations: Vec::new(),
        };
        self.episodes.push(EpisodeRecord { id: id.duplicate(), ledger });
        self.active_episode = Some(id.duplicate());
        proof {
            let v = self@;
            let w = after_start(old(self)@, id@, start_state);
            assert(v.ids =~= w.ids);
            assert(v.ledgers[v.ledgers.len() - 1].triggers =~= Seq::<TriggerRecordView<T>>::empty());
            assert(v.ledgers[v.ledgers.len() - 1].frames =~= Seq::<FrameRecordView<F>>::empty());
            assert(v.ledgers[v.ledgers.len() - 1].observations =~= Seq::<ObservationRecordView<O>>::empty());
            assert(v.ledgers =~= w.ledgers);
        }
        id
    }

    /// The active episode's id, or `NoActiveEpisode` naming the session.
    pub fn require_active(&self) -> (r: Result<EpisodeId, Error>)
        ensures
            match self@.active {
                Some(a) => r matches Ok(id) && id@ == a,
                None => r matches Err(Error::NoActiveEpisode(s)) && s@ == self@.session,
            },
    {
        match &self.active_episode {
            Some(e) => Ok(e.duplicate()),
            None => Err(Error::NoActiveEpisode(self.session_id.0.clone())),
        }
    }

    /// `Ok` when an episode with `id` exists, else `EpisodeNotFound(id)`.
    pub fn require_episode(&self, episode_id: &EpisodeId) -> (r: Result<(), Error>)
        ensures
            match lookup(self@, episode_id@) {
                Some(_) => r is Ok,
                None => r matches Err(Error::EpisodeNotFound(s)) && s@ == episode_id@,
            },
    {
        match self.find_index(episode_id) {
            Some(_) => Ok(()),
            None => Err(Error::EpisodeNotFound(episode_id.0.clone())),
        }
    }

    /// The ledger of the episode with `id`.
    pub fn evidence(&self, episode_id: &EpisodeId) -> (r: Result<&EvidenceLedger<S, I, T, F, O>, Error>)
        ensures
            match lookup(self@, episode_id@) {
                Some(l) => r matches Ok(ledger) && ledger@ == l,
                None => r matches Err(Error::EpisodeNotFound(s)) && s@ == episode_id@,
            },
    {
        match self.find_index(episode_id) {
            Some(i) => Ok(&self.episodes[i].ledger),
            None => Err(Error::EpisodeNotFound(episode_id.0.clone())),
        }
    }

    /// Replaces the ledger at `i` by `f`-style edit: removes the record,
    /// hands it back for the caller to change, and reinserts it.
    fn take_episode(&mut self, i: usize) -> (rec: EpisodeRecord<S, I, T, F, O>)
        requires
            i < old(self).episodes@.len(),
        ensures
            rec == old(self).episodes@[i as int],
            final(self).episodes@ == old(self).episodes@.remove(i as int),
            final(self).session_id == old(self).session_id,
            final(self).active_episode == old(self).active_episode,
    {
        self.episodes.remove(i)
    }

    fn put_episode(&mut self, i: usize, rec: EpisodeRecord<S, I, T, F, O>)
        requires
            i <= old(self).episodes@.len(),
        ensures
            final(self).episodes@ == old(self).episodes@.insert(i as int, rec),
            final(self).session_id == old(self).session_id,
            final(self).active_episode == old(self).active_episode,
    {
        self.episodes.insert(i, rec);
    }

    /// Records the agent's intent into the active episode's ledger.
    /// Errors with `NoActiveEpisode` when no episode is active, and with
    /// `EpisodeNotFound` when the active id names no episode; the registry
    /// is then unchanged.
    pub fn set_intent(&mut self, intent: I) -> (r: Result<(), Error>)
        ensures
            match old(self)@.active {
                None => r matches Err(Error::NoActiveEpisode(s)) && s@ == old(self)@.session
                    && final(self)@ == old(self)@,
                Some(a) => match episode_index(old(self)@, a) {
                    None => r matches Err(Error::EpisodeNotFound(s)) && s@ == a
                        && final(self)@ == old(self)@,
                    Some(i) => r is Ok && final(self)@ == with_ledger(
                        old(self)@,
                        i,
                        ledger_with_intent(old(self)@.ledgers[i], intent),
                    ),
                },
            },
    {
        let ep_id = match self.require_active() {
            Ok(e) => e,
            Err(e) => {
                return Err(e);
            },
        };
        let i = match self.find_index(&ep_id) {
            Some(i) => i,
            None => {
                return Err(Error::EpisodeNotFound(ep_id.0.clone()));
            },
        };
        let ghost before = self@;
        let ghost old_eps = self.episodes@;
        let mut rec = self.take_episode(i);
        rec.ledger.intent = Some(intent);
        self.put_episode(i, rec);
        proof {
            assert(self.episodes@ =~= old_eps.update(i as int, rec));
            assert(self@.ids =~= before.ids);
            assert(self@.ledgers =~= before.ledgers.update(i as int, ledger_with_intent(before.ledgers[i as int], intent)));
        }
        Ok(())
    }

    /// Appends an agent observation to the episode with `episode_id` and
    /// returns its fresh `ob-<uuid>` id; `EpisodeNotFound` if there is none.
    pub fn append_observation(
        &mut self,
        episode_id: &EpisodeId,
        claim: String,
        evidence_frame_ids: Vec<FrameId>,
        detail: O,
    ) -> (r: Result<ObservationId, Error>)
        ensures
            match episode_index(old(self)@, episode_id@) {
                None => r matches Err(Error::EpisodeNotFound(s)) && s@ == episode_id@
                    && final(self)@ == old(self)@,
                Some(i) => r matches Ok(oid) && is_prefixed_id("ob"@, oid@) && final(self)@
                    == with_ledger(
                    old(self)@,
                    i,
                    ledger_with_observation(
                        old(self)@.ledgers[i],
                        ObservationRecordView {
                            observation_id: oid@,
                            episode_id: episode_id@,
                            claim: claim@,
                            evidence_frame_ids: evidence_frame_ids@.map_values(|f: FrameId| f@),
                            detail,
                        },
                    ),
                ),
            },
    {
        let i = match self.find_index(episode_id) {
            Some(i) => i,
            None => {
                return Err(Error::EpisodeNotFound(episode_id.0.clone()));
            },
        };
        let id = ObservationId::new();
        let ghost before = self@;
        let ghost old_eps = self.episodes@;
        let ghost frames_view = evidence_frame_ids@.map_values(|f: FrameId| f@);
        let ghost claim_view = claim@;
        let record = ObservationRecord {
            observation_id: id.duplicate(),
            episode_id: episode_id.duplicate(),
            claim,
            evidence_frame_ids,
            detail,
        };
        let mut rec = self.take_episode(i);
        let ghost old_obs = rec.ledger.observations@;
        rec.ledger.observations.push(record);
        self.put_episode(i, rec);
        proof {
            let nv = ObservationRecordView {
                observation_id: id@,
                episode_id: episode_id@,
                claim: claim_view,
                evidence_frame_ids: frames_view,
                detail,
            };
            assert(rec.ledger.observations@.map_values(|r: ObservationRecord<O>| r@) =~= old_obs.map_values(|r: ObservationRecord<O>| r@).push(nv));
            assert(self.episodes@ =~= old_eps.update(i as int, rec));
            assert(self@.ids =~= before.ids);
            assert(self@.ledgers =~= before.ledgers.update(i as int, ledger_with_observation(before.ledgers[i as int], nv)));
        }
        Ok(id)
    }

    /// Records a trigger into the active episode with a fresh `tr-<uuid>`
    /// id and `NotRequested` outcome; the outcome is settled later by
    /// `settle_trigger`.  `NoActiveEpisode` when no episode is active.
    pub fn record_trigger(&mut self, event: T, wait_policy: WaitPolicy, input_mode: InputMode) -> (r:
        Result<TriggerEventId, Error>)
        ensures
            match old(self)@.active {
                None => r matches Err(Error::NoActiveEpisode(s)) && s@ == old(self)@.session
                    && final(self)@ == old(self)@,
                Some(a) => r matches Ok(tid) && is_prefixed_id("tr"@, tid@) && final(self)@ == match episode_index(old(self)@, a) {
                    None => old(self)@,
                    Some(i) => with_ledger(
                        old(self)@,
                        i,
                        ledger_with_trigger(
                            old(self)@.ledgers[i],
                            TriggerRecordView {
                                trigger_id: tid@,
                                wait_policy,
                                input_mode,
                                wait_outcome: WaitOutcome::NotRequested,
                                event,
                            },
                        ),
                    ),
                },
            },
    {
        let ep_id = match self.require_active() {
            Ok(e) => e,
            Err(e) => {
                return Err(e);
            },
        };
        let tid = TriggerEventId::new();
        match self.find_index(&ep_id) {
            None => {},
            Some(i) => {
                let ghost before = self@;
                let ghost old_eps = self.episodes@;
                let record = TriggerRecord {
                    trigger_id: tid.duplicate(),
                    wait_policy,
                    input_mode,
                    wait_outcome: WaitOutcome::NotRequested,
                    event,
                };
                let mut rec = self.take_episode(i);
                let ghost old_tr = rec.ledger.triggers@;
                rec.ledger.triggers.push(record);
                self.put_episode(i, rec);
                proof {
                    let nv = TriggerRecordView {
                        trigger_id: tid@,
                        wait_policy,
                        input_mode,
                        wait_outcome: WaitOutcome::NotRequested,
                        event,
                    };
                    assert(rec.ledger.triggers@.map_values(|r: TriggerRecord<T>| r@) =~= old_tr.map_values(|r: TriggerRecord<T>| r@).push(nv));
                    assert(self.episodes@ =~= old_eps.update(i as int, rec));
                    assert(self@.ids =~= before.ids);
                    assert(self@.ledgers =~= before.ledgers.update(i as int, ledger_with_trigger(before.ledgers[i as int], nv)));
                }
            },
        }
        Ok(tid)
    }

    /// Back-fills the truthful wait outcome onto the active episode's last
    /// trigger, if that trigger is `trigger_id`.  Otherwise nothing changes.
    pub fn settle_trigger(&mut self, trigger_id: &TriggerEventId, outcome: WaitOutcome)
        ensures
            final(self)@ == match old(self)@.active {
                None => old(self)@,
                Some(a) => match episode_index(old(self)@, a) {
                    None => old(self)@,
                    Some(i) => with_ledger(
                        old(self)@,
                        i,
                        ledger_settled(old(self)@.ledgers[i], trigger_id@, outcome),
                    ),
                },
            },
    {
        let ep_id = match &self.active_episode {
            Some(e) => e.duplicate(),
            None => {
                return;
            },
        };
        let i = match self.find_index(&ep_id) {
            Some(i) => i,
            None => {
                return;
            },
        };
        let ghost before = self@;
        let ghost old_eps = self.episodes@;
        let mut rec = self.take_episode(i);
        let ghost old_tr = rec.ledger.triggers@;
        let n = rec.ledger.triggers.len();
        if n > 0 && rec.ledger.triggers[n - 1].trigger_id.same(trigger_id) {
            let mut last = rec.ledger.triggers.pop().unwrap();
            last.wait_outcome = outcome;
            rec.ledger.triggers.push(last);
            proof {
                let tv = old_tr.map_values(|r: TriggerRecord<T>| r@);
                assert(rec.ledger.triggers@.map_values(|r: TriggerRecord<T>| r@) =~= tv.update(
                    tv.len() - 1,
                    TriggerRecordView { wait_outcome: outcome, ..tv.last() },
                ));
            }
        }
        self.put_episode(i, rec);
        proof {
            assert(self.episodes@ =~= old_eps.update(i as int, rec));
            assert(self@.ids =~= before.ids);
            assert(self@.ledgers =~= before.ledgers.update(i as int, ledger_settled(before.ledgers[i as int], trigger_id@, outcome)));
        }
    }

    /// Files a frame into the episode with `episode_id`.  Returns whether
    /// that episode exists; when it does not, nothing changes.
    pub fn push_frame(&mut self, episode_id: &EpisodeId, record: FrameRecord<F>) -> (found: bool)
        ensures
            match episode_index(old(self)@, episode_id@) {
                None => !found && final(self)@ == old(self)@,
                Some(i) => found && final(self)@ == with_ledger(
                    old(self)@,
                    i,
                    ledger_with_frame(old(self)@.ledgers[i], record@),
                ),
            },
    {
        let i = match self.find_index(episode_id) {
            Some(i) => i,
            None => {
                return false;
            },
        };
        let ghost before = self@;
        let ghost old_eps = self.episodes@;
        let ghost rv = record@;
        let mut rec = self.take_episode(i);
        let ghost old_fr = rec.ledger.frames@;
        rec.ledger.frames.push(record);
        self.put_episode(i, rec);
        proof {
            assert(rec.ledger.frames@.map_values(|r: FrameRecord<F>| r@) =~= old_fr.map_values(|r: FrameRecord<F>| r@).push(rv));
            assert(self.episodes@ =~= old_eps.update(i as int, rec));
            assert(self@.ids =~= before.ids);
            assert(self@.ledgers =~= before.ledgers.update(i as int, ledger_with_frame(before.ledgers[i as int], rv)));
        }
        true
    }

    /// The frame with `frame_id`: searched episode by episode in creation
    /// order, and within an episode in capture order.
    pub fn find_frame(&self, frame_id: &FrameId) -> (r: Option<&FrameRecord<F>>)
        ensures
            match r {
                Some(f) => find_frame_in(self@.ledgers, frame_id@) == Some(f@),
                None => find_frame_in(self@.ledgers, frame_id@) is None,
            },
    {
        let n = self.episodes.len();
        let ghost ls = self@.ledgers;
        proof {
            assert(ls.subrange(0, n as int) =~= ls);
        }
        let mut i: usize = 0;
        while i < n
            invariant
                n == self.episodes@.len(),
                ls == self@.ledgers,
                ls.len() == n,
                i <= n,
                find_frame_in(ls, frame_id@) == find_frame_in(ls.subrange(i as int, n as int), frame_id@),
            decreases n - i,
        {
            let ghost sub = ls.subrange(i as int, n as int);
            proof {
                assert(ls[i as int] == self.episodes@[i as int].ledger@);
                assert(sub[0] == ls[i as int]);
                assert(sub.drop_first() =~= ls.subrange(i + 1, n as int));
            }
            match self.episodes[i].ledger.frame_position(frame_id) {
                Some(j) => {
                    return Some(&self.episodes[i].ledger.frames[j]);
                },
                None => {},
            }
            i = i + 1;
        }
        None
    }
}

impl<S, I, T, F, O> EvidenceLedger<S, I, T, F, O> {
    /// Position of the first frame with `frame_id` in this ledger.
    fn frame_position(&self, frame_id: &FrameId) -> (r: Option<usize>)
        ensures
            match r {
                Some(j) => j < self.frames@.len() && frame_ids_of(self@).index_of_first(frame_id@) == Some(j as int),
                None => frame_ids_of(self@).index_of_first(frame_id@) is None,
            },
    {
        let ghost fids = frame_ids_of(self@);
        proof {
            fids.index_of_first_ensures(frame_id@);
        }
        let m = self.frames.len();
        let mut j: usize = 0;
        while j < m
            invariant
                m == self.frames@.len(),
                fids == frame_ids_of(self@),
                fids.len() == m,
                j <= m,
                forall|k: int| 0 <= k < j ==> fids[k] != frame_id@,
            decreases m - j,
        {
            if self.frames[j].frame_id.same(frame_id) {
                proof {
                    fids.index_of_first_ensures(frame_id@);
                    assert(fids[j as int] == frame_id@);
                    assert(fids.contains(frame_id@));
                    let k = fids.index_of_first(frame_id@).unwrap();
                    assert(k == j as int) by {
                        if k < j as int {
                            assert(fids[k] != frame_id@);
                        }
                    }
                }
                return Some(j);
            }
            j = j + 1;
        }
        proof {
            fids.index_of_first_ensures(frame_id@);
            assert(!fids.contains(frame_id@)) by {
                if fids.contains(frame_id@) {
                    let k = choose|k: int| 0 <= k < fids.len() && fids[k] == frame_id@;
                    assert(fids[k] != frame_id@);
                }
            }
        }
        None
    }
}

} // verus!
