//! The session controller: it gates queries on the trigger token, drives the
//! ranking engine, emits the bounded response sequence with its single
//! terminator, and resolves activation ids against the most recent ranked
//! view only.

use vstd::prelude::*;

use crate::rank::RESULT_LIMIT;
use crate::rank::rank;
use crate::rank::rank_spec;
use crate::record::HistoryEntry;
use crate::record::titles_of;

verus! {

/// One outbound response event of the engine.
#[derive(Debug, PartialEq, Eq)]
pub enum Response {
    /// One ranked result: `id` is the position in the current ranked view,
    /// `name` the record title, `description` the record target.
    Append { id: u32, name: String, description: String },
    /// The terminator of a query's response sequence, emitted exactly once.
    Finished,
    /// Emitted on a successful activation, before the open action runs.
    Close,
}

/// What an activation decides: the events to emit (a single `Close`, or
/// nothing when the id is out of range) and the target to hand to the
/// external open action.
pub struct ActivateOutcome {
    pub events: Vec<Response>,
    pub target: Option<String>,
}

/// A query is recognized only when it starts with the trigger token `ch`
/// followed by a single space; the remainder is the match text.
pub open spec fn is_trigger(q: Seq<char>) -> bool {
    q.len() >= 3 && q[0] == 'c' && q[1] == 'h' && q[2] == ' '
}

/// The match text of a recognized query: everything after the trigger token
/// and its separator.
pub open spec fn trigger_text(q: Seq<char>) -> Seq<char> {
    q.skip(3)
}

/// Splits off the trigger token: the match text of a recognized query,
/// nothing otherwise.
fn parse_trigger<'a>(query: &'a str) -> (r: Option<&'a str>)
    ensures
        r is Some <==> is_trigger(query@),
        r matches Some(text) ==> text@ == trigger_text(query@),
{
    let n = query.unicode_len();
    if n >= 3 && query.get_char(0) == 'c' && query.get_char(1) == 'h' && query.get_char(2) == ' ' {
        Some(query.substring_char(3, n))
    } else {
        None
    }
}

/// The engine: the immutable record store and the ranked view of the most
/// recent query, which activation ids are resolved against.
pub struct ChromeHistorys {
    pub historys: Vec<HistoryEntry>,
    pub last_view: Vec<(usize, i64)>,
}

impl ChromeHistorys {
    /// Every entry of the current ranked view points into the store.
    pub open spec fn wf(&self) -> bool {
        forall|j: int| 0 <= j < self.last_view@.len() ==>
            (#[trigger] self.last_view@[j]).0 < self.historys@.len()
    }

    /// Builds an engine over an already-loaded store; the ranked view starts
    /// empty, so no activation id is valid before the first query.
    pub fn new(historys: Vec<HistoryEntry>) -> (r: ChromeHistorys)
        ensures
            r.historys@ == historys@,
            r.last_view@ == Seq::<(usize, i64)>::empty(),
            r.wf(),
    {
        let r = ChromeHistorys { historys, last_view: Vec::new() };
        proof {
            assert(r.last_view@ =~= Seq::<(usize, i64)>::empty());
        }
        r
    }

    /// The trigger token this engine answers to.
    pub fn name(&self) -> (r: &str)
        ensures
            r@ == "ch"@,
    {
        "ch"
    }

    /// Answers one query event. A recognized query ranks the store against
    /// its match text, records the ranked view for later activation, and
    /// returns one `Append` per view entry followed by the terminator; any
    /// other input returns the terminator alone and leaves no view to
    /// activate against. The store itself is never changed.
    pub fn search(&mut self, query: &str) -> (events: Vec<Response>)
        ensures
            final(self).historys@ == old(self).historys@,
            final(self).wf(),
            search_post(old(self).historys@, query@, final(self).last_view@, events@),
    {
        let mut events: Vec<Response> = Vec::new();
        match parse_trigger(query) {
            Some(text) => {
                let view = rank(&self.historys, text, RESULT_LIMIT);
                let store_len = self.historys.len();
                proof {
                    assert(titles_of(self.historys@).len() == store_len);
                    crate::rank::lemma_rank_props(titles_of(self.historys@), text@, RESULT_LIMIT as int);
                }
                let n = view.len();
                let mut j: usize = 0;
                while j < n
                    invariant
                        j <= n,
                        n == view@.len(),
                        n <= RESULT_LIMIT,
                        crate::rank::entries_ok(titles_of(self.historys@), text@, self.historys@.len() as int, view@),
                        self.historys@.len() == titles_of(self.historys@).len(),
                        events@.len() == j,
                        forall|m: int| 0 <= m < j ==>
                            is_append_for(#[trigger] events@[m], m, self.historys@[view@[m].0 as int]),
                    decreases n - j,
                {
                    let idx = view[j].0;
                    let entry = &self.historys[idx];
                    events.push(Response::Append {
                        id: j as u32,
                        name: entry.title.clone(),
                        description: entry.url.clone(),
                    });
                    j = j + 1;
                }
                events.push(Response::Finished);
                self.last_view = view;
            }
            None => {
                events.push(Response::Finished);
                self.last_view = Vec::new();
                proof {
                    assert(events@ =~= seq![Response::Finished]);
                    assert(self.last_view@ =~= Seq::<(usize, i64)>::empty());
                }
            }
        }
        events
    }

    /// Answers one activation event. An id inside the most recent ranked
    /// view resolves to that view entry's record: a single `Close` event is
    /// emitted and the record's target is handed out for the external open
    /// action. An id outside the view emits no event and opens nothing; the
    /// caller may report the miss on its diagnostic channel.
    pub fn activate(&self, id: u32) -> (r: ActivateOutcome)
        requires
            self.wf(),
        ensures
            activate_post(*self, id, r),
    {
        let mut events: Vec<Response> = Vec::new();
        if (id as usize) < self.last_view.len() {
            events.push(Response::Close);
            let idx = self.last_view[id as usize].0;
            let target = self.historys[idx].url.clone();
            proof {
                assert(events@ =~= seq![Response::Close]);
            }
            ActivateOutcome { events, target: Some(target) }
        } else {
            proof {
                assert(events@ =~= Seq::<Response>::empty());
            }
            ActivateOutcome { events, target: None }
        }
    }
}

/// The event at view position `j` is the `Append` for record `rec`: its id
/// is the view position, its name the record's title, its description the
/// record's target.
pub open spec fn is_append_for(ev: Response, j: int, rec: HistoryEntry) -> bool {
    &&& ev matches Response::Append { id, name, description }
    &&& id == j as u32
    &&& name@ == rec.title@
    &&& description@ == rec.url@
}

/// What one query event leaves behind. A recognized query: the new ranked
/// view is the ranking of the store against the match text, and the events
/// are one `Append` per view entry, in view order, followed by the single
/// terminator. Anything else: the terminator alone, over an empty view.
pub open spec fn search_post(store: Seq<HistoryEntry>, q: Seq<char>, view: Seq<(usize, i64)>, events: Seq<Response>) -> bool {
    if is_trigger(q) {
        let r = rank_spec(titles_of(store), trigger_text(q), RESULT_LIMIT as int);
        &&& view == r
        &&& events.len() == r.len() + 1
        &&& events.last() == Response::Finished
        &&& forall|j: int| 0 <= j < r.len() ==>
                is_append_for(#[trigger] events[j], j, store[r[j].0 as int])
    } else {
        &&& view == Seq::<(usize, i64)>::empty()
        &&& events == seq![Response::Finished]
    }
}

/// What one activation event decides, resolved against the most recent
/// ranked view: an in-range id yields exactly one `Close` event and the
/// resolved record's target; an out-of-range id yields no event at all and
/// no target.
pub open spec fn activate_post(s: ChromeHistorys, id: u32, r: ActivateOutcome) -> bool {
    if (id as int) < s.last_view@.len() {
        &&& r.events@ == seq![Response::Close]
        &&& r.target matches Some(target) && target@ == s.historys@[s.last_view@[id as int].0 as int].url@
    } else {
        &&& r.events@ == Seq::<Response>::empty()
        &&& r.target is None
    }
}

/// The response sequence of any query is well-shaped: at most `RESULT_LIMIT`
/// `Append` events, then exactly one terminator, always last — so every
/// event but the last is an `Append` and none but the last is a terminator.
pub proof fn lemma_search_events_shape(store: Seq<HistoryEntry>, q: Seq<char>, view: Seq<(usize, i64)>, events: Seq<Response>)
    requires
        search_post(store, q, view, events),
    ensures
        1 <= events.len() <= RESULT_LIMIT + 1,
        events.last() == Response::Finished,
        forall|j: int| 0 <= j < events.len() - 1 ==> #[trigger] events[j] is Append,
{
}

/// A query without the trigger token appends nothing: the terminator comes
/// at once, alone, and the ranked view is left empty.
pub proof fn lemma_non_trigger_finishes_immediately(store: Seq<HistoryEntry>, q: Seq<char>, view: Seq<(usize, i64)>, events: Seq<Response>)
    requires
        search_post(store, q, view, events),
        !is_trigger(q),
    ensures
        events == seq![Response::Finished],
        view.len() == 0,
{
}

/// Answering the same query over an unchanged store is idempotent: the
/// ranked view is identical and the response sequence has the same shape,
/// event for event.
pub proof fn lemma_search_deterministic(store: Seq<HistoryEntry>, q: Seq<char>, v1: Seq<(usize, i64)>, e1: Seq<Response>, v2: Seq<(usize, i64)>, e2: Seq<Response>)
    requires
        search_post(store, q, v1, e1),
        search_post(store, q, v2, e2),
    ensures
        v1 == v2,
        e1.len() == e2.len(),
{
}

/// An empty store appends nothing for any query whatsoever: the response is
/// always the lone terminator.
pub proof fn lemma_empty_store_finishes(q: Seq<char>, view: Seq<(usize, i64)>, events: Seq<Response>)
    requires
        search_post(Seq::<HistoryEntry>::empty(), q, view, events),
    ensures
        events.len() == 1,
        events[0] == Response::Finished,
        view.len() == 0,
{
    if is_trigger(q) {
        assert(titles_of(Seq::<HistoryEntry>::empty()).len() == 0);
    }
}

} // verus!

