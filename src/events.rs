//! Edge-triggered buffering of event-flag changes.
use vstd::prelude::*;
use std::collections::HashMap;

verus! {

broadcast use vstd::std_specs::hash::group_hash_axioms;

/// One observed change of an event flag: when, which flag, the new state.
/// `time` is in milliseconds since the Unix epoch.
#[derive(Clone, Copy, Debug, PartialEq, Eq, Structural)]
pub struct EventFlag {
    pub time: i64,
    pub flag: u32,
    pub state: bool,
}

impl EventFlag {
    pub fn new(time: i64, flag: u32, state: bool) -> (r: EventFlag)
        ensures
            r == (EventFlag { time, flag, state }),
    {
        EventFlag { time, flag, state }
    }
}

/// Is `state` a change for `flag`, given the last known states?
pub open spec fn is_edge(last: Map<u32, bool>, flag: u32, state: bool) -> bool {
    !last.contains_key(flag) || last[flag] != state
}

/// Pending records and last known states after a push.
pub open spec fn push_effect(pending: Seq<EventFlag>, last: Map<u32, bool>, flag: u32, state: bool, time: i64) -> (Seq<EventFlag>, Map<u32, bool>) {
    if is_edge(last, flag, state) {
        (pending.push(EventFlag { time, flag, state }), last.insert(flag, state))
    } else {
        (pending, last)
    }
}

/// One operation on an event buffer, as a producer or a consumer performs it.
#[derive(Clone, Copy, Debug, PartialEq, Eq, Structural)]
pub enum BufferOp {
    Push { flag: u32, state: bool, time: i64 },
    Drain,
}

/// The buffer after `op`, and the records that `op` handed to a consumer.
pub open spec fn apply_op(pending: Seq<EventFlag>, last: Map<u32, bool>, op: BufferOp) -> (Seq<EventFlag>, Map<u32, bool>, Seq<EventFlag>) {
    match op {
        BufferOp::Push { flag, state, time } => {
            let (p, l) = push_effect(pending, last, flag, state, time);
            (p, l, Seq::empty())
        },
        BufferOp::Drain => (Seq::empty(), last, pending),
    }
}

/// The buffer after `ops` in order, and all records drained on the way.
pub open spec fn run_ops(pending: Seq<EventFlag>, last: Map<u32, bool>, ops: Seq<BufferOp>) -> (Seq<EventFlag>, Map<u32, bool>, Seq<EventFlag>)
    decreases ops.len(),
{
    if ops.len() == 0 {
        (pending, last, Seq::empty())
    } else {
        let (p, l, d) = run_ops(pending, last, ops.drop_last());
        let (pb, lb, db) = apply_op(p, l, ops.last());
        (pb, lb, d + db)
    }
}

/// The changes of state among the pushes of `ops`, in order, starting from
/// the known states `last`; and the known states after them.
pub open spec fn state_changes(last: Map<u32, bool>, ops: Seq<BufferOp>) -> (Seq<EventFlag>, Map<u32, bool>)
    decreases ops.len(),
{
    if ops.len() == 0 {
        (Seq::empty(), last)
    } else {
        let (e, l) = state_changes(last, ops.drop_last());
        match ops.last() {
            BufferOp::Push { flag, state, time } => if is_edge(l, flag, state) {
                (e.push(EventFlag { time, flag, state }), l.insert(flag, state))
            } else {
                (e, l)
            },
            BufferOp::Drain => (e, l),
        }
    }
}

/// Whatever the interleaving of pushes and drains (each one atomic), the
/// records drained so far followed by those still pending are the records
/// pending at the start followed by one record per change of state, in
/// order: none is lost and none is duplicated.
pub proof fn lemma_no_record_lost_or_duplicated(pending: Seq<EventFlag>, last: Map<u32, bool>, ops: Seq<BufferOp>)
    ensures
        ({
            let (p, l, d) = run_ops(pending, last, ops);
            &&& d + p == pending + state_changes(last, ops).0
            &&& l == state_changes(last, ops).1
        }),
    decreases ops.len(),
{
    if ops.len() > 0 {
        lemma_no_record_lost_or_duplicated(pending, last, ops.drop_last());
        let (p, l, d) = run_ops(pending, last, ops.drop_last());
        let (e, la) = state_changes(last, ops.drop_last());
        match ops.last() {
            BufferOp::Push { flag, state, time } => {
                let r = EventFlag { time, flag, state };
                assert(d + p.push(r) =~= (d + p).push(r));
                assert(pending + e.push(r) =~= (pending + e).push(r));
                assert(d + Seq::<EventFlag>::empty() =~= d);
            },
            BufferOp::Drain => {
                assert((d + p) + Seq::<EventFlag>::empty() =~= d + p);
            },
        }
    }
}

/// Pushing a flag's state twice in a row records at most once: the second
/// push finds that state already known and changes nothing.
pub proof fn lemma_repeated_push_is_dropped(pending: Seq<EventFlag>, last: Map<u32, bool>, flag: u32, state: bool, t1: i64, t2: i64)
    ensures
        ({
            let (pa, la) = push_effect(pending, last, flag, state, t1);
            &&& push_effect(pa, la, flag, state, t2) == (pa, la)
            &&& pa.len() <= pending.len() + 1
        }),
{
}

/// A push of the other state right after a push always records.
pub proof fn lemma_toggled_push_is_recorded(pending: Seq<EventFlag>, last: Map<u32, bool>, flag: u32, state: bool, t1: i64, t2: i64)
    ensures
        ({
            let (pa, la) = push_effect(pending, last, flag, state, t1);
            push_effect(pa, la, flag, !state, t2).0 == pa.push(EventFlag { time: t2, flag, state: !state })
        }),
{
}

/// Records of changes that wait for a consumer, and the last known state of
/// each flag seen. A push that repeats the last known state is dropped.
pub struct EventBuffer {
    pending: Vec<EventFlag>,
    last_known: HashMap<u32, bool>,
}

/// Relies on chrono's `Local::now` and `DateTime::timestamp_millis`: the
/// current time in milliseconds since the Unix epoch.
#[verifier::external_body]
pub(crate) fn now_millis() -> (r: i64) {
    chrono::Local::now().timestamp_millis()
}

impl EventBuffer {
    pub closed spec fn pending_view(&self) -> Seq<EventFlag> {
        self.pending@
    }

    pub closed spec fn last_view(&self) -> Map<u32, bool> {
        self.last_known@
    }

    pub fn new() -> (r: EventBuffer)
        ensures
            r.pending_view().len() == 0,
            r.last_view() == Map::<u32, bool>::empty(),
    {
        EventBuffer { pending: Vec::new(), last_known: HashMap::new() }
    }

    /// Records that `flag` became `state` at `time`, unless that is already
    /// its last known state. Returns whether a record was appended.
    pub fn push_at(&mut self, flag: u32, state: bool, time: i64) -> (r: bool)
        ensures
            r == is_edge(old(self).last_view(), flag, state),
            (final(self).pending_view(), final(self).last_view()) == push_effect(
                old(self).pending_view(),
                old(self).last_view(),
                flag,
                state,
                time,
            ),
    {
        let changed = match self.last_known.get(&flag) {
            Some(v) => *v != state,
            None => true,
        };
        if changed {
            self.last_known.insert(flag, state);
            self.pending.push(EventFlag { time, flag, state });
        }
        changed
    }

    /// `push_at` with the current time.
    pub fn push(&mut self, flag: u32, state: bool) -> (r: bool)
        ensures
            r == is_edge(old(self).last_view(), flag, state),
            exists|time: i64|
                (final(self).pending_view(), final(self).last_view()) == push_effect(
                    old(self).pending_view(),
                    old(self).last_view(),
                    flag,
                    state,
                    time,
                ),
    {
        let time = now_millis();
        self.push_at(flag, state, time)
    }

    /// Takes every pending record, oldest first, and leaves none pending.
    /// Last known states are kept.
    pub fn drain(&mut self) -> (r: Vec<EventFlag>)
        ensures
            r@ == old(self).pending_view(),
            final(self).pending_view().len() == 0,
            final(self).last_view() == old(self).last_view(),
    {
        let r = self.pending.split_off(0);
        assert(r@ =~= old(self).pending_view());
        r
    }

    /// Number of records waiting.
    pub fn pending_len(&self) -> (r: usize)
        ensures
            r == self.pending_view().len(),
    {
        self.pending.len()
    }

    /// The last known state of `flag`, if it was ever pushed.
    pub fn last_state(&self, flag: u32) -> (r: Option<bool>)
        ensures
            r == (if self.last_view().contains_key(flag) {
                Some(self.last_view()[flag])
            } else {
                None::<bool>
            }),
    {
        match self.last_known.get(&flag) {
            Some(v) => Some(*v),
            None => None,
        }
    }
}

/// The state behind the event endpoint: records of changes not yet
/// served, each flag recorded only when its state changes.
pub struct Webserver {
    buffer: EventBuffer,
}

impl Webserver {
    pub closed spec fn pending_view(&self) -> Seq<EventFlag> {
        self.buffer.pending_view()
    }

    pub closed spec fn states_view(&self) -> Map<u32, bool> {
        self.buffer.last_view()
    }

    pub fn new() -> (r: Webserver)
        ensures
            r.pending_view().len() == 0,
            r.states_view() == Map::<u32, bool>::empty(),
    {
        Webserver { buffer: EventBuffer::new() }
    }

    /// Keeps `event_flag` for the next request if it changes its flag's
    /// state. Returns whether it was kept.
    pub fn add_flag(&mut self, event_flag: EventFlag) -> (r: bool)
        ensures
            r == is_edge(old(self).states_view(), event_flag.flag, event_flag.state),
            (final(self).pending_view(), final(self).states_view()) == push_effect(
                old(self).pending_view(),
                old(self).states_view(),
                event_flag.flag,
                event_flag.state,
                event_flag.time,
            ),
    {
        self.buffer.push_at(event_flag.flag, event_flag.state, event_flag.time)
    }

    /// Hands out the records kept since the last request, oldest first.
    pub fn take_event_flags(&mut self) -> (r: Vec<EventFlag>)
        ensures
            r@ == old(self).pending_view(),
            final(self).pending_view().len() == 0,
            final(self).states_view() == old(self).states_view(),
    {
        self.buffer.drain()
    }
}

} // verus!
