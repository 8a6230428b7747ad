use crate::message::{KindView, MessageKind, MessageType, MessageView};
use vstd::prelude::*;

verus! {

/// Minimum gap, in milliseconds, between two frames of one kind on one
/// socket. A gap of zero switches debouncing off for that kind.
#[derive(Clone, Copy, Debug, PartialEq, Eq)]
pub struct DebounceIntervals {
    pub file: u64,
    pub activity: u64,
    pub notification: u64,
    pub custom: u64,
}

impl DebounceIntervals {
    /// The gap that applies to a kind.
    pub open spec fn of(self, kind: KindView) -> u64 {
        match kind {
            KindView::File => self.file,
            KindView::Activity => self.activity,
            KindView::Notification => self.notification,
            KindView::Custom(_) => self.custom,
        }
    }

    /// The gap that applies to a kind.
    pub fn interval(&self, kind: &MessageKind) -> (millis: u64)
        ensures
            millis == self.of(kind@),
    {
        match kind {
            MessageKind::File => self.file,
            MessageKind::Activity => self.activity,
            MessageKind::Notification => self.notification,
            MessageKind::Custom(_) => self.custom,
        }
    }
}

impl Default for DebounceIntervals {
    /// Five seconds for file hints, fifteen for activity, one for
    /// notifications, and a millisecond for custom messages.
    fn default() -> (intervals: Self)
        ensures
            intervals == (DebounceIntervals {
                file: 5000,
                activity: 15000,
                notification: 1000,
                custom: 1,
            }),
    {
        DebounceIntervals { file: 5000, activity: 15000, notification: 1000, custom: 1 }
    }
}

/// What the debouncer remembers of one kind: when a message of that kind was
/// last let through, and the latest message of that kind held back since.
pub struct SlotView {
    pub last_send: u64,
    pub held: Option<MessageView>,
}

/// Milliseconds from `last` to `now`; zero where the clock reads earlier than
/// `last`.
pub open spec fn elapsed(last: u64, now: u64) -> int {
    if now >= last {
        now - last
    } else {
        0
    }
}

/// Whether a message of `kind` may go out at `now`: none of that kind is
/// remembered, or the last one went out at least the kind's interval ago.
pub open spec fn due(
    slots: Map<KindView, SlotView>,
    intervals: DebounceIntervals,
    kind: KindView,
    now: u64,
) -> bool {
    !slots.dom().contains(kind) || elapsed(slots[kind].last_send, now) >= intervals.of(kind)
}

/// The debouncer's memory after `msg` was offered at `now`. A message that is
/// due is let through: its kind's last send becomes `now` and nothing of that
/// kind stays held. One that is not due replaces whatever was held of its
/// kind.
pub open spec fn offer(
    slots: Map<KindView, SlotView>,
    intervals: DebounceIntervals,
    msg: MessageView,
    now: u64,
) -> Map<KindView, SlotView> {
    if due(slots, intervals, msg.kind(), now) {
        slots.insert(msg.kind(), SlotView { last_send: now, held: None })
    } else {
        slots.insert(
            msg.kind(),
            SlotView { last_send: slots[msg.kind()].last_send, held: Some(msg) },
        )
    }
}

/// The memory of a debouncer that has seen no message.
pub open spec fn nothing_remembered() -> Map<KindView, SlotView> {
    Map::empty()
}

/// Whether a message of `kind` is held back.
pub open spec fn holds(slots: Map<KindView, SlotView>, kind: KindView) -> bool {
    slots.dom().contains(kind) && slots[kind].held is Some
}

/// The debouncer's memory once every held message was taken out.
pub open spec fn without_held(slots: Map<KindView, SlotView>) -> Map<KindView, SlotView> {
    Map::new(
        |kind: KindView| slots.dom().contains(kind),
        |kind: KindView| SlotView { last_send: slots[kind].last_send, held: None },
    )
}

/// Whether `kind` has been quiet long enough at `now` to be forgotten:
/// nothing of it is held and its interval has passed.
pub open spec fn quiet(
    slots: Map<KindView, SlotView>,
    intervals: DebounceIntervals,
    kind: KindView,
    now: u64,
) -> bool {
    &&& slots.dom().contains(kind)
    &&& slots[kind].held is None
    &&& elapsed(slots[kind].last_send, now) >= intervals.of(kind)
}

/// The debouncer's memory without the kinds that are quiet at `now`.
pub open spec fn purged(
    slots: Map<KindView, SlotView>,
    intervals: DebounceIntervals,
    now: u64,
) -> Map<KindView, SlotView> {
    Map::new(
        |kind: KindView| slots.dom().contains(kind) && !quiet(slots, intervals, kind, now),
        |kind: KindView| slots[kind],
    )
}

/// The values of a list of messages.
pub open spec fn views(msgs: Seq<MessageType>) -> Seq<MessageView> {
    msgs.map_values(|msg: MessageType| msg@)
}

/// Whether `held` lists exactly the messages that `slots` holds back, each
/// once and in any order.
pub open spec fn lists_held(slots: Map<KindView, SlotView>, held: Seq<MessageView>) -> bool {
    &&& forall|j: int|
        0 <= j < held.len() ==> holds(slots, (#[trigger] held[j]).kind()) && slots[held[j].kind()].held
            == Some(held[j])
    &&& forall|kind: KindView|
        #[trigger] holds(slots, kind) ==> exists|j: int|
            0 <= j < held.len() && (#[trigger] held[j]).kind() == kind
    &&& forall|a: int, b: int|
        0 <= a < b < held.len() ==> (#[trigger] held[a]).kind() != (#[trigger] held[b]).kind()
}

/// Whether the held message of `kind` goes out in a flush at `now`.
pub open spec fn released(
    slots: Map<KindView, SlotView>,
    intervals: DebounceIntervals,
    kind: KindView,
    now: u64,
) -> bool {
    holds(slots, kind) && due(slots, intervals, kind, now)
}

/// The debouncer's memory after a flush at `now`: every held message whose
/// kind is due has gone out, the others stay held.
pub open spec fn flushed(
    slots: Map<KindView, SlotView>,
    intervals: DebounceIntervals,
    now: u64,
) -> Map<KindView, SlotView> {
    Map::new(
        |kind: KindView| slots.dom().contains(kind),
        |kind: KindView|
            if released(slots, intervals, kind, now) {
                SlotView { last_send: now, held: None }
            } else {
                slots[kind]
            },
    )
}

/// Whether `sent` lists exactly the held messages that a flush at `now` lets
/// out, each once and in any order.
pub open spec fn lists_released(
    slots: Map<KindView, SlotView>,
    intervals: DebounceIntervals,
    now: u64,
    sent: Seq<MessageView>,
) -> bool {
    &&& forall|j: int|
        0 <= j < sent.len() ==> released(slots, intervals, (#[trigger] sent[j]).kind(), now)
            && slots[sent[j].kind()].held == Some(sent[j])
    &&& forall|kind: KindView|
        #[trigger] released(slots, intervals, kind, now) ==> exists|j: int|
            0 <= j < sent.len() && (#[trigger] sent[j]).kind() == kind
    &&& forall|a: int, b: int|
        0 <= a < b < sent.len() ==> (#[trigger] sent[a]).kind() != (#[trigger] sent[b]).kind()
}

/// One thing that can happen to a debouncer.
pub enum DebounceOp {
    Offer(MessageView),
    Drain,
    Flush,
    Purge,
}

/// An operation and the clock reading at which it happens.
pub struct TimedOp {
    pub at: u64,
    pub op: DebounceOp,
}

/// The debouncer's memory after one operation.
pub open spec fn apply(
    slots: Map<KindView, SlotView>,
    intervals: DebounceIntervals,
    step: TimedOp,
) -> Map<KindView, SlotView> {
    match step.op {
        DebounceOp::Offer(msg) => offer(slots, intervals, msg, step.at),
        DebounceOp::Drain => without_held(slots),
        DebounceOp::Flush => flushed(slots, intervals, step.at),
        DebounceOp::Purge => purged(slots, intervals, step.at),
    }
}

/// The debouncer's memory after a run of operations, first to last.
pub open spec fn run(
    slots: Map<KindView, SlotView>,
    intervals: DebounceIntervals,
    steps: Seq<TimedOp>,
) -> Map<KindView, SlotView>
    decreases steps.len(),
{
    if steps.len() == 0 {
        slots
    } else {
        run(apply(slots, intervals, steps.first()), intervals, steps.drop_first())
    }
}

/// Whether the clock readings of `steps` lie between `start` and `end` and
/// never go back.
pub open spec fn in_time_order(start: u64, steps: Seq<TimedOp>, end: u64) -> bool {
    &&& start <= end
    &&& forall|i: int| 0 <= i < steps.len() ==> start <= (#[trigger] steps[i]).at <= end
    &&& forall|i: int, j: int|
        0 <= i < j < steps.len() ==> (#[trigger] steps[i]).at <= (#[trigger] steps[j]).at
}

spec fn blocked(
    slots: Map<KindView, SlotView>,
    intervals: DebounceIntervals,
    kind: KindView,
    since: u64,
    now: u64,
) -> bool {
    ||| slots.dom().contains(kind) && since <= slots[kind].last_send <= now
    ||| now - since >= intervals.of(kind)
}

proof fn lemma_step_keeps_blocked(
    slots: Map<KindView, SlotView>,
    intervals: DebounceIntervals,
    kind: KindView,
    since: u64,
    now: u64,
    step: TimedOp,
)
    requires
        blocked(slots, intervals, kind, since, now),
        since <= now <= step.at,
    ensures
        blocked(apply(slots, intervals, step), intervals, kind, since, step.at),
{
}

proof fn lemma_run_keeps_blocked(
    slots: Map<KindView, SlotView>,
    intervals: DebounceIntervals,
    kind: KindView,
    since: u64,
    now: u64,
    steps: Seq<TimedOp>,
    end: u64,
)
    requires
        blocked(slots, intervals, kind, since, now),
        since <= now,
        in_time_order(now, steps, end),
    ensures
        blocked(run(slots, intervals, steps), intervals, kind, since, end),
    decreases steps.len(),
{
    if steps.len() > 0 {
        let step = steps.first();
        let rest = steps.drop_first();
        lemma_step_keeps_blocked(slots, intervals, kind, since, now, step);
        assert forall|i: int| 0 <= i < rest.len() implies step.at <= (#[trigger] rest[i]).at
            <= end by {
            assert(rest[i] == steps[i + 1]);
        }
        assert forall|i: int, j: int| 0 <= i < j < rest.len() implies (#[trigger] rest[i]).at
            <= (#[trigger] rest[j]).at by {
            assert(rest[i] == steps[i + 1]);
            assert(rest[j] == steps[j + 1]);
        }
        lemma_run_keeps_blocked(
            apply(slots, intervals, step),
            intervals,
            kind,
            since,
            step.at,
            rest,
            end,
        );
    }
}

/// Two messages of one kind never go out closer together than the kind's
/// interval: if `first` went out at `t1`, then whatever is offered, drained,
/// flushed or purged afterwards, on a clock that does not run backwards, a
/// message of the same kind that goes out at `t2` does so at least the
/// interval later.
pub proof fn lemma_sends_of_a_kind_are_spaced(
    slots: Map<KindView, SlotView>,
    intervals: DebounceIntervals,
    first: MessageView,
    t1: u64,
    between: Seq<TimedOp>,
    second: MessageView,
    t2: u64,
)
    requires
        first.kind() == second.kind(),
        due(slots, intervals, first.kind(), t1),
        in_time_order(t1, between, t2),
        due(run(offer(slots, intervals, first, t1), intervals, between), intervals, second.kind(), t2),
    ensures
        t2 - t1 >= intervals.of(first.kind()),
{
    let start = offer(slots, intervals, first, t1);
    assert(blocked(start, intervals, first.kind(), t1, t1));
    lemma_run_keeps_blocked(start, intervals, first.kind(), t1, t1, between, t2);
}

/// A message that was held back is not lost to a newer send decision: right
/// after `msg` was refused, the debouncer holds exactly `msg` for its kind.
pub proof fn lemma_refused_message_is_held(
    slots: Map<KindView, SlotView>,
    intervals: DebounceIntervals,
    msg: MessageView,
    now: u64,
)
    requires
        !due(slots, intervals, msg.kind(), now),
    ensures
        holds(offer(slots, intervals, msg, now), msg.kind()),
        offer(slots, intervals, msg, now)[msg.kind()].held == Some(msg),
        offer(slots, intervals, msg, now)[msg.kind()].last_send == slots[msg.kind()].last_send,
{
}

/// Forgetting quiet kinds changes no later decision: on a clock that does not
/// run backwards, a message is due after a purge exactly if it was due
/// without it.
pub proof fn lemma_purge_changes_no_decision(
    slots: Map<KindView, SlotView>,
    intervals: DebounceIntervals,
    purged_at: u64,
    kind: KindView,
    now: u64,
)
    requires
        purged_at <= now,
    ensures
        due(purged(slots, intervals, purged_at), intervals, kind, now) == due(
            slots,
            intervals,
            kind,
            now,
        ),
{
}

struct Slot {
    kind: MessageKind,
    last_send: u64,
    held: Option<MessageType>,
}

impl View for Slot {
    type V = SlotView;

    closed spec fn view(&self) -> SlotView {
        SlotView {
            last_send: self.last_send,
            held: match self.held {
                Some(msg) => Some(msg@),
                None => None,
            },
        }
    }
}

spec fn kind_at(slots: Seq<Slot>, i: int) -> KindView {
    slots[i].kind@
}

spec fn distinct_kinds(slots: Seq<Slot>) -> bool {
    forall|i: int, j: int|
        0 <= i < j < slots.len() ==> #[trigger] kind_at(slots, i) != #[trigger] kind_at(slots, j)
}

spec fn held_of_own_kind(slots: Seq<Slot>) -> bool {
    forall|i: int|
        0 <= i < slots.len() && (#[trigger] slots[i]).held is Some ==> slots[i].held->0@.kind()
            == slots[i].kind@
}

spec fn slot_of(slots: Seq<Slot>, kind: KindView, i: int) -> bool {
    0 <= i < slots.len() && slots[i].kind@ == kind
}

spec fn slots_map(slots: Seq<Slot>) -> Map<KindView, SlotView> {
    Map::new(
        |kind: KindView| exists|i: int| slot_of(slots, kind, i),
        |kind: KindView| slots[choose|i: int| slot_of(slots, kind, i)]@,
    )
}

proof fn lemma_slot_in_map(slots: Seq<Slot>, i: int)
    requires
        distinct_kinds(slots),
        0 <= i < slots.len(),
    ensures
        slots_map(slots).dom().contains(slots[i].kind@),
        slots_map(slots)[slots[i].kind@] == slots[i]@,
{
    let kind = slots[i].kind@;
    assert(slot_of(slots, kind, i));
    let j = choose|j: int| slot_of(slots, kind, j);
    assert(kind_at(slots, i) == kind_at(slots, j));
}

proof fn lemma_kind_not_in_map(slots: Seq<Slot>, kind: KindView)
    requires
        forall|i: int| 0 <= i < slots.len() ==> #[trigger] kind_at(slots, i) != kind,
    ensures
        !slots_map(slots).dom().contains(kind),
{
    assert forall|i: int| !slot_of(slots, kind, i) by {
        if 0 <= i < slots.len() {
            assert(kind_at(slots, i) != kind);
        }
    }
}

proof fn lemma_map_key_has_slot(slots: Seq<Slot>, kind: KindView) -> (i: int)
    requires
        distinct_kinds(slots),
        slots_map(slots).dom().contains(kind),
    ensures
        0 <= i < slots.len(),
        slots[i].kind@ == kind,
        slots_map(slots)[kind] == slots[i]@,
{
    let i = choose|i: int| slot_of(slots, kind, i);
    lemma_slot_in_map(slots, i);
    i
}

proof fn lemma_push_slot(slots: Seq<Slot>, slot: Slot)
    requires
        distinct_kinds(slots),
        held_of_own_kind(slots),
        !slots_map(slots).dom().contains(slot.kind@),
        slot.held is Some ==> slot.held->0@.kind() == slot.kind@,
    ensures
        distinct_kinds(slots.push(slot)),
        held_of_own_kind(slots.push(slot)),
        slots_map(slots.push(slot)) == slots_map(slots).insert(slot.kind@, slot@),
{
    let after = slots.push(slot);
    assert forall|i: int, j: int| 0 <= i < j < after.len() implies #[trigger] kind_at(after, i)
        != #[trigger] kind_at(after, j) by {
        if j == slots.len() {
            lemma_slot_in_map(slots, i);
        } else {
            assert(kind_at(slots, i) != kind_at(slots, j));
        }
    }
    assert forall|kind: KindView|
        slots_map(after).dom().contains(kind) <==> #[trigger] slots_map(slots).insert(
            slot.kind@,
            slot@,
        ).dom().contains(kind) by {
        if slots_map(after).dom().contains(kind) {
            let i = choose|i: int| slot_of(after, kind, i);
            if i < slots.len() {
                assert(slot_of(slots, kind, i));
            }
        }
        if slots_map(slots).dom().contains(kind) {
            let i = choose|i: int| slot_of(slots, kind, i);
            assert(slot_of(after, kind, i));
        }
        if kind == slot.kind@ {
            assert(slot_of(after, kind, slots.len() as int));
        }
    }
    assert forall|kind: KindView| slots_map(after).dom().contains(kind) implies #[trigger] slots_map(
        after,
    )[kind] == slots_map(slots).insert(slot.kind@, slot@)[kind] by {
        let i = lemma_map_key_has_slot(after, kind);
        if i < slots.len() {
            lemma_slot_in_map(slots, i);
        }
    }
    assert(slots_map(after) =~= slots_map(slots).insert(slot.kind@, slot@));
}

proof fn lemma_update_slot(slots: Seq<Slot>, i: int, slot: Slot)
    requires
        distinct_kinds(slots),
        held_of_own_kind(slots),
        0 <= i < slots.len(),
        slot.kind@ == slots[i].kind@,
        slot.held is Some ==> slot.held->0@.kind() == slot.kind@,
    ensures
        distinct_kinds(slots.update(i, slot)),
        held_of_own_kind(slots.update(i, slot)),
        slots_map(slots.update(i, slot)) == slots_map(slots).insert(slot.kind@, slot@),
{
    let after = slots.update(i, slot);
    assert forall|a: int, b: int| 0 <= a < b < after.len() implies #[trigger] kind_at(after, a)
        != #[trigger] kind_at(after, b) by {
        assert(kind_at(slots, a) != kind_at(slots, b));
    }
    assert forall|kind: KindView|
        slots_map(after).dom().contains(kind) <==> #[trigger] slots_map(slots).insert(
            slot.kind@,
            slot@,
        ).dom().contains(kind) by {
        if slots_map(after).dom().contains(kind) {
            let j = choose|j: int| slot_of(after, kind, j);
            assert(slot_of(slots, kind, j));
        }
        if slots_map(slots).dom().contains(kind) {
            let j = choose|j: int| slot_of(slots, kind, j);
            assert(slot_of(after, kind, j));
        }
        if kind == slot.kind@ {
            assert(slot_of(after, kind, i));
        }
    }
    assert forall|kind: KindView| slots_map(after).dom().contains(kind) implies #[trigger] slots_map(
        after,
    )[kind] == slots_map(slots).insert(slot.kind@, slot@)[kind] by {
        let j = lemma_map_key_has_slot(after, kind);
        if j < i {
            assert(kind_at(slots, j) != kind_at(slots, i));
            lemma_slot_in_map(slots, j);
        } else if i < j {
            assert(kind_at(slots, i) != kind_at(slots, j));
            lemma_slot_in_map(slots, j);
        }
    }
    assert(slots_map(after) =~= slots_map(slots).insert(slot.kind@, slot@));
}

proof fn lemma_remove_slot(slots: Seq<Slot>, i: int)
    requires
        distinct_kinds(slots),
        held_of_own_kind(slots),
        0 <= i < slots.len(),
    ensures
        distinct_kinds(slots.remove(i)),
        held_of_own_kind(slots.remove(i)),
        slots_map(slots.remove(i)) == slots_map(slots).remove(slots[i].kind@),
{
    let after = slots.remove(i);
    assert forall|a: int, b: int| 0 <= a < b < after.len() implies #[trigger] kind_at(after, a)
        != #[trigger] kind_at(after, b) by {
        let a0 = if a < i { a } else { a + 1 };
        let b0 = if b < i { b } else { b + 1 };
        assert(kind_at(slots, a0) != kind_at(slots, b0));
    }
    assert forall|j: int| 0 <= j < after.len() && (#[trigger] after[j]).held is Some implies after[j].held->0@.kind()
        == after[j].kind@ by {
        let j0 = if j < i { j } else { j + 1 };
        assert(after[j] == slots[j0]);
    }
    let gone = slots[i].kind@;
    assert forall|kind: KindView|
        slots_map(after).dom().contains(kind) <==> #[trigger] slots_map(slots).remove(
            gone,
        ).dom().contains(kind) by {
        if slots_map(after).dom().contains(kind) {
            let j = choose|j: int| slot_of(after, kind, j);
            let j0 = if j < i { j } else { j + 1 };
            assert(slot_of(slots, kind, j0));
            if j0 < i {
                assert(kind_at(slots, j0) != kind_at(slots, i));
            } else {
                assert(kind_at(slots, i) != kind_at(slots, j0));
            }
        }
        if slots_map(slots).dom().contains(kind) && kind != gone {
            let j = choose|j: int| slot_of(slots, kind, j);
            let j1 = if j < i { j } else { j - 1 };
            assert(slot_of(after, kind, j1));
        }
    }
    assert forall|kind: KindView| slots_map(after).dom().contains(kind) implies #[trigger] slots_map(
        after,
    )[kind] == slots_map(slots).remove(gone)[kind] by {
        let j = lemma_map_key_has_slot(after, kind);
        let j0 = if j < i { j } else { j + 1 };
        assert(after[j] == slots[j0]);
        if j0 < i {
            assert(kind_at(slots, j0) != kind_at(slots, i));
        } else {
            assert(kind_at(slots, i) != kind_at(slots, j0));
        }
        lemma_slot_in_map(slots, j0);
    }
    assert(slots_map(after) =~= slots_map(slots).remove(gone));
}

/// Per-session filter that lets at most one message of each kind through per
/// interval and keeps the latest one that it held back.
pub struct DebounceMap {
    intervals: DebounceIntervals,
    slots: Vec<Slot>,
}

impl View for DebounceMap {
    type V = Map<KindView, SlotView>;

    closed spec fn view(&self) -> Map<KindView, SlotView> {
        slots_map(self.slots@)
    }
}

impl DebounceMap {
    /// The debouncer remembers each kind once, and what it holds of a kind is
    /// a message of that kind. Every constructor establishes this and every
    /// method keeps it.
    pub closed spec fn wf(&self) -> bool {
        distinct_kinds(self.slots@) && held_of_own_kind(self.slots@)
    }

    /// The intervals this debouncer was made with.
    pub closed spec fn intervals(&self) -> DebounceIntervals {
        self.intervals
    }

    /// A debouncer that remembers nothing.
    pub fn new(intervals: DebounceIntervals) -> (map: DebounceMap)
        ensures
            map.wf(),
            map@ == nothing_remembered(),
            map.intervals() == intervals,
    {
        let map = DebounceMap { intervals, slots: Vec::new() };
        proof {
            assert forall|kind: KindView| !slots_map(map.slots@).dom().contains(kind) by {
                lemma_kind_not_in_map(map.slots@, kind);
            }
            assert(slots_map(map.slots@) =~= nothing_remembered());
        }
        map
    }

    fn find(&self, kind: &MessageKind) -> (found: Option<usize>)
        requires
            self.wf(),
        ensures
            match found {
                Some(i) => i < self.slots@.len() && self.slots@[i as int].kind@ == kind@
                    && self@.dom().contains(kind@) && self@[kind@] == self.slots@[i as int]@,
                None => !self@.dom().contains(kind@),
            },
    {
        let mut i: usize = 0;
        while i < self.slots.len()
            invariant
                self.wf(),
                i <= self.slots@.len(),
                forall|j: int| 0 <= j < i ==> #[trigger] kind_at(self.slots@, j) != kind@,
            decreases self.slots@.len() - i,
        {
            if self.slots[i].kind.same(kind) {
                proof {
                    lemma_slot_in_map(self.slots@, i as int);
                }
                return Some(i);
            }
            assert(kind_at(self.slots@, i as int) != kind@);
            i += 1;
        }
        proof {
            lemma_kind_not_in_map(self.slots@, kind@);
        }
        None
    }

    /// Decides whether `msg` goes out at `now` (milliseconds on a clock that
    /// does not run backwards). It goes out exactly if no message of its kind
    /// went out within the kind's interval; the kind's last send is then
    /// `now`. Otherwise `msg` becomes the held message of its kind,
    /// replacing an earlier one.
    pub fn should_send(&mut self, msg: &MessageType, now: u64) -> (send: bool)
        requires
            old(self).wf(),
        ensures
            final(self).wf(),
            send == due(old(self)@, old(self).intervals(), msg@.kind(), now),
            final(self)@ == offer(old(self)@, old(self).intervals(), msg@, now),
            final(self).intervals() == old(self).intervals(),
    {
        let kind = msg.kind();
        match self.find(&kind) {
            None => {
                let slot = Slot { kind, last_send: now, held: None };
                proof {
                    lemma_push_slot(self.slots@, slot);
                }
                self.slots.push(slot);
                true
            },
            Some(i) => {
                let last: u64 = self.slots[i].last_send;
                let waited: u64 = if now >= last {
                    now - last
                } else {
                    0
                };
                if waited >= self.intervals.interval(&kind) {
                    let slot = Slot { kind, last_send: now, held: None };
                    proof {
                        lemma_update_slot(self.slots@, i as int, slot);
                    }
                    self.slots.set(i, slot);
                    true
                } else {
                    let slot = Slot { kind, last_send: last, held: Some(msg.clone()) };
                    proof {
                        lemma_update_slot(self.slots@, i as int, slot);
                    }
                    self.slots.set(i, slot);
                    false
                }
            },
        }
    }

    /// Whether any message is held back.
    pub fn has_held_message(&self) -> (held: bool)
        requires
            self.wf(),
        ensures
            held == exists|kind: KindView| holds(self@, kind),
    {
        let mut i: usize = 0;
        while i < self.slots.len()
            invariant
                self.wf(),
                i <= self.slots@.len(),
                forall|j: int| 0 <= j < i ==> (#[trigger] self.slots@[j]).held is None,
            decreases self.slots@.len() - i,
        {
            if self.slots[i].held.is_some() {
                proof {
                    lemma_slot_in_map(self.slots@, i as int);
                    assert(holds(self@, self.slots@[i as int].kind@));
                }
                return true;
            }
            i += 1;
        }
        proof {
            assert forall|kind: KindView| !holds(self@, kind) by {
                if self@.dom().contains(kind) {
                    let j = lemma_map_key_has_slot(self.slots@, kind);
                    assert(self.slots@[j].held is None);
                }
            }
        }
        false
    }

    /// Takes out every held message, one per kind at most, for a flush. Each
    /// is to be offered to [`DebounceMap::should_send`] again before it goes
    /// out.
    pub fn drain_held(&mut self) -> (held: Vec<MessageType>)
        requires
            old(self).wf(),
        ensures
            final(self).wf(),
            final(self)@ == without_held(old(self)@),
            final(self).intervals() == old(self).intervals(),
            lists_held(old(self)@, views(held@)),
    {
        let ghost before = self.slots@;
        let ghost mut source: Seq<int> = Seq::empty();
        let mut held: Vec<MessageType> = Vec::new();
        let mut i: usize = 0;
        while i < self.slots.len()
            invariant
                distinct_kinds(before),
                held_of_own_kind(before),
                self.intervals == old(self).intervals,
                self.slots@.len() == before.len(),
                i <= before.len(),
                forall|j: int|
                    0 <= j < before.len() ==> (#[trigger] self.slots@[j]).kind@ == before[j].kind@
                        && self.slots@[j].last_send == before[j].last_send,
                forall|j: int| 0 <= j < i ==> (#[trigger] self.slots@[j]).held is None,
                forall|j: int| i <= j < before.len() ==> #[trigger] self.slots@[j] == before[j],
                source.len() == held@.len(),
                forall|a: int|
                    0 <= a < source.len() ==> 0 <= #[trigger] source[a] < i
                        && before[source[a]].held == Some(held@[a]),
                forall|a: int, b: int|
                    0 <= a < b < source.len() ==> #[trigger] source[a] < #[trigger] source[b],
                forall|j: int|
                    0 <= j < i && (#[trigger] before[j]).held is Some ==> exists|a: int|
                        0 <= a < source.len() && #[trigger] source[a] == j,
            decreases before.len() - i,
        {
            let kept = Slot {
                kind: self.slots[i].kind.clone(),
                last_send: self.slots[i].last_send,
                held: None,
            };
            match &self.slots[i].held {
                Some(msg) => {
                    held.push(msg.clone());
                    proof {
                        let ghost earlier = source;
                        source = source.push(i as int);
                        assert forall|j: int|
                            0 <= j < i + 1 && (#[trigger] before[j]).held is Some implies exists|
                            a: int,
                        |
                            0 <= a < source.len() && #[trigger] source[a] == j by {
                            if j < i {
                                let a = choose|a: int|
                                    0 <= a < earlier.len() && #[trigger] earlier[a] == j;
                                assert(source[a] == j);
                            } else {
                                assert(source[earlier.len() as int] == j);
                            }
                        }
                    }
                },
                None => {},
            }
            self.slots.set(i, kept);
            i += 1;
        }
        proof {
            let after = self.slots@;
            assert forall|a: int, b: int| 0 <= a < b < after.len() implies #[trigger] kind_at(
                after,
                a,
            ) != #[trigger] kind_at(after, b) by {
                assert(kind_at(before, a) != kind_at(before, b));
                assert(after[a].kind@ == before[a].kind@);
                assert(after[b].kind@ == before[b].kind@);
            }
            assert(held_of_own_kind(after));
            let was = slots_map(before);
            let now = slots_map(after);
            assert forall|kind: KindView|
                now.dom().contains(kind) <==> #[trigger] was.dom().contains(kind) by {
                if now.dom().contains(kind) {
                    let j = choose|j: int| slot_of(after, kind, j);
                    assert(after[j].kind@ == before[j].kind@);
                    assert(slot_of(before, kind, j));
                }
                if was.dom().contains(kind) {
                    let j = choose|j: int| slot_of(before, kind, j);
                    assert(after[j].kind@ == before[j].kind@);
                    assert(slot_of(after, kind, j));
                }
            }
            assert forall|kind: KindView| now.dom().contains(kind) implies #[trigger] now[kind]
                == without_held(was)[kind] by {
                let j = lemma_map_key_has_slot(after, kind);
                assert(after[j].kind@ == before[j].kind@);
                lemma_slot_in_map(before, j);
                assert(after[j].held is None);
            }
            assert(now =~= without_held(was));
            let listed = views(held@);
            assert forall|a: int| 0 <= a < listed.len() implies holds(
                was,
                (#[trigger] listed[a]).kind(),
            ) && was[listed[a].kind()].held == Some(listed[a]) by {
                let j = source[a];
                lemma_slot_in_map(before, j);
                assert(before[j].held is Some);
            }
            assert forall|kind: KindView| #[trigger] holds(was, kind) implies exists|a: int|
                0 <= a < listed.len() && (#[trigger] listed[a]).kind() == kind by {
                let j = lemma_map_key_has_slot(before, kind);
                assert(before[j].held is Some);
                let a = choose|a: int| 0 <= a < source.len() && #[trigger] source[a] == j;
                assert(listed[a].kind() == kind);
            }
            assert forall|a: int, b: int| 0 <= a < b < listed.len() implies (#[trigger] listed[a]).kind()
                != (#[trigger] listed[b]).kind() by {
                let ja = source[a];
                let jb = source[b];
                assert(before[ja].held is Some);
                assert(before[jb].held is Some);
                assert(kind_at(before, ja) != kind_at(before, jb));
            }
        }
        held
    }

    /// Forgets every kind that is quiet at `now`: nothing of it is held and
    /// its interval has passed since its last send.
    pub fn purge(&mut self, now: u64)
        requires
            old(self).wf(),
        ensures
            final(self).wf(),
            final(self)@ == purged(old(self)@, old(self).intervals(), now),
            final(self).intervals() == old(self).intervals(),
    {
        let ghost was = self@;
        let mut i: usize = 0;
        while i < self.slots.len()
            invariant
                self.wf(),
                self.intervals == old(self).intervals,
                was == old(self)@,
                i <= self.slots@.len(),
                forall|kind: KindView|
                    #[trigger] self@.dom().contains(kind) ==> was.dom().contains(kind) && self@[kind]
                        == was[kind],
                forall|kind: KindView|
                    #[trigger] was.dom().contains(kind) && !quiet(was, self.intervals, kind, now)
                        ==> self@.dom().contains(kind),
                forall|j: int|
                    0 <= j < i ==> !quiet(was, self.intervals, #[trigger] kind_at(self.slots@, j), now),
            decreases self.slots@.len() - i,
        {
            let last: u64 = self.slots[i].last_send;
            let waited: u64 = if now >= last {
                now - last
            } else {
                0
            };
            proof {
                lemma_slot_in_map(self.slots@, i as int);
            }
            if self.slots[i].held.is_none() && waited >= self.intervals.interval(
                &self.slots[i].kind,
            ) {
                let ghost slots = self.slots@;
                let ghost cur = self@;
                proof {
                    lemma_remove_slot(slots, i as int);
                    assert(quiet(was, self.intervals, slots[i as int].kind@, now));
                }
                self.slots.remove(i);
                proof {
                    assert(self@ == cur.remove(slots[i as int].kind@));
                    assert forall|j: int| 0 <= j < i implies !quiet(
                        was,
                        self.intervals,
                        #[trigger] kind_at(self.slots@, j),
                        now,
                    ) by {
                        assert(kind_at(self.slots@, j) == kind_at(slots, j));
                    }
                }
            } else {
                proof {
                    let kind = kind_at(self.slots@, i as int);
                    assert(self@.dom().contains(kind));
                    assert(was[kind] == self.slots@[i as int]@);
                    assert(elapsed(last, now) == waited);
                    assert(!quiet(was, self.intervals, kind, now));
                }
                i += 1;
            }
        }
        proof {
            assert forall|kind: KindView| self@.dom().contains(kind) implies !quiet(
                was,
                self.intervals,
                kind,
                now,
            ) by {
                let j = lemma_map_key_has_slot(self.slots@, kind);
                assert(kind_at(self.slots@, j) == kind);
            }
            assert(self@ =~= purged(was, self.intervals, now));
        }
    }

    /// Offers every held message again at `now` and returns those that go
    /// out, one per kind at most; the others stay held.
    pub fn flush(&mut self, now: u64) -> (sent: Vec<MessageType>)
        requires
            old(self).wf(),
        ensures
            final(self).wf(),
            final(self)@ == flushed(old(self)@, old(self).intervals(), now),
            final(self).intervals() == old(self).intervals(),
            lists_released(old(self)@, old(self).intervals(), now, views(sent@)),
    {
        let ghost was = self@;
        let ghost intervals = self.intervals;
        let held = self.drain_held();
        let ghost listed = views(held@);
        let ghost mut source: Seq<int> = Seq::empty();
        let mut sent: Vec<MessageType> = Vec::new();
        let mut i: usize = 0;
        while i < held.len()
            invariant
                self.wf(),
                self.intervals == intervals,
                listed == views(held@),
                lists_held(was, listed),
                i <= held@.len(),
                forall|kind: KindView|
                    #[trigger] self@.dom().contains(kind) <==> was.dom().contains(kind),
                forall|kind: KindView|
                    #[trigger] was.dom().contains(kind) ==> self@[kind] == (if exists|j: int|
                        0 <= j < i && (#[trigger] listed[j]).kind() == kind {
                        flushed(was, intervals, now)[kind]
                    } else {
                        without_held(was)[kind]
                    }),
                source.len() == sent@.len(),
                forall|a: int|
                    0 <= a < source.len() ==> 0 <= #[trigger] source[a] < i && held@[source[a]]
                        == sent@[a] && released(was, intervals, listed[source[a]].kind(), now),
                forall|a: int, b: int|
                    0 <= a < b < source.len() ==> #[trigger] source[a] < #[trigger] source[b],
                forall|j: int|
                    0 <= j < i && released(was, intervals, (#[trigger] listed[j]).kind(), now)
                        ==> exists|a: int| 0 <= a < source.len() && #[trigger] source[a] == j,
            decreases held@.len() - i,
        {
            let ghost cur = self@;
            let ghost msg = listed[i as int];
            proof {
                assert(msg == held@[i as int]@);
                assert(holds(was, msg.kind()));
                assert(!(exists|j: int| 0 <= j < i && (#[trigger] listed[j]).kind() == msg.kind()))
                    by {
                    if exists|j: int| 0 <= j < i && (#[trigger] listed[j]).kind() == msg.kind() {
                        let j = choose|j: int|
                            0 <= j < i && (#[trigger] listed[j]).kind() == msg.kind();
                        assert(listed[j].kind() != listed[i as int].kind());
                    }
                }
                assert(was.dom().contains(msg.kind()));
                assert(cur[msg.kind()] == without_held(was)[msg.kind()]);
                assert(due(cur, intervals, msg.kind(), now) == due(was, intervals, msg.kind(), now));
            }
            let out = self.should_send(&held[i], now);
            if out {
                sent.push(held[i].clone());
            }
            proof {
                let ghost earlier = source;
                if out {
                    source = source.push(i as int);
                }
                assert forall|j: int|
                    0 <= j < i + 1 && released(
                        was,
                        intervals,
                        (#[trigger] listed[j]).kind(),
                        now,
                    ) implies exists|a: int| 0 <= a < source.len() && #[trigger] source[a] == j by {
                    if j < i {
                        let a = choose|a: int| 0 <= a < earlier.len() && #[trigger] earlier[a] == j;
                        assert(source[a] == j);
                    } else {
                        assert(source[earlier.len() as int] == j);
                    }
                }
                assert forall|kind: KindView| #[trigger] was.dom().contains(kind) implies self@[kind]
                    == (if exists|j: int| 0 <= j < i + 1 && (#[trigger] listed[j]).kind() == kind {
                    flushed(was, intervals, now)[kind]
                } else {
                    without_held(was)[kind]
                }) by {
                    if kind == msg.kind() {
                        assert(listed[i as int].kind() == kind);
                    } else {
                        assert(self@[kind] == cur[kind]);
                        if exists|j: int| 0 <= j < i + 1 && (#[trigger] listed[j]).kind() == kind {
                            let j = choose|j: int|
                                0 <= j < i + 1 && (#[trigger] listed[j]).kind() == kind;
                            assert(j < i);
                        }
                    }
                }
            }
            i += 1;
        }
        proof {
            assert forall|kind: KindView| self@.dom().contains(kind) implies #[trigger] self@[kind]
                == flushed(was, intervals, now)[kind] by {
                if !(exists|j: int| 0 <= j < i && (#[trigger] listed[j]).kind() == kind) {
                    assert(!holds(was, kind));
                }
            }
            assert(self@ =~= flushed(was, intervals, now));
            let out = views(sent@);
            assert forall|a: int| 0 <= a < out.len() implies released(
                was,
                intervals,
                (#[trigger] out[a]).kind(),
                now,
            ) && was[out[a].kind()].held == Some(out[a]) by {
                assert(out[a] == listed[source[a]]);
            }
            assert forall|kind: KindView| #[trigger] released(was, intervals, kind, now) implies exists|
                a: int,
            | 0 <= a < out.len() && (#[trigger] out[a]).kind() == kind by {
                let j = choose|j: int| 0 <= j < listed.len() && (#[trigger] listed[j]).kind() == kind;
                let a = choose|a: int| 0 <= a < source.len() && #[trigger] source[a] == j;
                assert(out[a] == listed[j]);
            }
            assert forall|a: int, b: int| 0 <= a < b < out.len() implies (#[trigger] out[a]).kind()
                != (#[trigger] out[b]).kind() by {
                assert(out[a] == listed[source[a]]);
                assert(out[b] == listed[source[b]]);
                assert(source[a] < source[b]);
            }
        }
        sent
    }
}

impl Default for DebounceMap {
    /// A debouncer with the default intervals that remembers nothing.
    fn default() -> (map: Self)
        ensures
            map.wf(),
            map@ == nothing_remembered(),
            map.intervals() == (DebounceIntervals {
                file: 5000,
                activity: 15000,
                notification: 1000,
                custom: 1,
            }),
    {
        DebounceMap::new(DebounceIntervals::default())
    }
}

} // verus!
