use crate::connection::{ActiveConnections, ConnectionError};
use crate::debounce::{
    due, flushed, holds, lists_released, nothing_remembered, offer, purged, released, views,
    DebounceIntervals, DebounceMap, SlotView,
};
use crate::message::{KindView, MessageType, MessageView};
use crate::metrics::{decremented, incremented, Metrics};
use crate::user::UserId;
use std::num::NonZeroU64;
use tokio::sync::broadcast::Receiver;
use vstd::bytes::{spec_u64_to_le_bytes, u64_to_le_bytes};
use vstd::prelude::*;

verus! {

/// How long the sender waits for a message before it flushes or probes, in
/// milliseconds.
pub const QUIET_WINDOW_MILLIS: u64 = 30000;

/// Mathematical value of an [`Outgoing`] frame.
pub enum OutgoingView {
    Text(Seq<char>),
    Ping(Seq<u8>),
    Close,
}

/// A frame that the session writes to its socket.
#[derive(Debug, PartialEq, Eq)]
pub enum Outgoing {
    /// A notification, in its wire form.
    Text(String),
    /// A liveness probe; the client must echo the payload in a pong.
    Ping(Vec<u8>),
    /// The writer is closed; nothing follows.
    Close,
}

impl View for Outgoing {
    type V = OutgoingView;

    open spec fn view(&self) -> OutgoingView {
        match self {
            Outgoing::Text(text) => OutgoingView::Text(text@),
            Outgoing::Ping(payload) => OutgoingView::Ping(payload@),
            Outgoing::Close => OutgoingView::Close,
        }
    }
}

/// The values of a list of frames.
pub open spec fn frame_views(frames: Seq<Outgoing>) -> Seq<OutgoingView> {
    frames.map_values(|frame: Outgoing| frame@)
}

/// The value of a frame that may be absent.
pub open spec fn frame_view(frame: Option<Outgoing>) -> Option<OutgoingView> {
    match frame {
        Some(frame) => Some(frame@),
        None => None,
    }
}

/// The text frames that carry `sent`, in the same order.
pub open spec fn text_frames(sent: Seq<MessageView>) -> Seq<OutgoingView> {
    sent.map_values(|msg: MessageView| OutgoingView::Text(msg.wire()))
}

/// Whether `frames` are the frames of a flush at `now`: one text frame for
/// each held message that the flush lets out, in any order.
pub open spec fn lists_flush_frames(
    slots: Map<KindView, SlotView>,
    intervals: DebounceIntervals,
    now: u64,
    frames: Seq<OutgoingView>,
) -> bool {
    exists|sent: Seq<MessageView>|
        lists_released(slots, intervals, now, sent) && frames == #[trigger] text_frames(sent)
}

/// A counter `steps` steps up, wrapping after `u64::MAX`.
pub open spec fn advanced(count: u64, steps: nat) -> u64 {
    ((count + steps) % 0x1_0000_0000_0000_0000) as u64
}

/// Whether any message is held back.
pub open spec fn has_held(slots: Map<KindView, SlotView>) -> bool {
    exists|kind: KindView| holds(slots, kind)
}

/// How loudly a socket error is reported.
#[derive(Clone, Copy, Debug, PartialEq, Eq)]
pub enum LogLevel {
    Debug,
    Warn,
}

/// Whether `phrase` occurs somewhere in `text`.
pub open spec fn contains_phrase(text: Seq<char>, phrase: Seq<char>) -> bool {
    exists|at: int|
        0 <= at && at + phrase.len() <= text.len() && #[trigger] text.subrange(
            at,
            at + phrase.len(),
        ) == phrase
}

/// Whether `phrase` occurs somewhere in `text`.
pub fn has_phrase(text: &str, phrase: &str) -> (found: bool)
    ensures
        found == contains_phrase(text@, phrase@),
{
    let length: usize = text.unicode_len();
    let width: usize = phrase.unicode_len();
    if width > length {
        return false;
    }
    let wanted = String::from_str(phrase);
    let last: usize = length - width;
    let mut at: usize = 0;
    loop
        invariant
            length == text@.len(),
            width == phrase@.len(),
            last == length - width,
            wanted@ == phrase@,
            at <= last,
            forall|earlier: int|
                0 <= earlier < at ==> #[trigger] text@.subrange(earlier, earlier + width) != phrase@,
        decreases last - at,
    {
        let part = String::from_str(text.substring_char(at, at + width));
        if part == wanted {
            return true;
        }
        if at == last {
            return false;
        }
        at += 1;
    }
}

/// Whether an error text reports an abrupt but harmless disconnect: it
/// speaks of a connection reset without closing handshake, or of one reset
/// by the peer.
pub open spec fn is_benign_disconnect(text: Seq<char>) -> bool {
    ||| contains_phrase(text, "Connection reset without closing handshake"@)
    ||| contains_phrase(text, "Connection reset by peer"@)
}

/// Picks the level at which a socket error is logged: debug for the known
/// texts of a harmless disconnect, warn for every other.
pub fn classify_socket_error(text: &str) -> (level: LogLevel)
    ensures
        level == if is_benign_disconnect(text@) {
            LogLevel::Debug
        } else {
            LogLevel::Warn
        },
{
    if has_phrase(text, "Connection reset without closing handshake") || has_phrase(
        text,
        "Connection reset by peer",
    ) {
        LogLevel::Debug
    } else {
        LogLevel::Warn
    }
}

/// `rand::random` draws a `NonZeroU64` from the thread's generator, and
/// `get` reads its number: any number but zero comes back.
#[verifier::external_body]
fn fresh_nonce() -> (nonce: u64)
    ensures
        nonce != 0,
{
    rand::random::<NonZeroU64>().get()
}

/// Whether a pong's payload is the little-endian form of the expected nonce.
pub fn payload_matches(payload: &[u8], expected: u64) -> (same: bool)
    ensures
        same == (payload@ == spec_u64_to_le_bytes(expected)),
{
    let wanted = u64_to_le_bytes(expected);
    if payload.len() != 8 {
        return false;
    }
    let mut i: usize = 0;
    while i < 8
        invariant
            i <= 8,
            payload@.len() == 8,
            wanted@.len() == 8,
            wanted@ == spec_u64_to_le_bytes(expected),
            forall|j: int| 0 <= j < i ==> payload@[j] == wanted@[j],
        decreases 8 - i,
    {
        if payload[i] != wanted[i] {
            return false;
        }
        i += 1;
    }
    assert(payload@ =~= wanted@);
    true
}

/// Mathematical value of a [`Session`].
pub struct SessionView {
    /// The authenticated user.
    pub user: Seq<char>,
    /// What the debouncer remembers.
    pub slots: Map<KindView, SlotView>,
    /// The debounce intervals of the session.
    pub intervals: DebounceIntervals,
    /// The nonce of the ping that awaits its pong; zero where none does.
    pub expect_pong: u64,
    /// Whether the session is still running.
    pub open: bool,
}

impl SessionView {
    /// The same session, ended.
    pub open spec fn ended(self) -> SessionView {
        SessionView { open: false, ..self }
    }
}

/// The session after a message arrived at `now`: the debouncer has seen
/// it. An ended session stays as it is.
pub open spec fn after_message(session: SessionView, msg: MessageView, now: u64) -> SessionView {
    if session.open {
        SessionView { slots: offer(session.slots, session.intervals, msg, now), ..session }
    } else {
        session
    }
}

/// The frame that a message arriving at `now` leads to: its wire form if the
/// debouncer lets it through, nothing otherwise.
pub open spec fn message_frame(session: SessionView, msg: MessageView, now: u64) -> Option<
    OutgoingView,
> {
    if session.open && due(session.slots, session.intervals, msg.kind(), now) {
        Some(OutgoingView::Text(msg.wire()))
    } else {
        None
    }
}

/// The session after a probe with `nonce`: the nonce is expected, and the
/// session goes on only if no earlier probe was unanswered. An ended session
/// stays as it is.
pub open spec fn after_probe(session: SessionView, nonce: u64) -> SessionView {
    if session.open {
        SessionView { expect_pong: nonce, open: session.expect_pong == 0, ..session }
    } else {
        session
    }
}

/// The frame that a probe with `nonce` leads to: a ping with the nonce's
/// eight little-endian bytes, unless the session ends or has ended.
pub open spec fn probe_frame(session: SessionView, nonce: u64) -> Option<OutgoingView> {
    if session.open && session.expect_pong == 0 {
        Some(OutgoingView::Ping(spec_u64_to_le_bytes(nonce)))
    } else {
        None
    }
}

/// The session after a quiet window that ended at `now`, where `nonce` is the
/// nonce drawn for a probe: held messages are flushed, and without any the
/// quiet kinds are forgotten and the client is probed.
pub open spec fn after_quiet(session: SessionView, now: u64, nonce: u64) -> SessionView {
    if !session.open {
        session
    } else if has_held(session.slots) {
        SessionView { slots: flushed(session.slots, session.intervals, now), ..session }
    } else {
        after_probe(
            SessionView { slots: purged(session.slots, session.intervals, now), ..session },
            nonce,
        )
    }
}

/// The session after a pong with `payload`: nothing is expected any more,
/// and the session goes on only if the payload is the expected nonce in
/// little-endian bytes. An ended session stays as it is.
pub open spec fn after_pong(session: SessionView, payload: Seq<u8>) -> SessionView {
    if session.open {
        SessionView {
            expect_pong: 0,
            open: payload == spec_u64_to_le_bytes(session.expect_pong),
            ..session
        }
    } else {
        session
    }
}

/// The count of live connections after a step that took a session from
/// `before` to `after`: one less if the step ended the session, the same
/// otherwise.
pub open spec fn connections_after(before: SessionView, after: SessionView, count: u64) -> u64 {
    if before.open && !after.open {
        decremented(count)
    } else {
        count
    }
}

/// The state of one authenticated connection after admission.
pub struct Session {
    user: UserId,
    debounce: DebounceMap,
    expect_pong: u64,
    open: bool,
}

impl View for Session {
    type V = SessionView;

    closed spec fn view(&self) -> SessionView {
        SessionView {
            user: self.user@,
            slots: self.debounce@,
            intervals: self.debounce.intervals(),
            expect_pong: self.expect_pong,
            open: self.open,
        }
    }
}

/// An admitted session and its subscriber on the user's fan-out.
pub struct Admitted {
    pub session: Session,
    pub receiver: Receiver<MessageType>,
}

impl Session {
    /// The session's debouncer is well formed. Admission establishes this
    /// and every method keeps it.
    pub closed spec fn wf(&self) -> bool {
        self.debounce.wf()
    }

    /// Admits an authenticated user: subscribes to the user's fan-out and, if
    /// that succeeds, counts the connection and starts the session. A
    /// refused subscription leaves the counters alone.
    pub fn start(
        user: UserId,
        intervals: DebounceIntervals,
        connections: &mut ActiveConnections,
        metrics: &mut Metrics,
    ) -> (started: Result<Admitted, ConnectionError>)
        ensures
            final(connections).users() == old(connections).users().insert(user@),
            !old(connections).users().contains(user@) ==> started is Ok,
            match started {
                Ok(begun) => {
                    &&& begun.session.wf()
                    &&& begun.session@ == (SessionView {
                        user: user@,
                        slots: nothing_remembered(),
                        intervals,
                        expect_pong: 0,
                        open: true,
                    })
                    &&& final(metrics).connections() == incremented(old(metrics).connections())
                    &&& final(metrics).messages() == old(metrics).messages()
                },
                Err(_) => *final(metrics) == *old(metrics),
            },
    {
        match connections.add(user.clone()) {
            Ok(receiver) => {
                metrics.add_connection();
                let session = Session {
                    user,
                    debounce: DebounceMap::new(intervals),
                    expect_pong: 0,
                    open: true,
                };
                Ok(Admitted { session, receiver })
            },
            Err(refused) => Err(refused),
        }
    }

    /// Whether the session is still running.
    pub fn is_open(&self) -> (open: bool)
        ensures
            open == self@.open,
    {
        self.open
    }

    /// The authenticated user.
    pub fn user(&self) -> (user: &UserId)
        ensures
            user@ == self@.user,
    {
        &self.user
    }

    fn end(&mut self, metrics: &mut Metrics)
        requires
            old(self).wf(),
        ensures
            final(self).wf(),
            final(self)@ == old(self)@.ended(),
            final(metrics).messages() == old(metrics).messages(),
            final(metrics).connections() == connections_after(
                old(self)@,
                final(self)@,
                old(metrics).connections(),
            ),
    {
        if self.open {
            self.open = false;
            metrics.remove_connection();
        }
    }

    /// A message arrived from the fan-out at `now`. It is written to the
    /// socket, and counted, exactly if the debouncer lets it through;
    /// otherwise it is held. An ended session does nothing.
    pub fn on_message(&mut self, msg: &MessageType, now: u64, metrics: &mut Metrics) -> (frame:
        Option<Outgoing>)
        requires
            old(self).wf(),
        ensures
            final(self).wf(),
            final(self)@ == after_message(old(self)@, msg@, now),
            frame_view(frame) == message_frame(old(self)@, msg@, now),
            final(metrics).connections() == old(metrics).connections(),
            final(metrics).messages() == if frame is Some {
                incremented(old(metrics).messages())
            } else {
                old(metrics).messages()
            },
    {
        if !self.open {
            return None;
        }
        if self.debounce.should_send(msg, now) {
            metrics.add_message();
            Some(Outgoing::Text(msg.wire_form()))
        } else {
            None
        }
    }

    /// Sends a liveness probe with the given nonce, unless the previous probe
    /// is still unanswered, in which case the session ends. Either way the
    /// nonce becomes the expected one. An ended session does nothing.
    pub fn probe(&mut self, nonce: u64, metrics: &mut Metrics) -> (frame: Option<Outgoing>)
        requires
            old(self).wf(),
            nonce != 0,
        ensures
            final(self).wf(),
            final(self)@ == after_probe(old(self)@, nonce),
            frame_view(frame) == probe_frame(old(self)@, nonce),
            final(metrics).messages() == old(metrics).messages(),
            final(metrics).connections() == connections_after(
                old(self)@,
                final(self)@,
                old(metrics).connections(),
            ),
    {
        if !self.open {
            return None;
        }
        let unanswered: u64 = self.expect_pong;
        self.expect_pong = nonce;
        if unanswered != 0 {
            self.end(metrics);
            None
        } else {
            Some(Outgoing::Ping(u64_to_le_bytes(nonce)))
        }
    }

    /// The quiet window passed at `now` without a message. If messages are
    /// held, they are flushed: each is offered to the debouncer again, and
    /// those that it lets through are written and counted. If nothing is
    /// held, the debouncer forgets its quiet kinds and the client is probed
    /// with a fresh nonce, as [`Session::probe`] does with a given one. An
    /// ended session does nothing.
    pub fn on_quiet(&mut self, now: u64, metrics: &mut Metrics) -> (frames: Vec<Outgoing>)
        requires
            old(self).wf(),
        ensures
            final(self).wf(),
            final(self)@ == after_quiet(old(self)@, now, final(self)@.expect_pong),
            old(self)@.open && !has_held(old(self)@.slots) ==> final(self)@.expect_pong != 0,
            if old(self)@.open && has_held(old(self)@.slots) {
                lists_flush_frames(
                    old(self)@.slots,
                    old(self)@.intervals,
                    now,
                    frame_views(frames@),
                )
            } else {
                frame_views(frames@) == match probe_frame(old(self)@, final(self)@.expect_pong) {
                    Some(ping) => seq![ping],
                    None => Seq::<OutgoingView>::empty(),
                }
            },
            final(metrics).messages() == if old(self)@.open && has_held(old(self)@.slots) {
                advanced(old(metrics).messages(), frames@.len())
            } else {
                old(metrics).messages()
            },
            final(metrics).connections() == connections_after(
                old(self)@,
                final(self)@,
                old(metrics).connections(),
            ),
    {
        let mut frames: Vec<Outgoing> = Vec::new();
        if !self.open {
            proof {
                assert(frame_views(frames@) =~= Seq::<OutgoingView>::empty());
            }
            return frames;
        }
        if self.debounce.has_held_message() {
            let ghost before = metrics.messages();
            let sent = self.debounce.flush(now);
            let mut i: usize = 0;
            while i < sent.len()
                invariant
                    i <= sent@.len(),
                    frames@.len() == i,
                    frame_views(frames@) == text_frames(views(sent@).take(i as int)),
                    metrics.messages() == advanced(before, i as nat),
                    metrics.connections() == old(metrics).connections(),
                decreases sent@.len() - i,
            {
                let ghost earlier = frames@;
                metrics.add_message();
                frames.push(Outgoing::Text(sent[i].wire_form()));
                proof {
                    let got = frame_views(frames@);
                    let want = text_frames(views(sent@).take(i as int + 1));
                    assert forall|j: int| 0 <= j < got.len() implies got[j] == want[j] by {
                        if j < i {
                            assert(frames@[j] == earlier[j]);
                            assert(frame_views(earlier)[j] == text_frames(
                                views(sent@).take(i as int),
                            )[j]);
                        }
                    }
                    assert(got =~= want);
                }
                i += 1;
            }
            proof {
                assert(views(sent@).take(i as int) =~= views(sent@));
                assert(advanced(before, 0) == before);
            }
            frames
        } else {
            self.debounce.purge(now);
            let nonce: u64 = fresh_nonce();
            match self.probe(nonce, metrics) {
                Some(ping) => {
                    frames.push(ping);
                    proof {
                        assert(frame_views(frames@) =~= seq![
                            OutgoingView::Ping(spec_u64_to_le_bytes(nonce)),
                        ]);
                    }
                    frames
                },
                None => {
                    proof {
                        assert(frame_views(frames@) =~= Seq::<OutgoingView>::empty());
                    }
                    frames
                },
            }
        }
    }

    /// A pong arrived. The expected nonce is cleared, and the session goes
    /// on exactly if the payload is the eight little-endian bytes of that
    /// nonce; any other payload ends it. An ended session does nothing.
    pub fn on_pong(&mut self, payload: &[u8], metrics: &mut Metrics)
        requires
            old(self).wf(),
        ensures
            final(self).wf(),
            final(self)@ == after_pong(old(self)@, payload@),
            final(metrics).messages() == old(metrics).messages(),
            final(metrics).connections() == connections_after(
                old(self)@,
                final(self)@,
                old(metrics).connections(),
            ),
    {
        if !self.open {
            return ;
        }
        let expected: u64 = self.expect_pong;
        self.expect_pong = 0;
        if !payload_matches(payload, expected) {
            self.end(metrics);
        }
    }

    /// The process-wide reset signal arrived: the writer is closed and the
    /// session ends. An ended session does nothing.
    pub fn on_reset(&mut self, metrics: &mut Metrics) -> (frame: Option<Outgoing>)
        requires
            old(self).wf(),
        ensures
            final(self).wf(),
            final(self)@ == old(self)@.ended(),
            frame_view(frame) == if old(self)@.open {
                Some(OutgoingView::Close)
            } else {
                None
            },
            final(metrics).messages() == old(metrics).messages(),
            final(metrics).connections() == connections_after(
                old(self)@,
                final(self)@,
                old(metrics).connections(),
            ),
    {
        if !self.open {
            return None;
        }
        self.end(metrics);
        Some(Outgoing::Close)
    }

    /// Reading from the socket failed with the given error text: the session
    /// ends, and the error is to be logged at the returned level.
    pub fn on_socket_error(&mut self, text: &str, metrics: &mut Metrics) -> (level: LogLevel)
        requires
            old(self).wf(),
        ensures
            final(self).wf(),
            final(self)@ == old(self)@.ended(),
            level == if is_benign_disconnect(text@) {
                LogLevel::Debug
            } else {
                LogLevel::Warn
            },
            final(metrics).messages() == old(metrics).messages(),
            final(metrics).connections() == connections_after(
                old(self)@,
                final(self)@,
                old(metrics).connections(),
            ),
    {
        self.end(metrics);
        classify_socket_error(text)
    }

    /// The client's stream ended, or the session's task is going away: the
    /// session ends. Its subscriber is dropped by the caller; the user's
    /// fan-out stays.
    pub fn on_end_of_stream(&mut self, metrics: &mut Metrics)
        requires
            old(self).wf(),
        ensures
            final(self).wf(),
            final(self)@ == old(self)@.ended(),
            final(metrics).messages() == old(metrics).messages(),
            final(metrics).connections() == connections_after(
                old(self)@,
                final(self)@,
                old(metrics).connections(),
            ),
    {
        self.end(metrics);
    }
}

/// A run of a session: its value and the count of live connections after
/// each step. Whether every step leaves an ended session ended and settles
/// the count as [`connections_after`] says.
pub open spec fn accounted(states: Seq<SessionView>, counts: Seq<u64>) -> bool {
    &&& states.len() == counts.len()
    &&& forall|i: int|
        0 <= i < states.len() - 1 ==> {
            &&& !(#[trigger] states[i]).open ==> !states[i + 1].open
            &&& counts[i + 1] == connections_after(states[i], states[i + 1], counts[i])
        }
}

/// A session is counted in once and out once: if the count stood at `base`
/// before the session started and nothing else touched it, then after every
/// step it stands one above `base` while the session runs and at `base` once
/// it has ended, and an ended session never runs again.
pub proof fn lemma_session_is_counted_once(
    base: u64,
    states: Seq<SessionView>,
    counts: Seq<u64>,
    at: int,
)
    requires
        accounted(states, counts),
        0 <= at < states.len(),
        states[0].open,
        counts[0] == incremented(base),
    ensures
        counts[at] == if states[at].open {
            incremented(base)
        } else {
            base
        },
        forall|later: int| at <= later < states.len() && !states[at].open ==> !states[later].open,
    decreases at,
{
    if at > 0 {
        lemma_session_is_counted_once(base, states, counts, at - 1);
        assert(!states[at - 1].open ==> !states[at].open);
    }
    assert forall|later: int| at <= later < states.len() && !states[at].open implies !states[later].open by {
        lemma_ended_stays_ended(states, counts, at, later);
    }
}

proof fn lemma_ended_stays_ended(states: Seq<SessionView>, counts: Seq<u64>, at: int, later: int)
    requires
        accounted(states, counts),
        0 <= at <= later < states.len(),
        !states[at].open,
    ensures
        !states[later].open,
    decreases later - at,
{
    if at < later {
        assert(!states[at].open ==> !states[at + 1].open);
        lemma_ended_stays_ended(states, counts, at + 1, later);
    }
}

/// A client that never answers is dropped after two quiet windows: a running
/// session that holds no message sends a probe at the end of the first
/// window, unless one is unanswered already, and ends at the end of the
/// second.
pub proof fn lemma_silent_client_is_dropped(
    session: SessionView,
    first: u64,
    first_nonce: u64,
    second: u64,
    second_nonce: u64,
)
    requires
        session.open,
        !has_held(session.slots),
        first_nonce != 0,
    ensures
        !after_quiet(after_quiet(session, first, first_nonce), second, second_nonce).open,
{
    let probed = after_quiet(session, first, first_nonce);
    if probed.open {
        assert forall|kind: KindView| !holds(probed.slots, kind) by {
            assert(!holds(session.slots, kind));
        }
    }
}

/// A pong with the wrong payload ends the session.
pub proof fn lemma_wrong_pong_ends_session(session: SessionView, payload: Seq<u8>)
    requires
        payload != spec_u64_to_le_bytes(session.expect_pong),
    ensures
        !after_pong(session, payload).open,
{
}

/// A message that reaches a running session is never lost on the spot: it is
/// written in its wire form, or it becomes the held message of its kind.
pub proof fn lemma_message_is_written_or_held(session: SessionView, msg: MessageView, now: u64)
    requires
        session.open,
    ensures
        message_frame(session, msg, now) == Some(OutgoingView::Text(msg.wire())) || (holds(
            after_message(session, msg, now).slots,
            msg.kind(),
        ) && after_message(session, msg, now).slots[msg.kind()].held == Some(msg)),
{
}

/// A held message is written by the first flush at which its kind is due,
/// unless a newer message of its kind took its place before: every list of
/// frames that a flush may produce holds the wire form of each held message
/// that is due.
pub proof fn lemma_flush_writes_what_is_due(
    slots: Map<KindView, SlotView>,
    intervals: DebounceIntervals,
    kind: KindView,
    now: u64,
    frames: Seq<OutgoingView>,
)
    requires
        holds(slots, kind),
        due(slots, intervals, kind, now),
        lists_flush_frames(slots, intervals, now, frames),
    ensures
        exists|j: int|
            0 <= j < frames.len() && #[trigger] frames[j] == OutgoingView::Text(
                slots[kind].held->0.wire(),
            ),
{
    let sent = choose|sent: Seq<MessageView>|
        lists_released(slots, intervals, now, sent) && frames == #[trigger] text_frames(sent);
    assert(released(slots, intervals, kind, now));
    let j = choose|j: int| 0 <= j < sent.len() && (#[trigger] sent[j]).kind() == kind;
    assert(frames[j] == OutgoingView::Text(sent[j].wire()));
}

} // verus!
