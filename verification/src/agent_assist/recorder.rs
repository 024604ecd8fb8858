//! Diagnostic event recorder.
//!
//! In-memory ring buffer of structured server events. Sensitive fields are not recorded: an event
//! holds the *facts about* what happened, not the secret payload.
use crate::containers::Dup;
use crate::time::unix_now;
use vstd::prelude::*;

verus! {

broadcast use vstd::string::group_string_axioms;

/// Maximum events retained in the in-memory ring buffer.
pub const RING_CAPACITY: usize = 10_000;

/// Categories of recorded events.
#[derive(Debug, Clone, Copy, PartialEq, Eq, Structural)]
pub enum EventKind {
    SessionOpened,
    SessionClosed,
    AuthAttempt,
    SaslChallenge,
    CapNegotiation,
    Join,
    Part,
    Kick,
    ModeChange,
    PolicyEvaluation,
    MessageAccepted,
    MessageDelivered,
    MessageRejected,
    AckReceived,
    ResumeRequested,
    ResumeReplay,
    FederationInbound,
    FederationOutbound,
    SignatureValidation,
    CrdtMerge,
    RateLimitDecision,
}

impl DeepView for EventKind {
    type V = EventKind;

    open spec fn deep_view(&self) -> EventKind {
        *self
    }
}

impl Dup for EventKind {
    fn dup(&self) -> (r: EventKind) {
        *self
    }
}

/// The mathematical content of a [`DiagnosticEvent`].
pub struct DiagnosticEventView {
    pub time_unix: i64,
    pub kind: EventKind,
    pub did: Option<Seq<char>>,
    pub session_id: Option<Seq<char>>,
    pub channel: Option<Seq<char>>,
    pub msgid: Option<Seq<char>>,
    pub server_sequence: Option<i64>,
    pub reason: Option<Seq<char>>,
    pub disclosure_level: Seq<char>,
}

/// One captured server-side event. What is not known is `None`.
#[derive(Debug)]
pub struct DiagnosticEvent {
    pub time_unix: i64,
    pub kind: EventKind,
    pub did: Option<String>,
    pub session_id: Option<String>,
    pub channel: Option<String>,
    pub msgid: Option<String>,
    pub server_sequence: Option<i64>,
    /// Brief reason or result code.
    pub reason: Option<String>,
    /// Disclosure level required to view this event.
    pub disclosure_level: &'static str,
}

impl DeepView for DiagnosticEvent {
    type V = DiagnosticEventView;

    open spec fn deep_view(&self) -> DiagnosticEventView {
        DiagnosticEventView {
            time_unix: self.time_unix.deep_view(),
            kind: self.kind.deep_view(),
            did: self.did.deep_view(),
            session_id: self.session_id.deep_view(),
            channel: self.channel.deep_view(),
            msgid: self.msgid.deep_view(),
            server_sequence: self.server_sequence.deep_view(),
            reason: self.reason.deep_view(),
            disclosure_level: self.disclosure_level.deep_view(),
        }
    }
}

impl Dup for DiagnosticEvent {
    fn dup(&self) -> (r: DiagnosticEvent) {
        DiagnosticEvent {
            time_unix: self.time_unix.dup(),
            kind: self.kind.dup(),
            did: self.did.dup(),
            session_id: self.session_id.dup(),
            channel: self.channel.dup(),
            msgid: self.msgid.dup(),
            server_sequence: self.server_sequence.dup(),
            reason: self.reason.dup(),
            disclosure_level: self.disclosure_level,
        }
    }
}

impl DiagnosticEvent {
    /// Minimal event tagged with `kind` and a time.
    pub fn at(kind: EventKind, time_unix: i64) -> (e: DiagnosticEvent)
        ensures
            e.deep_view() == (DiagnosticEventView {
                time_unix,
                kind,
                did: None,
                session_id: None,
                channel: None,
                msgid: None,
                server_sequence: None,
                reason: None,
                disclosure_level: "account"@,
            }),
    {
        DiagnosticEvent {
            time_unix,
            kind,
            did: None,
            session_id: None,
            channel: None,
            msgid: None,
            server_sequence: None,
            reason: None,
            disclosure_level: "account",
        }
    }

    /// Convenience: minimal event tagged with `kind` and the current time.
    pub fn now(kind: EventKind) -> (e: DiagnosticEvent)
        ensures
            e.deep_view() == (DiagnosticEventView {
                time_unix: e.time_unix,
                kind,
                did: None,
                session_id: None,
                channel: None,
                msgid: None,
                server_sequence: None,
                reason: None,
                disclosure_level: "account"@,
            }),
    {
        DiagnosticEvent::at(kind, unix_now())
    }
}

/// Ring buffer holding recent events.
#[derive(Debug)]
pub struct EventRecorder {
    events: Vec<DiagnosticEvent>,
    cap: usize,
}

/// The events after one more: where the buffer is full, the oldest is gone.
pub open spec fn recorded(
    events: Seq<DiagnosticEventView>,
    cap: nat,
    e: DiagnosticEventView,
) -> Seq<DiagnosticEventView> {
    if events.len() == cap && events.len() > 0 {
        events.skip(1).push(e)
    } else {
        events.push(e)
    }
}

/// The events whose flag is set.
pub open spec fn picked(events: Seq<DiagnosticEventView>, flags: Seq<bool>) -> Seq<
    DiagnosticEventView,
>
    decreases events.len(),
{
    if events.len() == 0 {
        Seq::empty()
    } else {
        let before = picked(events.drop_last(), flags);
        if flags[events.len() - 1] {
            before.push(events.last())
        } else {
            before
        }
    }
}

impl EventRecorder {
    /// The events, oldest first.
    pub closed spec fn events(&self) -> Seq<DiagnosticEvent> {
        self.events@
    }

    /// What the events hold.
    pub open spec fn contents(&self) -> Seq<DiagnosticEventView> {
        self.events().map_values(|e: DiagnosticEvent| e.deep_view())
    }

    /// How many events there is room for.
    pub closed spec fn capacity(&self) -> nat {
        self.cap as nat
    }

    /// An empty buffer for `cap` events.
    pub fn new(cap: usize) -> (r: EventRecorder)
        ensures
            r.contents() == Seq::<DiagnosticEventView>::empty(),
            r.capacity() == cap,
    {
        let r = EventRecorder { events: Vec::new(), cap };
        assert(r.contents() =~= Seq::<DiagnosticEventView>::empty());
        r
    }

    /// Append an event, evicting the oldest if at capacity.
    pub fn record(&mut self, event: DiagnosticEvent)
        ensures
            final(self).contents() == recorded(
                old(self).contents(),
                old(self).capacity(),
                event.deep_view(),
            ),
            final(self).capacity() == old(self).capacity(),
    {
        let ghost before = self.contents();
        if self.events.len() == self.cap && self.events.len() > 0 {
            let oldest = self.events.remove(0);
            assert(self.contents() =~= before.skip(1));
        }
        let ghost mid = self.contents();
        self.events.push(event);
        assert(self.contents() =~= mid.push(event.deep_view()));
    }

    /// Snapshot a filtered slice of events: those that `keep` says yes to.
    pub fn query<F: Fn(&DiagnosticEvent) -> bool>(&self, keep: F) -> (r: Vec<DiagnosticEvent>)
        requires
            forall|e: &DiagnosticEvent| call_requires(keep, (e,)),
        ensures
            exists|flags: Seq<bool>|
                flags.len() == self.events().len() && (forall|i: int|
                    0 <= i < flags.len() ==> call_ensures(
                        keep,
                        (&self.events()[i],),
                        #[trigger] flags[i],
                    )) && r.deep_view() == #[trigger] picked(self.contents(), flags),
    {
        let ghost all = self.contents();
        let ghost mut flags: Seq<bool> = Seq::empty();
        let mut out: Vec<DiagnosticEvent> = Vec::new();
        let mut i: usize = 0;
        assert(out.deep_view() =~= picked(all.take(0), flags));
        while i < self.events.len()
            invariant
                i <= self.events.len(),
                all == self.contents(),
                all.len() == self.events@.len(),
                forall|e: &DiagnosticEvent| call_requires(keep, (e,)),
                flags.len() == i,
                forall|j: int|
                    0 <= j < i ==> call_ensures(keep, (&self.events()[j],), #[trigger] flags[j]),
                out.deep_view() == picked(all.take(i as int), flags),
            decreases self.events.len() - i,
        {
            let ghost before = out.deep_view();
            let ghost old_flags = flags;
            let yes = keep(&self.events[i]);
            proof {
                flags = flags.push(yes);
                assert(all.take(i + 1).drop_last() =~= all.take(i as int));
                lemma_picked_prefix(all.take(i as int), old_flags, yes);
            }
            if yes {
                let e = self.events[i].dup();
                out.push(e);
                assert(out.deep_view() =~= before.push(e.deep_view()));
            }
            i = i + 1;
        }
        assert(all.take(i as int) =~= all);
        assert(out.deep_view() == picked(self.contents(), flags));
        out
    }

    /// Total events currently retained.
    pub fn len(&self) -> (n: usize)
        ensures
            n == self.contents().len(),
    {
        self.events.len()
    }
}

/// One more flag makes no difference to the events before it.
proof fn lemma_picked_prefix(events: Seq<DiagnosticEventView>, flags: Seq<bool>, more: bool)
    requires
        events.len() <= flags.len(),
    ensures
        picked(events, flags.push(more)) == picked(events, flags),
    decreases events.len(),
{
    if events.len() > 0 {
        lemma_picked_prefix(events.drop_last(), flags, more);
    }
}

/// Record an event into a ring buffer.
pub fn record(recorder: &mut EventRecorder, event: DiagnosticEvent)
    ensures
        final(recorder).contents() == recorded(
            old(recorder).contents(),
            old(recorder).capacity(),
            event.deep_view(),
        ),
        final(recorder).capacity() == old(recorder).capacity(),
{
    recorder.record(event);
}

/// The events after several more.
pub open spec fn recorded_all(
    events: Seq<DiagnosticEventView>,
    cap: nat,
    more: Seq<DiagnosticEventView>,
) -> Seq<DiagnosticEventView>
    decreases more.len(),
{
    if more.len() == 0 {
        events
    } else {
        recorded(recorded_all(events, cap, more.drop_last()), cap, more.last())
    }
}

/// A buffer with room never holds more than it has room for, and what it holds is the newest of
/// what was recorded, in order.
pub proof fn law_ring_keeps_the_newest(cap: nat, all: Seq<DiagnosticEventView>)
    requires
        cap > 0,
    ensures
        recorded_all(Seq::empty(), cap, all).len() <= cap,
        recorded_all(Seq::empty(), cap, all) == (if all.len() <= cap {
            all
        } else {
            all.skip(all.len() - cap)
        }),
    decreases all.len(),
{
    if all.len() > 0 {
        law_ring_keeps_the_newest(cap, all.drop_last());
        let got = recorded_all(Seq::empty(), cap, all);
        if all.len() <= cap {
            assert(got =~= all);
        } else {
            assert(got =~= all.skip(all.len() - cap));
        }
    } else {
        assert(all =~= Seq::<DiagnosticEventView>::empty());
    }
}

} // verus!
