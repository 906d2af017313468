//! Events exchanged with the host, and the bridge that delivers host
//! callbacks to the library while keeping its own synthesized input out.
use vstd::prelude::*;

verus! {

/// A key of the host's input, as far as the library tells keys apart.
#[derive(Clone, Copy, Debug, PartialEq, Eq, Structural)]
pub enum Key {
    Left,
    Right,
    Backspace,
    Delete,
    Home,
    End,
    Up,
    Down,
    Tab,
    Enter,
    KeypadEnter,
    Escape,
    Slash,
    LeftCtrl,
    RightCtrl,
    LeftShift,
    RightShift,
    Other(u32),
}

/// Where a chat line is shown.
#[derive(Clone, Copy, Debug, PartialEq, Eq, Structural)]
pub enum MsgKind {
    Normal,
    Status,
}

/// A host callback, delivered to the library.
#[derive(Clone, Debug)]
pub enum IncomingEvent {
    Tick,
    ChatReceived(String, MsgKind),
    InputDown(Key, bool),
    InputUp(Key, bool),
    InputPress(char),
}

/// A request to the host: show a chat line, or synthesize input.
#[derive(Clone, Debug)]
pub enum OutgoingEvent {
    ChatAdd(String),
    ChatAddOf(String, MsgKind),
    InputDown(Key, bool),
    InputUp(Key, bool),
    InputPress(char),
}

/// The value of an outgoing event, its text as characters.
pub enum Out {
    ChatAdd(Seq<char>),
    ChatAddOf(Seq<char>, MsgKind),
    InputDown(Key, bool),
    InputUp(Key, bool),
    InputPress(char),
}

impl View for OutgoingEvent {
    type V = Out;

    open spec fn view(&self) -> Out {
        match self {
            OutgoingEvent::ChatAdd(s) => Out::ChatAdd(s@),
            OutgoingEvent::ChatAddOf(s, k) => Out::ChatAddOf(s@, *k),
            OutgoingEvent::InputDown(k, r) => Out::InputDown(*k, *r),
            OutgoingEvent::InputUp(k, r) => Out::InputUp(*k, *r),
            OutgoingEvent::InputPress(c) => Out::InputPress(*c),
        }
    }
}

/// The values of a list of outgoing events.
pub open spec fn outs(v: Seq<OutgoingEvent>) -> Seq<Out> {
    v.map_values(|e: OutgoingEvent| e@)
}

/// The values of a list with one more event are those of the list and the
/// event's.
pub proof fn lemma_outs_push(s: Seq<OutgoingEvent>, e: OutgoingEvent)
    ensures
        outs(s.push(e)) == outs(s).push(e@),
{
    assert(outs(s.push(e)) =~= outs(s).push(e@));
}

/// Shows `s` in the chat.
pub fn chat_add(s: String) -> (r: OutgoingEvent)
    ensures
        r@ == Out::ChatAdd(s@),
{
    OutgoingEvent::ChatAdd(s)
}

/// Types `c` into the host's own input.
pub fn simulate_char(c: char) -> (r: OutgoingEvent)
    ensures
        r@ == Out::InputPress(c),
{
    OutgoingEvent::InputPress(c)
}

/// Whether the bridge hands a host callback to the library: always a tick,
/// anything else only while it is not feeding its own events to the host.
pub open spec fn admits(simulating: bool, ev: IncomingEvent) -> bool {
    !simulating || ev is Tick
}

/// The bridge between host callbacks and the library.
pub struct EventHandlerModule {
    simulating: bool,
    outgoing: Vec<OutgoingEvent>,
}

impl EventHandlerModule {
    /// Whether the bridge is feeding its own events to the host.
    pub closed spec fn simulating(&self) -> bool {
        self.simulating
    }

    /// The events waiting for the host, in order.
    pub closed spec fn queued(&self) -> Seq<Out> {
        outs(self.outgoing@)
    }

    /// A bridge with nothing queued, not simulating.
    pub fn new() -> (r: EventHandlerModule)
        ensures
            !r.simulating(),
            r.queued() == Seq::<Out>::empty(),
    {
        let r = EventHandlerModule { simulating: false, outgoing: Vec::new() };
        assert(r.queued() =~= Seq::<Out>::empty());
        r
    }

    /// Queues `e` for the host.
    pub fn new_outgoing_event(&mut self, e: OutgoingEvent)
        ensures
            final(self).simulating() == old(self).simulating(),
            final(self).queued() == old(self).queued().push(e@),
    {
        let ghost o = self.outgoing@;
        self.outgoing.push(e);
        proof {
            lemma_outs_push(o, e);
        }
    }

    /// Queues `es` for the host, in order.
    pub fn queue_all(&mut self, es: Vec<OutgoingEvent>)
        ensures
            final(self).simulating() == old(self).simulating(),
            final(self).queued() == old(self).queued() + outs(es@),
    {
        let mut es = es;
        let ghost o = self.outgoing@;
        let ghost e0 = es@;
        self.outgoing.append(&mut es);
        assert(outs(self.outgoing@) =~= outs(o) + outs(e0));
    }

    /// Whether the host callback `ev` goes on to the library's listeners.
    pub fn accepts(&self, ev: &IncomingEvent) -> (r: bool)
        ensures
            r == admits(self.simulating(), *ev),
    {
        !self.simulating || matches!(ev, IncomingEvent::Tick)
    }

    /// Starts feeding the queued events to the host: hands them over, in
    /// order, and marks the bridge as simulating until `finish_outgoing_events`.
    pub fn handle_outgoing_events(&mut self) -> (r: Vec<OutgoingEvent>)
        ensures
            final(self).simulating(),
            outs(r@) == old(self).queued(),
            final(self).queued() == Seq::<Out>::empty(),
    {
        self.simulating = true;
        let mut r: Vec<OutgoingEvent> = Vec::new();
        core::mem::swap(&mut r, &mut self.outgoing);
        assert(self.queued() =~= Seq::<Out>::empty());
        r
    }

    /// The host has taken the events: callbacks are the host's own again.
    pub fn finish_outgoing_events(&mut self)
        ensures
            !final(self).simulating(),
            final(self).queued() == old(self).queued(),
    {
        self.simulating = false;
    }
}

/// While the bridge feeds its own events to the host, none of the
/// keystrokes and chat lines that these make the host report comes back to
/// the library, however many there are.
pub proof fn lemma_no_feedback(b: &EventHandlerModule, evs: Seq<IncomingEvent>)
    requires
        b.simulating(),
        forall|i: int| 0 <= i < evs.len() ==> !(evs[i] is Tick),
    ensures
        forall|i: int| 0 <= i < evs.len() ==> !admits(b.simulating(), #[trigger] evs[i]),
{
}

/// Chat and status-line output.
pub struct Printer {
    status_decay: bool,
}

impl Printer {
    /// Whether the status line is to be cleared once its time is up.
    pub closed spec fn decaying(&self) -> bool {
        self.status_decay
    }

    /// A printer with no status to clear.
    pub fn new() -> (r: Printer)
        ensures
            !r.decaying(),
    {
        Printer { status_decay: false }
    }

    /// A chat line with `s`.
    pub fn print(s: String) -> (r: OutgoingEvent)
        ensures
            r@ == Out::ChatAdd(s@),
    {
        chat_add(s)
    }

    /// Shows `s` on the status line until it is replaced.
    pub fn status_forever(&mut self, s: String) -> (r: OutgoingEvent)
        ensures
            r@ == Out::ChatAddOf(s@, MsgKind::Status),
            !final(self).decaying(),
    {
        self.status_decay = false;
        OutgoingEvent::ChatAddOf(s, MsgKind::Status)
    }

    /// Shows `s` on the status line until its time is up.
    pub fn status(&mut self, s: String) -> (r: OutgoingEvent)
        ensures
            r@ == Out::ChatAddOf(s@, MsgKind::Status),
            final(self).decaying(),
    {
        self.status_decay = true;
        OutgoingEvent::ChatAddOf(s, MsgKind::Status)
    }

    /// A tick: where the status line's time is up (`expired`), it is cleared.
    pub fn handle_tick(&mut self, expired: bool) -> (r: Option<OutgoingEvent>)
        ensures
            old(self).decaying() && expired ==> !final(self).decaying() && (r matches Some(e) && e@
                == Out::ChatAddOf(Seq::empty(), MsgKind::Status)),
            !(old(self).decaying() && expired) ==> r is None && final(self).decaying() == old(self).decaying(),
    {
        if self.status_decay && expired {
            self.status_decay = false;
            Some(OutgoingEvent::ChatAddOf(String::new(), MsgKind::Status))
        } else {
            None
        }
    }
}

} // verus!
