//! The daemon's side of the socket: what each message received from the
//! command line asks of the front end, and the inbox that holds the
//! notifications received before the front end listens, so that the first
//! notification of a cold start is not lost.

use vstd::prelude::*;

use crate::cli::{IpcMessage, Payload};

verus! {

/// What the front end must do for a message received on the socket.
pub enum FrontAction {
    /// Show the window and display the notification now.
    Display { payload: Payload },
    /// Show the window; the notification waits in the inbox until the front
    /// end is ready.
    ShowOnly,
    /// Remove every card.
    DismissAll,
}

/// The notifications received before the front end set up its listeners.
///
/// Every notification received is delivered to the front end exactly once
/// and in the order of arrival: at once when the front end is ready, or else
/// when it reports that it is.
pub struct Inbox {
    front_ready: bool,
    pending: Vec<Payload>,
    /// Every notification received so far, in order.
    received: Ghost<Seq<Payload>>,
    /// Every notification delivered to the front end so far, in order.
    delivered: Ghost<Seq<Payload>>,
}

impl Inbox {
    /// Every notification received is delivered or waiting, in order of
    /// arrival; when the front end is ready, none waits.
    pub closed spec fn well_formed(&self) -> bool {
        &&& self.delivered@ + self.pending@ == self.received@
        &&& self.front_ready ==> self.pending@.len() == 0
    }

    /// Has the front end reported that it listens?
    pub closed spec fn is_front_ready(&self) -> bool {
        self.front_ready
    }

    /// The notifications waiting for the front end, oldest first.
    pub closed spec fn waiting(&self) -> Seq<Payload> {
        self.pending@
    }

    /// Every notification received so far, oldest first.
    pub closed spec fn received(&self) -> Seq<Payload> {
        self.received@
    }

    /// Every notification delivered to the front end so far, oldest first.
    pub closed spec fn delivered(&self) -> Seq<Payload> {
        self.delivered@
    }

    /// The whole state of the inbox, as the run-wide rules speak of it.
    pub open spec fn model(&self) -> InboxModel {
        InboxModel {
            ready: self.is_front_ready(),
            waiting: self.waiting(),
            received: self.received(),
            delivered: self.delivered(),
        }
    }

    /// An inbox before anything was received, with the front end not ready.
    pub fn new() -> (i: Inbox)
        ensures
            !i.is_front_ready(),
            i.waiting().len() == 0,
            i.received().len() == 0,
            i.delivered().len() == 0,
            i.delivered() + i.waiting() == i.received(),
            i.well_formed(),
            i.model() == initial_model(),
    {
        let i = Inbox {
            front_ready: false,
            pending: Vec::new(),
            received: Ghost(Seq::empty()),
            delivered: Ghost(Seq::empty()),
        };
        assert(i.delivered@ + i.pending@ =~= i.received@);
        assert(i.pending@ =~= Seq::<Payload>::empty());
        i
    }

    /// Handle a message received on the socket.
    pub fn handle(&mut self, msg: IpcMessage) -> (action: FrontAction)
        requires
            old(self).well_formed(),
        ensures
            final(self).well_formed(),
            final(self).delivered() + final(self).waiting() == final(self).received(),
            final(self).is_front_ready() ==> final(self).waiting().len() == 0,
            final(self).model() == inbox_step(old(self).model(), event_of(msg)),
            match msg {
                IpcMessage::Push { payload } => {
                    &&& final(self).received() == old(self).received().push(payload)
                    &&& final(self).is_front_ready() == old(self).is_front_ready()
                    &&& old(self).is_front_ready() ==> {
                        &&& action == FrontAction::Display { payload }
                        &&& final(self).delivered() == old(self).delivered().push(payload)
                        &&& final(self).waiting() == old(self).waiting()
                    }
                    &&& !old(self).is_front_ready() ==> {
                        &&& action == FrontAction::ShowOnly
                        &&& final(self).delivered() == old(self).delivered()
                        &&& final(self).waiting() == old(self).waiting().push(payload)
                    }
                },
                IpcMessage::DismissAll => {
                    &&& action == FrontAction::DismissAll
                    &&& final(self).received() == old(self).received()
                    &&& final(self).delivered() == old(self).delivered()
                    &&& final(self).waiting() == old(self).waiting()
                    &&& final(self).is_front_ready() == old(self).is_front_ready()
                },
            },
    {
        let result = match msg {
            IpcMessage::Push { payload } => {
                if self.front_ready {
                    let ghost received = self.received@.push(payload);
                    let ghost delivered = self.delivered@.push(payload);
                    let mut pending: Vec<Payload> = Vec::new();
                    std::mem::swap(&mut pending, &mut self.pending);
                    proof {
                        assert(delivered + pending@ =~= received);
                    }
                    *self = Inbox {
                        front_ready: true,
                        pending,
                        received: Ghost(received),
                        delivered: Ghost(delivered),
                    };
                    FrontAction::Display { payload }
                } else {
                    let ghost received = self.received@.push(payload);
                    let ghost delivered = self.delivered@;
                    let mut pending: Vec<Payload> = Vec::new();
                    std::mem::swap(&mut pending, &mut self.pending);
                    pending.push(payload);
                    proof {
                        assert(delivered + pending@ =~= received);
                    }
                    *self = Inbox {
                        front_ready: false,
                        pending,
                        received: Ghost(received),
                        delivered: Ghost(delivered),
                    };
                    FrontAction::ShowOnly
                }
            },
            IpcMessage::DismissAll => FrontAction::DismissAll,
        };
        result
    }

    /// The front end listens from now on: every notification waiting is
    /// handed out, oldest first, and none will wait any more.
    pub fn mark_front_ready(&mut self) -> (queued: Vec<Payload>)
        requires
            old(self).well_formed(),
        ensures
            final(self).well_formed(),
            final(self).delivered() + final(self).waiting() == final(self).received(),
            final(self).is_front_ready(),
            queued@ == old(self).waiting(),
            final(self).waiting().len() == 0,
            final(self).received() == old(self).received(),
            final(self).delivered() == old(self).delivered() + old(self).waiting(),
            final(self).model() == inbox_step(old(self).model(), InboxEvent::FrontReady),
    {
        let ghost received = self.received@;
        let ghost delivered = self.delivered@ + self.pending@;
        let mut queued: Vec<Payload> = Vec::new();
        std::mem::swap(&mut queued, &mut self.pending);
        proof {
            assert(delivered + Seq::<Payload>::empty() =~= received);
        }
        let pending: Vec<Payload> = Vec::new();
        assert(pending@ =~= Seq::<Payload>::empty());
        *self = Inbox {
            front_ready: true,
            pending,
            received: Ghost(received),
            delivered: Ghost(delivered),
        };
        queued
    }
}

/// What happens to the inbox, as the run-wide rules see it.
pub ghost enum InboxEvent {
    /// A notification arrives on the socket.
    Push(Payload),
    /// `dismiss --all` arrives on the socket.
    Dismiss,
    /// The front end reports that it listens.
    FrontReady,
}

/// The state of an inbox: whether the front end listens, what waits, what
/// was received and what was delivered, oldest first.
pub ghost struct InboxModel {
    pub ready: bool,
    pub waiting: Seq<Payload>,
    pub received: Seq<Payload>,
    pub delivered: Seq<Payload>,
}

/// The inbox of a daemon that has just started.
pub open spec fn initial_model() -> InboxModel {
    InboxModel { ready: false, waiting: Seq::empty(), received: Seq::empty(), delivered: Seq::empty() }
}

/// The event that a socket message is.
pub open spec fn event_of(msg: IpcMessage) -> InboxEvent {
    match msg {
        IpcMessage::Push { payload } => InboxEvent::Push(payload),
        IpcMessage::DismissAll => InboxEvent::Dismiss,
    }
}

/// One event: a notification is delivered at once when the front end
/// listens, and waits otherwise; when the front end reports that it listens,
/// all that waits is delivered.
pub open spec fn inbox_step(m: InboxModel, e: InboxEvent) -> InboxModel {
    match e {
        InboxEvent::Push(p) => if m.ready {
            InboxModel { received: m.received.push(p), delivered: m.delivered.push(p), ..m }
        } else {
            InboxModel { received: m.received.push(p), waiting: m.waiting.push(p), ..m }
        },
        InboxEvent::Dismiss => m,
        InboxEvent::FrontReady => InboxModel {
            ready: true,
            waiting: Seq::empty(),
            received: m.received,
            delivered: m.delivered + m.waiting,
        },
    }
}

/// The inbox after the events, in order, from a fresh start.
pub open spec fn inbox_run(events: Seq<InboxEvent>) -> InboxModel
    decreases events.len(),
{
    if events.len() == 0 {
        initial_model()
    } else {
        inbox_step(inbox_run(events.drop_last()), events.last())
    }
}

/// The notifications pushed among the events, in order.
pub open spec fn pushed(events: Seq<InboxEvent>) -> Seq<Payload>
    decreases events.len(),
{
    if events.len() == 0 {
        Seq::empty()
    } else {
        match events.last() {
            InboxEvent::Push(p) => pushed(events.drop_last()).push(p),
            _ => pushed(events.drop_last()),
        }
    }
}

/// Over a whole run, whatever the order in which notifications arrive and
/// the front end gets ready: every notification pushed is either delivered
/// or waiting, in the order of arrival, never both and never twice; and once
/// the front end listens, every notification pushed has been delivered
/// exactly once, in order.
pub proof fn law_every_push_delivered_once(events: Seq<InboxEvent>)
    ensures
        inbox_run(events).received == pushed(events),
        inbox_run(events).delivered + inbox_run(events).waiting == pushed(events),
        inbox_run(events).ready ==> inbox_run(events).waiting.len() == 0,
        inbox_run(events).ready ==> inbox_run(events).delivered == pushed(events),
    decreases events.len(),
{
    if events.len() == 0 {
        assert(Seq::<Payload>::empty() + Seq::<Payload>::empty() =~= Seq::<Payload>::empty());
    } else {
        let before = events.drop_last();
        law_every_push_delivered_once(before);
        let m = inbox_run(before);
        match events.last() {
            InboxEvent::Push(p) => {
                if m.ready {
                    assert(m.delivered.push(p) + m.waiting =~= (m.delivered + m.waiting).push(p));
                } else {
                    assert(m.delivered + m.waiting.push(p) =~= (m.delivered + m.waiting).push(p));
                }
            },
            InboxEvent::Dismiss => {},
            InboxEvent::FrontReady => {
                assert(m.delivered + m.waiting + Seq::<Payload>::empty() =~= m.delivered + m.waiting);
            },
        }
        let r = inbox_run(events);
        if r.ready {
            assert(r.delivered =~= r.delivered + r.waiting);
        }
    }
}

impl Default for Inbox {
    fn default() -> (i: Inbox)
        ensures
            !i.is_front_ready(),
            i.waiting().len() == 0,
            i.received().len() == 0,
            i.well_formed(),
    {
        Inbox::new()
    }
}

// ---------------------------------------------------------------------------
// Opening the socket
// ---------------------------------------------------------------------------

/// How binding the socket's path went.
#[derive(Debug, Clone, Copy, PartialEq, Eq, Structural)]
pub enum BindAttempt {
    /// The socket listens.
    Bound,
    /// The path is taken (a socket file is already there).
    AddressInUse,
    /// Any other error.
    OtherError,
}

/// What to do next while opening the socket.
#[derive(Debug)]
pub enum SocketStep {
    /// Listen on the socket just bound.
    Listen,
    /// Try to connect to the path: is another daemon there?
    CheckPeer,
    /// Give up with the error of the last bind.
    Fail,
    /// Give up: another daemon answers on the path.
    Refuse { message: String },
    /// The file was left by a dead daemon: remove it and bind once more; the
    /// result of that bind is the result of the whole.
    RemoveStaleAndRebind,
}

pub ghost enum SocketStepView {
    Listen,
    CheckPeer,
    Fail,
    Refuse { message: Seq<char> },
    RemoveStaleAndRebind,
}

impl View for SocketStep {
    type V = SocketStepView;

    open spec fn view(&self) -> SocketStepView {
        match self {
            SocketStep::Listen => SocketStepView::Listen,
            SocketStep::CheckPeer => SocketStepView::CheckPeer,
            SocketStep::Fail => SocketStepView::Fail,
            SocketStep::Refuse { message } => SocketStepView::Refuse { message: message@ },
            SocketStep::RemoveStaleAndRebind => SocketStepView::RemoveStaleAndRebind,
        }
    }
}

/// After the first bind: listen when it worked; when the path is taken,
/// find out whether a daemon still answers there; any other error ends it.
pub fn after_bind(attempt: BindAttempt) -> (s: SocketStep)
    ensures
        s@ == (match attempt {
            BindAttempt::Bound => SocketStepView::Listen,
            BindAttempt::AddressInUse => SocketStepView::CheckPeer,
            BindAttempt::OtherError => SocketStepView::Fail,
        }),
{
    match attempt {
        BindAttempt::Bound => SocketStep::Listen,
        BindAttempt::AddressInUse => SocketStep::CheckPeer,
        BindAttempt::OtherError => SocketStep::Fail,
    }
}

/// After trying to connect to a taken path: a daemon that answers keeps it
/// (this one gives up); a file nobody answers on is stale and is reclaimed.
pub fn after_peer_check(peer_answers: bool) -> (s: SocketStep)
    ensures
        peer_answers ==> s@ == (SocketStepView::Refuse { message: "un autre daemon écoute déjà"@ }),
        !peer_answers ==> s@ == SocketStepView::RemoveStaleAndRebind,
{
    if peer_answers {
        SocketStep::Refuse { message: "un autre daemon écoute déjà".to_owned() }
    } else {
        SocketStep::RemoveStaleAndRebind
    }
}

} // verus!
