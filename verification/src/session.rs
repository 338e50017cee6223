//! The state machine of one client connection.

use vstd::prelude::*;
use crate::pin::{lemma_pin_text_injective, pin_of, pin_text};
use crate::secret::{accepted, SharedSecret};
use crate::wire::{decode, decoded, Command, Inbound, InboundView, Reply};

verus! {

/// Where a connection stands.
#[derive(Clone, Copy, PartialEq, Eq, Structural, Debug)]
pub enum SessionState {
    /// The socket is open and no claim has been accepted yet.
    Connecting,
    /// A claim of the secret has been accepted.
    Authenticated,
    /// A claim was refused or the socket is gone. Nothing follows.
    Closed,
}

/// What the server does with one frame: the state that follows, the answer to
/// send on the client's handle, and the command to publish to the host.
pub struct Step {
    pub next: SessionState,
    pub reply: Reply,
    pub command: Option<Command>,
}

/// Whether `request` claims the secret rightly.
pub open spec fn is_matching_claim(secret: Seq<char>, request: InboundView) -> bool {
    match request {
        InboundView::Authenticate { token } => accepted(secret, token),
        _ => false,
    }
}

/// The step taken in `state` on `request` while the secret is `secret`.
///
/// A closed session takes no step. A frame that is passed over changes
/// nothing. A rightful claim authenticates and is acknowledged; any other
/// claim is refused and closes the session. The stop command is published
/// whether or not the session has authenticated.
pub open spec fn step_of(state: SessionState, secret: Seq<char>, request: InboundView) -> Step {
    if state == SessionState::Closed {
        Step { next: SessionState::Closed, reply: Reply::Nothing, command: None }
    } else {
        match request {
            InboundView::Ignored => Step { next: state, reply: Reply::Nothing, command: None },
            InboundView::StopTraining => Step {
                next: state,
                reply: Reply::Nothing,
                command: Some(Command::StopTraining),
            },
            InboundView::Authenticate { token } => if accepted(secret, token) {
                Step { next: SessionState::Authenticated, reply: Reply::Accepted, command: None }
            } else {
                Step { next: SessionState::Closed, reply: Reply::Rejected, command: None }
            },
        }
    }
}

/// The state reached from `state` after the frames `requests`, the `i`-th of
/// them arriving while the secret is `secrets[i]`.
pub open spec fn state_after(
    state: SessionState,
    secrets: Seq<Seq<char>>,
    requests: Seq<InboundView>,
) -> SessionState
    recommends
        secrets.len() == requests.len(),
    decreases requests.len(),
{
    if requests.len() == 0 {
        state
    } else {
        step_of(
            state_after(state, secrets.drop_last(), requests.drop_last()),
            secrets.last(),
            requests.last(),
        ).next
    }
}

/// One client connection.
pub struct Session {
    state: SessionState,
}

impl Session {
    /// The session of a socket that was just accepted.
    pub fn new() -> (session: Self)
        ensures
            session.state_spec() == SessionState::Connecting,
    {
        Session { state: SessionState::Connecting }
    }

    /// Where the session stands.
    pub closed spec fn state_spec(&self) -> SessionState {
        self.state
    }

    /// Where the session stands.
    pub fn state(&self) -> (state: SessionState)
        ensures
            state == self.state_spec(),
    {
        self.state
    }

    /// Whether the session still reads frames.
    pub fn is_open(&self) -> (open: bool)
        ensures
            open == (self.state_spec() != SessionState::Closed),
    {
        match self.state {
            SessionState::Closed => false,
            _ => true,
        }
    }

    /// Takes the step for a decoded frame.
    pub fn on_request(&mut self, secret: &SharedSecret, request: &Inbound) -> (step: Step)
        ensures
            step == step_of(old(self).state_spec(), secret@, request@),
            final(self).state_spec() == step.next,
    {
        let step = match self.state {
            SessionState::Closed => Step {
                next: SessionState::Closed,
                reply: Reply::Nothing,
                command: None,
            },
            _ => match request {
                Inbound::Ignored => Step { next: self.state, reply: Reply::Nothing, command: None },
                Inbound::StopTraining => Step {
                    next: self.state,
                    reply: Reply::Nothing,
                    command: Some(Command::StopTraining),
                },
                Inbound::Authenticate { token } => {
                    if secret.accepts(token.as_str()) {
                        Step {
                            next: SessionState::Authenticated,
                            reply: Reply::Accepted,
                            command: None,
                        }
                    } else {
                        Step { next: SessionState::Closed, reply: Reply::Rejected, command: None }
                    }
                },
            },
        };
        self.state = step.next;
        step
    }

    /// Takes the step for one inbound text frame.
    pub fn on_text(&mut self, secret: &SharedSecret, text: &str) -> (step: Step)
        ensures
            step == step_of(old(self).state_spec(), secret@, decoded(text@)),
            final(self).state_spec() == step.next,
    {
        let request = decode(text);
        self.on_request(secret, &request)
    }

    /// Records that the socket is gone.
    pub fn on_close(&mut self)
        ensures
            final(self).state_spec() == SessionState::Closed,
    {
        self.state = SessionState::Closed;
    }
}

/// A session that starts unauthenticated and never receives a rightful claim
/// is never authenticated, whatever else it receives.
pub proof fn lemma_no_claim_no_authentication(
    start: SessionState,
    secrets: Seq<Seq<char>>,
    requests: Seq<InboundView>,
)
    requires
        start != SessionState::Authenticated,
        secrets.len() == requests.len(),
        forall|i: int| 0 <= i < requests.len() ==> !is_matching_claim(secrets[i], requests[i]),
    ensures
        state_after(start, secrets, requests) != SessionState::Authenticated,
    decreases requests.len(),
{
    if requests.len() > 0 {
        lemma_no_claim_no_authentication(start, secrets.drop_last(), requests.drop_last());
        assert(!is_matching_claim(secrets[requests.len() - 1], requests[requests.len() - 1]));
    }
}

/// A closed session stays closed: no frame is answered, none publishes a
/// command, and the state does not change.
pub proof fn lemma_closed_is_final(secret: Seq<char>, request: InboundView)
    ensures
        step_of(SessionState::Closed, secret, request) == (Step {
            next: SessionState::Closed,
            reply: Reply::Nothing,
            command: None,
        }),
{
}

/// Once a session is closed, it is closed after any further frames.
pub proof fn lemma_closed_forever(secrets: Seq<Seq<char>>, requests: Seq<InboundView>)
    requires
        secrets.len() == requests.len(),
    ensures
        state_after(SessionState::Closed, secrets, requests) == SessionState::Closed,
    decreases requests.len(),
{
    if requests.len() > 0 {
        lemma_closed_forever(secrets.drop_last(), requests.drop_last());
    }
}

/// A session never returns to `Connecting` once it has left it.
pub proof fn lemma_no_way_back(state: SessionState, secret: Seq<char>, request: InboundView)
    requires
        state != SessionState::Connecting,
    ensures
        step_of(state, secret, request).next != SessionState::Connecting,
{
}

/// After the secret was regenerated at the clock reading `now_millis`, an
/// open session that claims a secret other than the new one is refused and
/// closed. This holds of the previous secret wherever the new one differs
/// from it.
pub proof fn lemma_regeneration_invalidates(
    state: SessionState,
    previous: Seq<char>,
    now_millis: nat,
)
    requires
        state != SessionState::Closed,
        previous != pin_text(pin_of(now_millis)),
    ensures
        step_of(
            state,
            pin_text(pin_of(now_millis)),
            InboundView::Authenticate { token: previous },
        ) == (Step { next: SessionState::Closed, reply: Reply::Rejected, command: None }),
{
}

/// A claim of the pairing code of one clock reading is refused once the
/// secret was regenerated at a reading that gives another code.
pub proof fn lemma_previous_pin_is_refused(state: SessionState, earlier: nat, later: nat)
    requires
        state != SessionState::Closed,
        pin_of(earlier) != pin_of(later),
    ensures
        step_of(
            state,
            pin_text(pin_of(later)),
            InboundView::Authenticate { token: pin_text(pin_of(earlier)) },
        ) == (Step { next: SessionState::Closed, reply: Reply::Rejected, command: None }),
{
    if pin_text(pin_of(earlier)) == pin_text(pin_of(later)) {
        lemma_pin_text_injective(pin_of(earlier), pin_of(later));
    }
}

} // verus!
