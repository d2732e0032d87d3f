use vstd::prelude::*;

verus! {

/// The countdown of a node that waits for an acknowledgement.
#[derive(Debug, Clone, Copy, PartialEq, Eq, Structural)]
pub struct Waiting {
    pub remaining_cycles: u32,
}

/// State of a node's link.
#[derive(Debug, Clone, Copy, PartialEq, Eq, Structural)]
pub enum State {
    Idle,
    Sending,
    Receiving,
    Waiting(Waiting),
    ReplyAck,
}

impl Default for State {
    fn default() -> (r: Self)
        ensures
            r == State::Idle,
    {
        State::Idle
    }
}

impl State {
    pub fn waiting_state(remaining_cycles: u32) -> (r: Self)
        ensures
            r == State::Waiting(Waiting { remaining_cycles }),
    {
        State::Waiting(Waiting { remaining_cycles })
    }

    /// The moves a link may make in one step. A countdown falls by exactly
    /// one, and ends only at zero; a flit may arrive while the node is idle or
    /// waiting.
    pub open spec fn valid_transition(from: State, to: State) -> bool {
        match from {
            State::Idle => to is Sending || to is Receiving,
            State::Sending => to is Waiting,
            State::Receiving => to is ReplyAck || to is Idle,
            State::Waiting(w) => match to {
                State::Waiting(n) => w.remaining_cycles > 0 && w.remaining_cycles
                    == n.remaining_cycles + 1,
                State::Idle | State::Sending => w.remaining_cycles == 0,
                State::Receiving => true,
                State::ReplyAck => false,
            },
            State::ReplyAck => to is Idle,
        }
    }

    /// Whether the link may move from `self` to `to`.
    pub fn can_move_to(&self, to: &State) -> (b: bool)
        ensures
            b == Self::valid_transition(*self, *to),
    {
        match self {
            State::Idle => matches!(to, State::Sending | State::Receiving),
            State::Sending => matches!(to, State::Waiting(_)),
            State::Receiving => matches!(to, State::ReplyAck | State::Idle),
            State::Waiting(w) => match to {
                State::Waiting(n) => w.remaining_cycles > 0 && w.remaining_cycles - 1
                    == n.remaining_cycles,
                State::Idle | State::Sending => w.remaining_cycles == 0,
                State::Receiving => true,
                State::ReplyAck => false,
            },
            State::ReplyAck => matches!(to, State::Idle),
        }
    }
}

/// A node never resends without waiting first, and never sends straight out of
/// a reception.
pub proof fn lemma_no_direct_send()
    ensures
        !State::valid_transition(State::Sending, State::Sending),
        !State::valid_transition(State::Receiving, State::Sending),
        forall|from: State| #[trigger]
            State::valid_transition(from, State::Sending) ==> from is Idle || (from
                == State::Waiting(Waiting { remaining_cycles: 0 })),
{
}

/// The link state of a node, with the count of resends of the pending flit.
#[derive(Debug, Clone, Copy, PartialEq, Eq, Structural)]
pub struct NodeState {
    pub state: State,
    pub resend_times: u8,
}

impl Default for NodeState {
    fn default() -> (r: Self)
        ensures
            r.state == State::Idle,
            r.resend_times == 0,
    {
        NodeState { state: State::Idle, resend_times: 0 }
    }
}

impl NodeState {
    pub fn new() -> (r: Self)
        ensures
            r.state == State::Idle,
            r.resend_times == 0,
    {
        NodeState { state: State::Idle, resend_times: 0 }
    }

    /// Moves to `new_state`. Only the moves of `valid_transition` exist.
    pub fn next(&mut self, new_state: &State)
        requires
            State::valid_transition(old(self).state, *new_state),
        ensures
            final(self).state == *new_state,
            final(self).resend_times == old(self).resend_times,
    {
        self.state = *new_state;
    }

    pub fn get(&self) -> (r: &State)
        ensures
            *r == self.state,
    {
        &self.state
    }

    pub fn set_resend_times(&mut self, times: u8)
        ensures
            final(self).resend_times == times,
            final(self).state == old(self).state,
    {
        self.resend_times = times;
    }

    pub fn get_resend_times(&self) -> (r: u8)
        ensures
            r == self.resend_times,
    {
        self.resend_times
    }
}

} // verus!
