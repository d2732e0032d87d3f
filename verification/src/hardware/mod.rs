pub mod blocking;
pub mod constants;
pub mod state;
pub mod switching;

use vstd::prelude::*;
use vstd::string::*;
use crate::error::SimError;
use crate::hardware::blocking::{Blocking, BlockingView, BLOCK_FLIT};
use crate::hardware::constants::{MAX_RESEND_TIMES, WAIT_ACK_CYCLES};
use crate::hardware::state::{NodeState, State, Waiting};
use crate::hardware::switching::Switching;
use crate::random::random_in_range;
use crate::network::flit::{AckFlit, AckFlitView, Flit, FlitView};

verus! {

/// 2 to the power `n`.
pub open spec fn two_pow(n: nat) -> nat
    decreases n,
{
    if n == 0 {
        1
    } else {
        2 * two_pow((n - 1) as nat)
    }
}

/// The least extra wait before the `resend_times`-th resend.
pub open spec fn backoff_low(resend_times: u8) -> nat {
    two_pow((resend_times - 1) as nat)
}

/// The bound that the extra wait before the `resend_times`-th resend stays
/// under.
pub open spec fn backoff_high(resend_times: u8) -> nat {
    two_pow((resend_times + 1) as nat)
}

/// Whether `backoff` is an extra wait that may be drawn after `resend_times`
/// resends: none before the first resend, then a number in a window that
/// doubles with each resend.
pub open spec fn backoff_allowed(resend_times: u8, backoff: u32) -> bool {
    if resend_times == 0 {
        backoff == 0
    } else {
        backoff_low(resend_times) <= backoff < backoff_high(resend_times)
    }
}

/// The cycles to wait for an acknowledgement after `resend_times` resends.
pub open spec fn wait_cycles(resend_times: u8, backoff: u32) -> int {
    if resend_times == 0 {
        WAIT_ACK_CYCLES as int
    } else {
        WAIT_ACK_CYCLES + backoff
    }
}

proof fn lemma_two_pow_small(n: nat)
    requires
        n <= 30,
    ensures
        0 < two_pow(n) <= 0x4000_0000,
        two_pow(n + 1) == 2 * two_pow(n),
    decreases 30 - n,
{
    if n == 30 {
        reveal_with_fuel(two_pow, 31);
        assert(two_pow(30) == 0x4000_0000);
    } else {
        lemma_two_pow_small(n + 1);
    }
}

fn pow2(n: u8) -> (r: u32)
    requires
        n <= 30,
    ensures
        r == two_pow(n as nat),
        0 < r <= 0x4000_0000,
{
    let mut r: u32 = 1;
    let mut i: u8 = 0;
    while i < n
        invariant
            i <= n <= 30,
            r == two_pow(i as nat),
        decreases n - i,
    {
        proof {
            lemma_two_pow_small(i as nat);
        }
        r = r * 2;
        i = i + 1;
    }
    proof {
        lemma_two_pow_small(n as nat);
    }
    r
}

/// The link of a node: its state, the flit that awaits its acknowledgement,
/// and the acknowledgement that awaits its sending.
#[derive(Debug)]
pub struct Hardware {
    pub id: String,
    pub state: NodeState,
    pub retransmission_buffer: Flit,
    pub ack_buffer: Flit,
    pub received_msg_is_broadcast: bool,
    pub received_msg_is_ack: bool,
    pub blocking: Blocking,
}

pub struct HardwareView {
    pub id: Seq<char>,
    pub state: NodeState,
    pub retransmission_buffer: FlitView,
    pub ack_buffer: FlitView,
    pub received_msg_is_broadcast: bool,
    pub received_msg_is_ack: bool,
    pub blocking: BlockingView,
}

impl View for Hardware {
    type V = HardwareView;

    open spec fn view(&self) -> HardwareView {
        HardwareView {
            id: self.id@,
            state: self.state,
            retransmission_buffer: self.retransmission_buffer@,
            ack_buffer: self.ack_buffer@,
            received_msg_is_broadcast: self.received_msg_is_broadcast,
            received_msg_is_ack: self.received_msg_is_ack,
            blocking: self.blocking@,
        }
    }
}

/// The acknowledgement of a flit: it travels against the flit's hop and
/// names the flit's packet, position and channel.
pub open spec fn ack_for(f: FlitView) -> FlitView
    recommends
        !(f is Empty),
{
    FlitView::Ack(
        AckFlitView {
            source_id: f.next_id().unwrap(),
            dest_id: f.prev_id().unwrap(),
            packet_id: f.packet_id().unwrap(),
            flit_num: f.flit_num().unwrap(),
            channel_id: f.channel_id().unwrap(),
        },
    )
}

/// Whether an acknowledgement answers the pending flit: it travels against
/// the flit's hop and names its packet and position.
pub open spec fn ack_matches(ack: AckFlitView, pending: FlitView) -> bool {
    &&& !(pending is Empty)
    &&& Some(ack.dest_id) == pending.prev_id()
    &&& Some(ack.source_id) == pending.next_id()
    &&& Some(ack.packet_id) == pending.packet_id()
    &&& Some(ack.flit_num) == pending.flit_num()
}

impl HardwareView {
    /// Whether a flit with payload awaits its acknowledgement.
    pub open spec fn pending(self) -> bool {
        self.retransmission_buffer is Header || self.retransmission_buffer is Data
            || self.retransmission_buffer is Tail
    }

    /// Whether the flit is for this node on this hop.
    pub open spec fn addressed(self, f: FlitView) -> bool {
        f.next_id() matches Some(n) ==> n == self.id || n == "broadcast"@
    }

    /// Whether the flit is an acknowledgement that the link takes and that
    /// answers the pending flit.
    pub open spec fn ack_clears(self, f: FlitView) -> bool {
        &&& f matches FlitView::Ack(a) && ack_matches(a, self.retransmission_buffer)
        &&& self.addressed(f)
        &&& self.blocking.check(f).0
    }

    /// Whether the next step draws an extra wait: the node sends, and has
    /// resent before.
    pub open spec fn draws_backoff(self) -> bool {
        self.state.state is Sending && 0 < self.state.resend_times < MAX_RESEND_TIMES
    }

    /// The link after the node has put an acknowledgement for `f` aside, which it
    /// does where the flit names it as the next hop.
    pub open spec fn after_ack_gen(self, f: FlitView) -> HardwareView {
        if f.next_id() == Some(self.id) {
            HardwareView { ack_buffer: ack_for(f), ..self }
        } else {
            self
        }
    }

    /// The link after a flit has arrived, and what the node hands on: the
    /// flit, nothing where the flit is for another node or is blocked, or
    /// the reason why the flit is refused.
    pub open spec fn receive(self, f: FlitView) -> (HardwareView, Result<Option<FlitView>, SimError>) {
        if !self.addressed(f) {
            (self, Ok(None))
        } else {
            let h1 = if f.next_id() is Some {
                HardwareView {
                    received_msg_is_broadcast: f.next_id() == Some("broadcast"@),
                    ..self
                }
            } else {
                self
            };
            let (taken, blocking) = self.blocking.check(f);
            if !taken {
                (h1, Ok(None))
            } else {
                let h2 = HardwareView { blocking, ..h1 };
                match f {
                    FlitView::Ack(a) => if ack_matches(a, self.retransmission_buffer) {
                        (
                            HardwareView {
                                retransmission_buffer: FlitView::Empty,
                                state: NodeState { state: State::Idle, resend_times: 0 },
                                received_msg_is_ack: true,
                                ..h2
                            },
                            Ok(Some(f)),
                        )
                    } else {
                        (h2, Err(SimError::AckMismatch))
                    },
                    FlitView::Empty => (h2, Err(SimError::EmptyFlit)),
                    _ => (
                        HardwareView { received_msg_is_ack: false, ..h2.after_ack_gen(f) },
                        Ok(Some(f)),
                    ),
                }
            }
        }
    }

    /// The link one cycle later. An idle node with a pending flit sends; a
    /// sender waits, longer after each resend, and gives the flit up after
    /// the last; a waiting node counts down, then sends again or rests; a
    /// receiver answers unless what came was an acknowledgement.
    pub open spec fn step(self, backoff: u32) -> HardwareView {
        let r = self.state.resend_times;
        match self.state.state {
            State::Idle => if self.pending() {
                HardwareView { state: NodeState { state: State::Sending, resend_times: r }, ..self }
            } else {
                self
            },
            State::Receiving => if self.received_msg_is_ack {
                HardwareView { state: NodeState { state: State::Idle, resend_times: 0 }, ..self }
            } else {
                HardwareView { state: NodeState { state: State::ReplyAck, resend_times: r }, ..self }
            },
            State::ReplyAck => HardwareView {
                state: NodeState { state: State::Idle, resend_times: r },
                ..self
            },
            State::Sending => if r < MAX_RESEND_TIMES {
                HardwareView {
                    state: NodeState {
                        state: State::Waiting(
                            Waiting { remaining_cycles: wait_cycles(r, backoff) as u32 },
                        ),
                        resend_times: (r + 1) as u8,
                    },
                    ..self
                }
            } else {
                HardwareView {
                    state: NodeState {
                        state: State::Waiting(Waiting { remaining_cycles: 0 }),
                        resend_times: 0,
                    },
                    retransmission_buffer: FlitView::Empty,
                    ..self
                }
            },
            State::Waiting(w) => if w.remaining_cycles == 0 {
                if self.pending() {
                    HardwareView {
                        state: NodeState { state: State::Sending, resend_times: r },
                        ..self
                    }
                } else {
                    HardwareView { state: NodeState { state: State::Idle, resend_times: r }, ..self }
                }
            } else {
                HardwareView {
                    state: NodeState {
                        state: State::Waiting(
                            Waiting { remaining_cycles: (w.remaining_cycles - 1) as u32 },
                        ),
                        resend_times: r,
                    },
                    ..self
                }
            },
        }
    }
}

/// Each step of the link is a move that the state machine allows, or leaves
/// the state as it is.
pub proof fn lemma_step_is_valid(h: HardwareView, backoff: u32)
    ensures
        h.step(backoff).state.state == h.state.state || State::valid_transition(
            h.state.state,
            h.step(backoff).state.state,
        ),
        h.step(backoff).state.state is Sending ==> h.state.state is Idle || h.state.state
            == State::Waiting(Waiting { remaining_cycles: 0 }),
{
}

/// The count of resends rises by one with each wait and falls to zero when
/// the flit is given up.
pub proof fn lemma_resend_count(h: HardwareView, backoff: u32)
    requires
        h.state.state is Sending,
    ensures
        h.state.resend_times < MAX_RESEND_TIMES ==> h.step(backoff).state.resend_times
            == h.state.resend_times + 1,
        h.state.resend_times >= MAX_RESEND_TIMES ==> h.step(backoff).state.resend_times == 0
            && !h.step(backoff).pending(),
{
}

impl Hardware {
    pub fn new(id: String, switching: Switching) -> (r: Self)
        ensures
            r@.id == id@,
            r@.state == (NodeState { state: State::Idle, resend_times: 0 }),
            r@.retransmission_buffer is Empty,
            r@.ack_buffer is Empty,
            !r@.received_msg_is_broadcast,
            !r@.received_msg_is_ack,
            r@.blocking.switching == switching,
            r@.blocking == r@.blocking.idle(),
    {
        Self {
            id,
            state: NodeState::new(),
            retransmission_buffer: Flit::Empty,
            ack_buffer: Flit::Empty,
            received_msg_is_broadcast: false,
            received_msg_is_ack: false,
            blocking: Blocking::new(switching),
        }
    }

    /// Takes a flit for sending: it is kept until its acknowledgement comes.
    pub fn send_flit(&mut self, flit: &Flit) -> (r: Result<Flit, SimError>)
        ensures
            r matches Ok(f) && f@ == flit@,
            final(self)@ == (HardwareView { retransmission_buffer: flit@, ..old(self)@ }),
    {
        self.retransmission_buffer = flit.clone();
        Ok(flit.clone())
    }

    /// Hands out the acknowledgement that awaits its sending, or an empty
    /// flit where none does.
    pub fn send_ack(&mut self) -> (r: Result<Flit, SimError>)
        ensures
            r is Ok,
            old(self)@.ack_buffer is Ack ==> r.unwrap()@ == old(self)@.ack_buffer && final(self)@
                == (HardwareView { ack_buffer: FlitView::Empty, ..old(self)@ }),
            !(old(self)@.ack_buffer is Ack) ==> r.unwrap()@ is Empty && final(self)@ == old(
                self,
            )@,
    {
        let ack = self.ack_buffer.clone();
        if ack.is_ack() {
            self.ack_buffer.clear();
            return Ok(ack);
        }
        Ok(Flit::Empty)
    }

    /// Takes a flit that has arrived. An acknowledgement that is taken and
    /// answers the pending flit clears it and brings the link to rest, so
    /// for such a flit the link must be in a state that it can rest from.
    pub fn receive_flit(&mut self, flit: &Flit) -> (r: Result<Option<Flit>, SimError>)
        requires
            old(self)@.ack_clears(flit@) ==> State::valid_transition(
                old(self)@.state.state,
                State::Idle,
            ),
        ensures
            final(self)@ == old(self)@.receive(flit@).0,
            match r {
                Ok(Some(f)) => old(self)@.receive(flit@).1 == Ok::<Option<FlitView>, SimError>(
                    Some(f@),
                ),
                Ok(None) => old(self)@.receive(flit@).1 == Ok::<Option<FlitView>, SimError>(None),
                Err(e) => old(self)@.receive(flit@).1 == Err::<Option<FlitView>, SimError>(e),
            },
    {
        if let Some(next_id) = flit.get_next_id() {
            let broadcast = String::from_str("broadcast");
            if next_id != self.id && next_id != broadcast {
                return Ok(None);
            }
            self.received_msg_is_broadcast = next_id == broadcast;
        }
        proof {
            crate::hardware::blocking::lemma_blocked_flit_changes_nothing(
                old(self)@.blocking,
                flit@,
            );
        }
        if self.blocking.check_received_flit(flit) == BLOCK_FLIT {
            return Ok(None);
        }
        match flit {
            Flit::Ack(_) => {
                let _ack = self.receive_ack(flit)?;
                self.received_msg_is_ack = true;
                Ok(Some(flit.clone()))
            },
            Flit::Empty => Err(SimError::EmptyFlit),
            _ => {
                let _ack = self.ack_gen(flit)?;
                self.received_msg_is_ack = false;
                Ok(Some(flit.clone()))
            },
        }
    }

    /// Draws the extra wait of a sender that has resent before; for any other
    /// link the extra wait is none.
    pub fn draw_backoff(&self) -> (backoff: u32)
        ensures
            backoff <= 0x8000_0000,
            self@.draws_backoff() ==> backoff_allowed(self@.state.resend_times, backoff),
            !self@.draws_backoff() ==> backoff == 0,
    {
        let resend_times = self.state.get_resend_times();
        let sending = matches!(self.state.get(), State::Sending);
        if sending && 0 < resend_times && resend_times < MAX_RESEND_TIMES {
            proof {
                lemma_two_pow_small((resend_times - 1) as nat);
                lemma_two_pow_small(resend_times as nat);
                lemma_two_pow_small((resend_times + 1) as nat);
            }
            random_in_range(pow2(resend_times - 1), pow2(resend_times + 1))
        } else {
            0
        }
    }

    /// Moves the link on by one cycle. A sender that has resent before draws
    /// its extra wait.
    pub fn update_state(&mut self) -> (r: Result<(), SimError>)
        ensures
            r is Ok,
            exists|backoff: u32|
                (old(self)@.draws_backoff() ==> backoff_allowed(
                    old(self)@.state.resend_times,
                    backoff,
                )) && final(self)@ == old(self)@.step(backoff),
    {
        let backoff = self.draw_backoff();
        self.update_state_with(backoff);
        Ok(())
    }

    /// Moves the link on by one cycle, with `backoff` for the extra wait of
    /// a sender that has resent before.
    pub fn update_state_with(&mut self, backoff: u32)
        requires
            backoff <= 0x8000_0000,
        ensures
            final(self)@ == old(self)@.step(backoff),
    {
        match self.state.get() {
            State::Idle => {
                if self.has_pending() {
                    self.state.next(&State::Sending);
                }
            },
            State::Receiving => {
                if self.received_msg_is_ack {
                    self.state.set_resend_times(0);
                    self.state.next(&State::Idle);
                } else {
                    self.state.next(&State::ReplyAck);
                }
            },
            State::ReplyAck => {
                self.state.next(&State::Idle);
            },
            State::Sending => {
                let resend_times = self.state.get_resend_times();
                if resend_times < MAX_RESEND_TIMES {
                    let wait = if resend_times == 0 {
                        WAIT_ACK_CYCLES
                    } else {
                        WAIT_ACK_CYCLES + backoff
                    };
                    self.state.next(&State::waiting_state(wait));
                    self.state.set_resend_times(resend_times + 1);
                } else {
                    self.state.set_resend_times(0);
                    self.state.next(&State::waiting_state(0));
                    self.retransmission_buffer.clear();
                }
            },
            State::Waiting(w) => {
                let remaining_cycles = w.remaining_cycles;
                if remaining_cycles == 0 {
                    if self.has_pending() {
                        self.state.next(&State::Sending);
                    } else {
                        self.state.next(&State::Idle);
                    }
                } else {
                    self.state.next(&State::waiting_state(remaining_cycles - 1));
                }
            },
        }
    }

    /// Puts the link into `state`, by a move that the state machine allows.
    pub fn set_state(&mut self, state: &State)
        requires
            State::valid_transition(old(self)@.state.state, *state),
        ensures
            final(self)@ == (HardwareView {
                state: NodeState { state: *state, resend_times: old(self)@.state.resend_times },
                ..old(self)@
            }),
    {
        self.state.next(state);
    }

    fn has_pending(&self) -> (b: bool)
        ensures
            b == self@.pending(),
    {
        matches!(self.retransmission_buffer, Flit::Data(_) | Flit::Header(_) | Flit::Tail(_))
    }

    /// Puts aside the acknowledgement of a flit that names this node as its
    /// next hop, and returns it; returns an empty flit for any other flit
    /// with payload. An acknowledgement or an empty flit gets none.
    pub fn ack_gen(&mut self, flit: &Flit) -> (r: Result<Flit, SimError>)
        ensures
            match r {
                Ok(a) => !(flit@ is Ack) && !(flit@ is Empty) && final(self)@ == old(
                    self,
                )@.after_ack_gen(flit@) && a@ == (if flit@.next_id() == Some(old(self)@.id) {
                    ack_for(flit@)
                } else {
                    FlitView::Empty
                }),
                Err(e) => final(self)@ == old(self)@ && ((flit@ is Ack && e
                    == SimError::UnexpectedAck) || (flit@ is Empty && e == SimError::EmptyFlit)),
            },
    {
        if flit.is_ack() {
            return Err(SimError::UnexpectedAck);
        }
        if flit.is_empty() {
            return Err(SimError::EmptyFlit);
        }
        let prev_id = flit.get_prev_id().unwrap();
        let next_id = flit.get_next_id().unwrap();
        let packet_id = flit.get_packet_id().unwrap();
        let flit_num = flit.get_flit_num().unwrap();
        let channel_id = flit.get_channel_id().unwrap();
        if next_id == self.id {
            self.ack_buffer = Flit::Ack(
                AckFlit { source_id: next_id, dest_id: prev_id, packet_id, flit_num, channel_id },
            );
            return Ok(self.ack_buffer.clone());
        }
        Ok(Flit::Empty)
    }

    /// Takes an acknowledgement. One that answers the pending flit clears
    /// it, ends the count of resends and brings the link to rest; any other
    /// is refused and changes nothing.
    pub fn receive_ack(&mut self, flit: &Flit) -> (r: Result<Flit, SimError>)
        requires
            flit@ is Ack,
            ack_matches(flit@->Ack_0, old(self)@.retransmission_buffer) ==> State::valid_transition(
                old(self)@.state.state,
                State::Idle,
            ),
        ensures
            match r {
                Ok(a) => a@ == flit@ && ack_matches(
                    flit@->Ack_0,
                    old(self)@.retransmission_buffer,
                ) && final(self)@ == (HardwareView {
                    retransmission_buffer: FlitView::Empty,
                    state: NodeState { state: State::Idle, resend_times: 0 },
                    ..old(self)@
                }),
                Err(e) => e == SimError::AckMismatch && !ack_matches(
                    flit@->Ack_0,
                    old(self)@.retransmission_buffer,
                ) && final(self)@ == old(self)@,
            },
    {
        match flit {
            Flit::Ack(ack_flit) => {
                if self.retransmission_buffer.is_empty() {
                    return Err(SimError::AckMismatch);
                }
                let prev_id = self.retransmission_buffer.get_prev_id().unwrap();
                let next_id = self.retransmission_buffer.get_next_id().unwrap();
                let packet_id = self.retransmission_buffer.get_packet_id().unwrap();
                let flit_num = self.retransmission_buffer.get_flit_num().unwrap();
                if ack_flit.dest_id == prev_id && ack_flit.source_id == next_id
                    && ack_flit.packet_id == packet_id && ack_flit.flit_num == flit_num {
                    self.retransmission_buffer = Flit::Empty;
                    self.state.set_resend_times(0);
                    self.set_state(&State::Idle);
                    Ok(flit.clone())
                } else {
                    Err(SimError::AckMismatch)
                }
            },
            _ => Err(SimError::AckMismatch),
        }
    }

    /// The cycles to wait for an acknowledgement now: the base wait, and
    /// after a resend a random extra wait from a window that doubles with
    /// each resend.
    pub fn calc_wait_cycles(&self) -> (r: u32)
        requires
            self@.state.resend_times <= 29,
        ensures
            exists|backoff: u32|
                backoff_allowed(self@.state.resend_times, backoff) && r == wait_cycles(
                    self@.state.resend_times,
                    backoff,
                ),
    {
        let resend_times = self.state.get_resend_times();
        if resend_times == 0 {
            assert(backoff_allowed(0, 0) && WAIT_ACK_CYCLES == wait_cycles(0, 0));
            return WAIT_ACK_CYCLES;
        }
        let begin = pow2(resend_times - 1);
        let end = pow2(resend_times + 1);
        proof {
            lemma_two_pow_small((resend_times - 1) as nat);
            lemma_two_pow_small(resend_times as nat);
        }
        let random_backoff = random_in_range(begin, end);
        assert(backoff_allowed(resend_times, random_backoff));
        WAIT_ACK_CYCLES + random_backoff
    }
}

} // verus!
