use vstd::prelude::*;
use vstd::string::*;
use crate::hardware::switching::Switching;
use crate::network::flit::{Flit, FlitView};

verus! {

/// Verdict on a flit that is dropped.
pub const BLOCK_FLIT: bool = false;

/// Verdict on a flit that is taken.
pub const RECEIVE_FLIT: bool = true;

/// The receive discipline of a node: while the flits of one packet arrive,
/// nothing else is taken.
#[derive(Debug)]
pub struct Blocking {
    pub switching: Switching,
    pub is_receiving: bool,
    pub receiving_packet_prev_id: String,
    pub receiving_packet_id: u32,
    pub cur_flit_num: u32,
}

pub struct BlockingView {
    pub switching: Switching,
    pub is_receiving: bool,
    pub receiving_packet_prev_id: Seq<char>,
    pub receiving_packet_id: u32,
    pub cur_flit_num: u32,
}

impl View for Blocking {
    type V = BlockingView;

    open spec fn view(&self) -> BlockingView {
        BlockingView {
            switching: self.switching,
            is_receiving: self.is_receiving,
            receiving_packet_prev_id: self.receiving_packet_prev_id@,
            receiving_packet_id: self.receiving_packet_id,
            cur_flit_num: self.cur_flit_num,
        }
    }
}

impl BlockingView {
    /// The discipline with no packet under way.
    pub open spec fn idle(self) -> BlockingView {
        BlockingView {
            switching: self.switching,
            is_receiving: false,
            receiving_packet_prev_id: Seq::empty(),
            receiving_packet_id: 0,
            cur_flit_num: 0,
        }
    }

    /// Whether a flit of the packet under way comes next: from the same
    /// neighbour, of the same packet, at the next position.
    pub open spec fn follows(self, prev_id: Seq<char>, packet_id: u32, flit_num: u32) -> bool {
        &&& self.is_receiving
        &&& self.receiving_packet_prev_id == prev_id
        &&& self.receiving_packet_id == packet_id
        &&& self.cur_flit_num + 1 == flit_num
    }

    /// The verdict on a flit, and the discipline after it. With cut-through
    /// switching every flit is taken. Otherwise a header is taken while no
    /// packet is under way, and starts one if more flits follow it; a data
    /// flit or a tail is taken if it comes next in the packet under way, and
    /// the tail ends the packet; an acknowledgement is taken while no packet
    /// is under way; an empty flit never.
    pub open spec fn check(self, flit: FlitView) -> (bool, BlockingView) {
        if self.switching == Switching::CutThrough {
            (true, self)
        } else {
            match flit {
                FlitView::Header(h) => if self.is_receiving {
                    (false, self)
                } else if h.flits_len > 1 {
                    (
                        true,
                        BlockingView {
                            switching: self.switching,
                            is_receiving: true,
                            receiving_packet_prev_id: h.prev_id,
                            receiving_packet_id: h.packet_id,
                            cur_flit_num: 0,
                        },
                    )
                } else {
                    (true, self)
                },
                FlitView::Data(d) => if self.follows(d.prev_id, d.packet_id, d.flit_num) {
                    (true, BlockingView { cur_flit_num: d.flit_num, ..self })
                } else {
                    (false, self)
                },
                FlitView::Tail(t) => if self.follows(t.prev_id, t.packet_id, t.flit_num) {
                    (true, self.idle())
                } else {
                    (false, self)
                },
                FlitView::Ack(_) => (!self.is_receiving, self),
                FlitView::Empty => (false, self),
            }
        }
    }
}

/// A flit that is dropped leaves the discipline as it was.
pub proof fn lemma_blocked_flit_changes_nothing(b: BlockingView, flit: FlitView)
    ensures
        !b.check(flit).0 ==> b.check(flit).1 == b,
{
}

impl Default for Blocking {
    fn default() -> (r: Self)
        ensures
            r@.switching == Switching::StoreAndForward,
            r@ == r@.idle(),
    {
        Self::new(Switching::StoreAndForward)
    }
}

impl Blocking {
    pub fn new(switching: Switching) -> (r: Self)
        ensures
            r@.switching == switching,
            r@ == r@.idle(),
    {
        Blocking {
            switching,
            is_receiving: false,
            receiving_packet_prev_id: String::new(),
            receiving_packet_id: 0,
            cur_flit_num: 0,
        }
    }

    /// Decides whether an arriving flit is taken (`RECEIVE_FLIT`) or dropped
    /// (`BLOCK_FLIT`), and keeps track of the packet under way.
    pub fn check_received_flit(&mut self, flit: &Flit) -> (verdict: bool)
        ensures
            (verdict, final(self)@) == old(self)@.check(flit@),
    {
        if !self.is_block_mode() {
            return RECEIVE_FLIT;
        }
        match flit {
            Flit::Header(h) => {
                if self.is_receiving {
                    return BLOCK_FLIT;
                } else if h.flits_len > 1 {
                    self.is_receiving = true;
                    self.receiving_packet_prev_id = h.prev_id.clone();
                    self.receiving_packet_id = h.packet_id;
                    self.cur_flit_num = 0;
                }
                RECEIVE_FLIT
            },
            Flit::Data(d) => {
                if self.is_receiving && self.receiving_packet_prev_id == d.prev_id
                    && self.receiving_packet_id == d.packet_id && d.flit_num > 0
                    && self.cur_flit_num == d.flit_num - 1 {
                    self.cur_flit_num = d.flit_num;
                    return RECEIVE_FLIT;
                }
                BLOCK_FLIT
            },
            Flit::Tail(t) => {
                if self.is_receiving && self.receiving_packet_prev_id == t.prev_id
                    && self.receiving_packet_id == t.packet_id && t.flit_num > 0
                    && self.cur_flit_num == t.flit_num - 1 {
                    self.reset();
                    return RECEIVE_FLIT;
                }
                BLOCK_FLIT
            },
            Flit::Ack(_) => {
                if self.is_receiving {
                    return BLOCK_FLIT;
                }
                RECEIVE_FLIT
            },
            Flit::Empty => BLOCK_FLIT,
        }
    }

    /// Forgets the packet under way.
    pub fn reset(&mut self)
        ensures
            final(self)@ == old(self)@.idle(),
    {
        self.is_receiving = false;
        self.receiving_packet_prev_id = String::new();
        self.receiving_packet_id = 0;
        self.cur_flit_num = 0;
    }

    pub fn is_block_mode(&self) -> (b: bool)
        ensures
            b == (self@.switching == Switching::StoreAndForward),
    {
        match self.switching {
            Switching::CutThrough => false,
            Switching::StoreAndForward => true,
        }
    }
}

} // verus!
