use vstd::prelude::*;
use vstd::string::*;
use vstd::slice::{slice_subrange, slice_to_vec};
use crate::error::SimError;
use crate::hardware::constants::DATA_BYTE_PER_FLIT;
use crate::network::core_functions::packets::{Packet, PacketView};
use crate::utils::{div_ceil, lemma_ceil_div_is_ceiling};

verus! {

/// First flit of a packet: it says how many flits the packet has and carries the first chunk.
#[derive(Debug, PartialEq, Eq)]
pub struct HeaderFlit {
    pub source_id: String,
    pub dest_id: String,
    pub next_id: String,
    pub prev_id: String,
    pub packet_id: u32,
    pub flits_len: u32,
    pub data: Vec<u8>,
    pub channel_id: u8,
}

pub struct HeaderFlitView {
    pub source_id: Seq<char>,
    pub dest_id: Seq<char>,
    pub next_id: Seq<char>,
    pub prev_id: Seq<char>,
    pub packet_id: u32,
    pub flits_len: u32,
    pub data: Seq<u8>,
    pub channel_id: u8,
}

impl View for HeaderFlit {
    type V = HeaderFlitView;

    open spec fn view(&self) -> HeaderFlitView {
        HeaderFlitView {
            source_id: self.source_id@,
            dest_id: self.dest_id@,
            next_id: self.next_id@,
            prev_id: self.prev_id@,
            packet_id: self.packet_id,
            flits_len: self.flits_len,
            data: self.data@,
            channel_id: self.channel_id,
        }
    }
}

impl Clone for HeaderFlit {
    fn clone(&self) -> (r: Self)
        ensures
            r@ == self@,
    {
        HeaderFlit {
            source_id: self.source_id.clone(),
            dest_id: self.dest_id.clone(),
            next_id: self.next_id.clone(),
            prev_id: self.prev_id.clone(),
            packet_id: self.packet_id,
            flits_len: self.flits_len,
            data: self.data.clone(),
            channel_id: self.channel_id,
        }
    }
}

impl HeaderFlit {
    /// Whether the two flits hold the same values.
    pub fn same(&self, other: &HeaderFlit) -> (b: bool)
        ensures
            b == (self@ == other@),
    {
        let b = self.source_id == other.source_id
            && self.dest_id == other.dest_id
            && self.next_id == other.next_id
            && self.prev_id == other.prev_id
            && self.packet_id == other.packet_id
            && self.flits_len == other.flits_len
            && self.data == other.data
            && self.channel_id == other.channel_id;
        proof {
            if b {
                assert(self.data@ =~= other.data@);
            }
        }
        b
    }
}

/// A flit between the first and the last of a packet.
#[derive(Debug, PartialEq, Eq)]
pub struct DataFlit {
    pub source_id: String,
    pub dest_id: String,
    pub next_id: String,
    pub prev_id: String,
    pub flit_num: u32,
    pub resend_num: u8,
    pub data: Vec<u8>,
    pub packet_id: u32,
    pub channel_id: u8,
}

pub struct DataFlitView {
    pub source_id: Seq<char>,
    pub dest_id: Seq<char>,
    pub next_id: Seq<char>,
    pub prev_id: Seq<char>,
    pub flit_num: u32,
    pub resend_num: u8,
    pub data: Seq<u8>,
    pub packet_id: u32,
    pub channel_id: u8,
}

impl View for DataFlit {
    type V = DataFlitView;

    open spec fn view(&self) -> DataFlitView {
        DataFlitView {
            source_id: self.source_id@,
            dest_id: self.dest_id@,
            next_id: self.next_id@,
            prev_id: self.prev_id@,
            flit_num: self.flit_num,
            resend_num: self.resend_num,
            data: self.data@,
            packet_id: self.packet_id,
            channel_id: self.channel_id,
        }
    }
}

impl Clone for DataFlit {
    fn clone(&self) -> (r: Self)
        ensures
            r@ == self@,
    {
        DataFlit {
            source_id: self.source_id.clone(),
            dest_id: self.dest_id.clone(),
            next_id: self.next_id.clone(),
            prev_id: self.prev_id.clone(),
            flit_num: self.flit_num,
            resend_num: self.resend_num,
            data: self.data.clone(),
            packet_id: self.packet_id,
            channel_id: self.channel_id,
        }
    }
}

impl DataFlit {
    /// Whether the two flits hold the same values.
    pub fn same(&self, other: &DataFlit) -> (b: bool)
        ensures
            b == (self@ == other@),
    {
        let b = self.source_id == other.source_id
            && self.dest_id == other.dest_id
            && self.next_id == other.next_id
            && self.prev_id == other.prev_id
            && self.flit_num == other.flit_num
            && self.resend_num == other.resend_num
            && self.data == other.data
            && self.packet_id == other.packet_id
            && self.channel_id == other.channel_id;
        proof {
            if b {
                assert(self.data@ =~= other.data@);
            }
        }
        b
    }
}

/// Last flit of a packet of more than one flit.
#[derive(Debug, PartialEq, Eq)]
pub struct TailFlit {
    pub source_id: String,
    pub dest_id: String,
    pub next_id: String,
    pub prev_id: String,
    pub flit_num: u32,
    pub resend_num: u8,
    pub data: Vec<u8>,
    pub packet_id: u32,
    pub channel_id: u8,
}

pub struct TailFlitView {
    pub source_id: Seq<char>,
    pub dest_id: Seq<char>,
    pub next_id: Seq<char>,
    pub prev_id: Seq<char>,
    pub flit_num: u32,
    pub resend_num: u8,
    pub data: Seq<u8>,
    pub packet_id: u32,
    pub channel_id: u8,
}

impl View for TailFlit {
    type V = TailFlitView;

    open spec fn view(&self) -> TailFlitView {
        TailFlitView {
            source_id: self.source_id@,
            dest_id: self.dest_id@,
            next_id: self.next_id@,
            prev_id: self.prev_id@,
            flit_num: self.flit_num,
            resend_num: self.resend_num,
            data: self.data@,
            packet_id: self.packet_id,
            channel_id: self.channel_id,
        }
    }
}

impl Clone for TailFlit {
    fn clone(&self) -> (r: Self)
        ensures
            r@ == self@,
    {
        TailFlit {
            source_id: self.source_id.clone(),
            dest_id: self.dest_id.clone(),
            next_id: self.next_id.clone(),
            prev_id: self.prev_id.clone(),
            flit_num: self.flit_num,
            resend_num: self.resend_num,
            data: self.data.clone(),
            packet_id: self.packet_id,
            channel_id: self.channel_id,
        }
    }
}

impl TailFlit {
    /// Whether the two flits hold the same values.
    pub fn same(&self, other: &TailFlit) -> (b: bool)
        ensures
            b == (self@ == other@),
    {
        let b = self.source_id == other.source_id
            && self.dest_id == other.dest_id
            && self.next_id == other.next_id
            && self.prev_id == other.prev_id
            && self.flit_num == other.flit_num
            && self.resend_num == other.resend_num
            && self.data == other.data
            && self.packet_id == other.packet_id
            && self.channel_id == other.channel_id;
        proof {
            if b {
                assert(self.data@ =~= other.data@);
            }
        }
        b
    }
}

/// Acknowledgement of one flit, addressed against the hop that the flit made.
#[derive(Debug, PartialEq, Eq)]
pub struct AckFlit {
    pub source_id: String,
    pub dest_id: String,
    pub packet_id: u32,
    pub flit_num: u32,
    pub channel_id: u8,
}

pub struct AckFlitView {
    pub source_id: Seq<char>,
    pub dest_id: Seq<char>,
    pub packet_id: u32,
    pub flit_num: u32,
    pub channel_id: u8,
}

impl View for AckFlit {
    type V = AckFlitView;

    open spec fn view(&self) -> AckFlitView {
        AckFlitView {
            source_id: self.source_id@,
            dest_id: self.dest_id@,
            packet_id: self.packet_id,
            flit_num: self.flit_num,
            channel_id: self.channel_id,
        }
    }
}

impl Clone for AckFlit {
    fn clone(&self) -> (r: Self)
        ensures
            r@ == self@,
    {
        AckFlit {
            source_id: self.source_id.clone(),
            dest_id: self.dest_id.clone(),
            packet_id: self.packet_id,
            flit_num: self.flit_num,
            channel_id: self.channel_id,
        }
    }
}

impl AckFlit {
    /// Whether the two flits hold the same values.
    pub fn same(&self, other: &AckFlit) -> (b: bool)
        ensures
            b == (self@ == other@),
    {
        let b = self.source_id == other.source_id
            && self.dest_id == other.dest_id
            && self.packet_id == other.packet_id
            && self.flit_num == other.flit_num
            && self.channel_id == other.channel_id;
        proof {
            if b {
            }
        }
        b
    }
}

/// The transport unit that nodes exchange.
#[derive(Debug, PartialEq, Eq)]
pub enum Flit {
    Header(HeaderFlit),
    Data(DataFlit),
    Tail(TailFlit),
    Ack(AckFlit),
    Empty,
}

pub enum FlitView {
    Header(HeaderFlitView),
    Data(DataFlitView),
    Tail(TailFlitView),
    Ack(AckFlitView),
    Empty,
}

impl View for Flit {
    type V = FlitView;

    open spec fn view(&self) -> FlitView {
        match self {
            Flit::Header(f) => FlitView::Header(f@),
            Flit::Data(f) => FlitView::Data(f@),
            Flit::Tail(f) => FlitView::Tail(f@),
            Flit::Ack(f) => FlitView::Ack(f@),
            Flit::Empty => FlitView::Empty,
        }
    }
}

impl DeepView for Flit {
    type V = FlitView;

    open spec fn deep_view(&self) -> FlitView {
        self@
    }
}

impl Default for Flit {
    fn default() -> (r: Self)
        ensures
            r@ is Empty,
    {
        Flit::Empty
    }
}

impl Clone for Flit {
    fn clone(&self) -> (r: Self)
        ensures
            r@ == self@,
    {
        match self {
            Flit::Header(f) => Flit::Header(f.clone()),
            Flit::Data(f) => Flit::Data(f.clone()),
            Flit::Tail(f) => Flit::Tail(f.clone()),
            Flit::Ack(f) => Flit::Ack(f.clone()),
            Flit::Empty => Flit::Empty,
        }
    }
}

/// The view of a name that may be absent.
pub open spec fn opt_str_view(o: Option<String>) -> Option<Seq<char>> {
    match o {
        Some(s) => Some(s@),
        None => None,
    }
}

impl FlitView {
    pub open spec fn source_id(self) -> Option<Seq<char>> {
        match self {
            FlitView::Header(f) => Some(f.source_id),
            FlitView::Data(f) => Some(f.source_id),
            FlitView::Tail(f) => Some(f.source_id),
            FlitView::Ack(f) => Some(f.source_id),
            FlitView::Empty => None,
        }
    }

    /// The node that sent the flit on its last hop. An acknowledgement names
    /// it as its source.
    pub open spec fn prev_id(self) -> Option<Seq<char>> {
        match self {
            FlitView::Header(f) => Some(f.prev_id),
            FlitView::Data(f) => Some(f.prev_id),
            FlitView::Tail(f) => Some(f.prev_id),
            FlitView::Ack(f) => Some(f.source_id),
            FlitView::Empty => None,
        }
    }

    /// The node that the flit goes to on this hop. An acknowledgement names
    /// it as its destination.
    pub open spec fn next_id(self) -> Option<Seq<char>> {
        match self {
            FlitView::Header(f) => Some(f.next_id),
            FlitView::Data(f) => Some(f.next_id),
            FlitView::Tail(f) => Some(f.next_id),
            FlitView::Ack(f) => Some(f.dest_id),
            FlitView::Empty => None,
        }
    }

    pub open spec fn dest_id(self) -> Option<Seq<char>> {
        match self {
            FlitView::Header(f) => Some(f.dest_id),
            FlitView::Data(f) => Some(f.dest_id),
            FlitView::Tail(f) => Some(f.dest_id),
            FlitView::Ack(f) => Some(f.dest_id),
            FlitView::Empty => None,
        }
    }

    pub open spec fn channel_id(self) -> Option<u8> {
        match self {
            FlitView::Header(f) => Some(f.channel_id),
            FlitView::Data(f) => Some(f.channel_id),
            FlitView::Tail(f) => Some(f.channel_id),
            FlitView::Ack(f) => Some(f.channel_id),
            FlitView::Empty => None,
        }
    }

    pub open spec fn packet_id(self) -> Option<u32> {
        match self {
            FlitView::Header(f) => Some(f.packet_id),
            FlitView::Data(f) => Some(f.packet_id),
            FlitView::Tail(f) => Some(f.packet_id),
            FlitView::Ack(f) => Some(f.packet_id),
            FlitView::Empty => None,
        }
    }

    /// Position of the flit in its packet; a header is at position 0.
    pub open spec fn flit_num(self) -> Option<u32> {
        match self {
            FlitView::Header(_) => Some(0u32),
            FlitView::Data(f) => Some(f.flit_num),
            FlitView::Tail(f) => Some(f.flit_num),
            FlitView::Ack(f) => Some(f.flit_num),
            FlitView::Empty => None,
        }
    }

    pub open spec fn flits_len(self) -> Option<u32> {
        match self {
            FlitView::Header(f) => Some(f.flits_len),
            _ => None,
        }
    }

    /// A tail ends its packet, and so does the header of a one-flit packet.
    pub open spec fn is_last(self) -> bool {
        self is Tail || (self matches FlitView::Header(f) && f.flits_len == 1)
    }

    pub open spec fn is_broadcast(self) -> bool {
        self.dest_id() == Some("broadcast"@)
    }

    /// The bytes of the packet that the flit carries.
    pub open spec fn payload(self) -> Seq<u8> {
        match self {
            FlitView::Header(f) => f.data,
            FlitView::Data(f) => f.data,
            FlitView::Tail(f) => f.data,
            _ => Seq::empty(),
        }
    }

    /// The flit with another node for its next hop.
    pub open spec fn with_next_id(self, id: Seq<char>) -> FlitView {
        match self {
            FlitView::Header(f) => FlitView::Header(HeaderFlitView { next_id: id, ..f }),
            FlitView::Data(f) => FlitView::Data(DataFlitView { next_id: id, ..f }),
            FlitView::Tail(f) => FlitView::Tail(TailFlitView { next_id: id, ..f }),
            FlitView::Ack(f) => FlitView::Ack(AckFlitView { dest_id: id, ..f }),
            FlitView::Empty => FlitView::Empty,
        }
    }

    /// The flit with another node for its last hop.
    pub open spec fn with_prev_id(self, id: Seq<char>) -> FlitView {
        match self {
            FlitView::Header(f) => FlitView::Header(HeaderFlitView { prev_id: id, ..f }),
            FlitView::Data(f) => FlitView::Data(DataFlitView { prev_id: id, ..f }),
            FlitView::Tail(f) => FlitView::Tail(TailFlitView { prev_id: id, ..f }),
            FlitView::Ack(f) => FlitView::Ack(AckFlitView { source_id: id, ..f }),
            FlitView::Empty => FlitView::Empty,
        }
    }
}

impl Flit {
    pub fn is_empty(&self) -> (b: bool)
        ensures
            b == (self@ is Empty),
    {
        matches!(self, Flit::Empty)
    }

    pub fn is_ack(&self) -> (b: bool)
        ensures
            b == (self@ is Ack),
    {
        matches!(self, Flit::Ack(_))
    }

    pub fn is_data(&self) -> (b: bool)
        ensures
            b == (self@ is Data),
    {
        matches!(self, Flit::Data(_))
    }

    pub fn is_header(&self) -> (b: bool)
        ensures
            b == (self@ is Header),
    {
        matches!(self, Flit::Header(_))
    }

    pub fn is_tail(&self) -> (b: bool)
        ensures
            b == (self@ is Tail),
    {
        matches!(self, Flit::Tail(_))
    }

    /// Whether the flit's final destination is every node.
    pub fn is_broadcast(&self) -> (b: bool)
        ensures
            b == self@.is_broadcast(),
    {
        let word = String::from_str("broadcast");
        match self {
            Flit::Header(f) => f.dest_id == word,
            Flit::Data(f) => f.dest_id == word,
            Flit::Tail(f) => f.dest_id == word,
            Flit::Ack(f) => f.dest_id == word,
            Flit::Empty => false,
        }
    }

    pub fn clear(&mut self)
        ensures
            final(self)@ is Empty,
    {
        *self = Flit::Empty;
    }

    /// Whether the two flits hold the same values.
    pub fn same(&self, other: &Flit) -> (b: bool)
        ensures
            b == (self@ == other@),
    {
        match (self, other) {
            (Flit::Header(a), Flit::Header(b)) => a.same(b),
            (Flit::Data(a), Flit::Data(b)) => a.same(b),
            (Flit::Tail(a), Flit::Tail(b)) => a.same(b),
            (Flit::Ack(a), Flit::Ack(b)) => a.same(b),
            (Flit::Empty, Flit::Empty) => true,
            _ => false,
        }
    }

    /// Names the node of the next hop. In an acknowledgement that is its
    /// destination. An empty flit has no such field and is refused.
    pub fn set_next_id(&mut self, next_id: &str) -> (r: Result<(), SimError>)
        ensures
            final(self)@ == old(self)@.with_next_id(next_id@),
            r is Err <==> old(self)@ is Empty,
            r is Err ==> r == Err::<(), SimError>(SimError::EmptyFlit),
    {
        match self {
            Flit::Header(f) => f.next_id = String::from_str(next_id),
            Flit::Data(f) => f.next_id = String::from_str(next_id),
            Flit::Tail(f) => f.next_id = String::from_str(next_id),
            Flit::Ack(f) => f.dest_id = String::from_str(next_id),
            Flit::Empty => {
                return Err(SimError::EmptyFlit);
            },
        }
        Ok(())
    }

    /// Names the node of the last hop. In an acknowledgement that is its
    /// source. An empty flit has no such field and is refused.
    pub fn set_prev_id(&mut self, prev_id: &str) -> (r: Result<(), SimError>)
        ensures
            final(self)@ == old(self)@.with_prev_id(prev_id@),
            r is Err <==> old(self)@ is Empty,
            r is Err ==> r == Err::<(), SimError>(SimError::EmptyFlit),
    {
        match self {
            Flit::Header(f) => f.prev_id = String::from_str(prev_id),
            Flit::Data(f) => f.prev_id = String::from_str(prev_id),
            Flit::Tail(f) => f.prev_id = String::from_str(prev_id),
            Flit::Ack(f) => f.source_id = String::from_str(prev_id),
            Flit::Empty => {
                return Err(SimError::EmptyFlit);
            },
        }
        Ok(())
    }

    pub fn get_source_id(&self) -> (r: Option<String>)
        ensures
            opt_str_view(r) == self@.source_id(),
    {
        match self {
            Flit::Header(f) => Some(f.source_id.clone()),
            Flit::Data(f) => Some(f.source_id.clone()),
            Flit::Tail(f) => Some(f.source_id.clone()),
            Flit::Ack(f) => Some(f.source_id.clone()),
            Flit::Empty => None,
        }
    }

    pub fn get_prev_id(&self) -> (r: Option<String>)
        ensures
            opt_str_view(r) == self@.prev_id(),
    {
        match self {
            Flit::Header(f) => Some(f.prev_id.clone()),
            Flit::Data(f) => Some(f.prev_id.clone()),
            Flit::Tail(f) => Some(f.prev_id.clone()),
            Flit::Ack(f) => Some(f.source_id.clone()),
            Flit::Empty => None,
        }
    }

    pub fn get_next_id(&self) -> (r: Option<String>)
        ensures
            opt_str_view(r) == self@.next_id(),
    {
        match self {
            Flit::Header(f) => Some(f.next_id.clone()),
            Flit::Data(f) => Some(f.next_id.clone()),
            Flit::Tail(f) => Some(f.next_id.clone()),
            Flit::Ack(f) => Some(f.dest_id.clone()),
            Flit::Empty => None,
        }
    }

    pub fn get_dest_id(&self) -> (r: Option<String>)
        ensures
            opt_str_view(r) == self@.dest_id(),
    {
        match self {
            Flit::Header(f) => Some(f.dest_id.clone()),
            Flit::Data(f) => Some(f.dest_id.clone()),
            Flit::Tail(f) => Some(f.dest_id.clone()),
            Flit::Ack(f) => Some(f.dest_id.clone()),
            Flit::Empty => None,
        }
    }

    pub fn get_channel_id(&self) -> (r: Option<u8>)
        ensures
            r == self@.channel_id(),
    {
        match self {
            Flit::Header(f) => Some(f.channel_id),
            Flit::Data(f) => Some(f.channel_id),
            Flit::Tail(f) => Some(f.channel_id),
            Flit::Ack(f) => Some(f.channel_id),
            Flit::Empty => None,
        }
    }

    pub fn get_packet_id(&self) -> (r: Option<u32>)
        ensures
            r == self@.packet_id(),
    {
        match self {
            Flit::Header(f) => Some(f.packet_id),
            Flit::Data(f) => Some(f.packet_id),
            Flit::Tail(f) => Some(f.packet_id),
            Flit::Ack(f) => Some(f.packet_id),
            Flit::Empty => None,
        }
    }

    pub fn get_flit_num(&self) -> (r: Option<u32>)
        ensures
            r == self@.flit_num(),
    {
        match self {
            Flit::Header(_) => Some(0),
            Flit::Data(f) => Some(f.flit_num),
            Flit::Tail(f) => Some(f.flit_num),
            Flit::Ack(f) => Some(f.flit_num),
            Flit::Empty => None,
        }
    }

    pub fn get_flits_len(&self) -> (r: Option<u32>)
        ensures
            r == self@.flits_len(),
    {
        match self {
            Flit::Header(f) => Some(f.flits_len),
            _ => None,
        }
    }

    pub fn is_last(&self) -> (b: bool)
        ensures
            b == self@.is_last(),
    {
        match self {
            Flit::Tail(_) => true,
            Flit::Header(f) => f.flits_len == 1,
            _ => false,
        }
    }
}

/// The `i`-th piece of `data` when it is cut into pieces of one flit's payload.
pub open spec fn chunk(data: Seq<u8>, i: int) -> Seq<u8> {
    let f = DATA_BYTE_PER_FLIT as int;
    data.subrange(
        i * f,
        if (i + 1) * f <= data.len() {
            (i + 1) * f
        } else {
            data.len() as int
        },
    )
}

/// The `i`-th flit of a packet: a header first, a tail last unless the header
/// is the only flit, data flits between them. Each carries the packet's
/// addresses and its own piece of the payload.
pub open spec fn flit_of_packet(p: PacketView, i: int) -> FlitView {
    if i == 0 {
        FlitView::Header(
            HeaderFlitView {
                source_id: p.source_id,
                dest_id: p.dest_id,
                next_id: p.next_id,
                prev_id: p.prev_id,
                packet_id: p.packet_id,
                flits_len: p.flits_len() as u32,
                data: chunk(p.data, 0),
                channel_id: p.channel_id,
            },
        )
    } else if i == p.flits_len() - 1 {
        FlitView::Tail(
            TailFlitView {
                source_id: p.source_id,
                dest_id: p.dest_id,
                next_id: p.next_id,
                prev_id: p.prev_id,
                flit_num: i as u32,
                resend_num: 0,
                data: chunk(p.data, i),
                packet_id: p.packet_id,
                channel_id: p.channel_id,
            },
        )
    } else {
        FlitView::Data(
            DataFlitView {
                source_id: p.source_id,
                dest_id: p.dest_id,
                next_id: p.next_id,
                prev_id: p.prev_id,
                flit_num: i as u32,
                resend_num: 0,
                data: chunk(p.data, i),
                packet_id: p.packet_id,
                channel_id: p.channel_id,
            },
        )
    }
}

/// The flits of a packet, in the order in which they are sent. A packet
/// without payload has none.
pub open spec fn spec_packet_to_flits(p: PacketView) -> Seq<FlitView> {
    Seq::new(p.flits_len() as nat, |i: int| flit_of_packet(p, i))
}

/// The payloads of the flits, one after the other.
pub open spec fn spec_flits_to_data(flits: Seq<FlitView>) -> Seq<u8>
    decreases flits.len(),
{
    if flits.len() == 0 {
        Seq::empty()
    } else {
        spec_flits_to_data(flits.drop_last()) + flits.last().payload()
    }
}

proof fn lemma_chunk_bounds(len: int, i: int)
    requires
        0 <= len,
        0 <= i < crate::utils::ceil_div(len, DATA_BYTE_PER_FLIT as int),
    ensures
        0 <= i * (DATA_BYTE_PER_FLIT as int) < len,
        i * (DATA_BYTE_PER_FLIT as int) + (DATA_BYTE_PER_FLIT as int) == (i + 1) * (
        DATA_BYTE_PER_FLIT as int),
        i + 1 < crate::utils::ceil_div(len, DATA_BYTE_PER_FLIT as int) ==> (i + 1) * (
        DATA_BYTE_PER_FLIT as int) < len,
        i + 1 == crate::utils::ceil_div(len, DATA_BYTE_PER_FLIT as int) ==> (i + 1) * (
        DATA_BYTE_PER_FLIT as int) >= len,
{
    let n = crate::utils::ceil_div(len, DATA_BYTE_PER_FLIT as int);
    lemma_ceil_div_is_ceiling(len, DATA_BYTE_PER_FLIT as int);
    assert((n - 1) * 64 < len <= n * 64);
}

/// The payloads of the first `k` flits of a packet are the first bytes of its
/// data.
proof fn lemma_prefix_data(p: PacketView, k: int)
    requires
        0 <= k <= p.flits_len(),
    ensures
        spec_flits_to_data(spec_packet_to_flits(p).subrange(0, k)) == p.data.subrange(
            0,
            if k * (DATA_BYTE_PER_FLIT as int) <= p.data.len() {
                k * (DATA_BYTE_PER_FLIT as int)
            } else {
                p.data.len() as int
            },
        ),
    decreases k,
{
    let flits = spec_packet_to_flits(p);
    let pre = flits.subrange(0, k);
    if k == 0 {
        assert(p.data.subrange(0, 0) =~= Seq::<u8>::empty());
    } else {
        lemma_prefix_data(p, k - 1);
        lemma_chunk_bounds(p.data.len() as int, k - 1);
        assert(pre.drop_last() =~= flits.subrange(0, k - 1));
        assert(pre.last() == flit_of_packet(p, k - 1));
        assert(pre.last().payload() == chunk(p.data, k - 1));
        let hi = if k * 64 <= p.data.len() {
            k * 64
        } else {
            p.data.len() as int
        };
        assert(p.data.subrange(0, (k - 1) * 64) + chunk(p.data, k - 1) =~= p.data.subrange(0, hi));
    }
}

/// Cutting a packet into flits and joining their payloads gives back the
/// packet's data, whatever its length.
pub proof fn lemma_codec_round_trip(p: PacketView)
    ensures
        spec_flits_to_data(spec_packet_to_flits(p)) == p.data,
{
    let n = p.flits_len();
    lemma_ceil_div_is_ceiling(p.data.len() as int, DATA_BYTE_PER_FLIT as int);
    lemma_prefix_data(p, n);
    let flits = spec_packet_to_flits(p);
    assert(flits.subrange(0, n) =~= flits);
    assert(p.data.subrange(0, p.data.len() as int) =~= p.data);
}

/// Cuts a packet into its flits.
pub fn packet_to_flits(packet: &Packet) -> (flits: Vec<Flit>)
    requires
        packet.data@.len() <= u32::MAX,
    ensures
        flits.deep_view() == spec_packet_to_flits(packet@),
        flits@.len() == packet@.flits_len(),
        spec_flits_to_data(flits.deep_view()) == packet.data@,
{
    let mut flits: Vec<Flit> = Vec::new();
    let len: usize = packet.data.len();
    let flits_len: u32 = div_ceil(len as u32, DATA_BYTE_PER_FLIT);
    let mut flit_num: u32 = 0;
    while flit_num < flits_len
        invariant
            len == packet.data@.len(),
            len <= u32::MAX,
            flits_len == packet@.flits_len(),
            flit_num <= flits_len,
            flits.deep_view() =~= spec_packet_to_flits(packet@).subrange(0, flit_num as int),
        decreases flits_len - flit_num,
    {
        proof {
            lemma_chunk_bounds(len as int, flit_num as int);
        }
        let lo: usize = (flit_num as usize) * (DATA_BYTE_PER_FLIT as usize);
        let hi: usize = if len - lo >= DATA_BYTE_PER_FLIT as usize {
            lo + DATA_BYTE_PER_FLIT as usize
        } else {
            len
        };
        let data_chunk = slice_to_vec(slice_subrange(packet.data.as_slice(), lo, hi));
        assert(data_chunk@ == chunk(packet@.data, flit_num as int));
        let flit = if flit_num == 0 {
            Flit::Header(
                HeaderFlit {
                    source_id: packet.source_id.clone(),
                    dest_id: packet.dest_id.clone(),
                    next_id: packet.next_id.clone(),
                    prev_id: packet.prev_id.clone(),
                    packet_id: packet.packet_id,
                    data: data_chunk,
                    flits_len,
                    channel_id: packet.channel_id,
                },
            )
        } else if flit_num == flits_len - 1 {
            Flit::Tail(
                TailFlit {
                    source_id: packet.source_id.clone(),
                    dest_id: packet.dest_id.clone(),
                    next_id: packet.next_id.clone(),
                    prev_id: packet.prev_id.clone(),
                    flit_num,
                    resend_num: 0,
                    data: data_chunk,
                    packet_id: packet.packet_id,
                    channel_id: packet.channel_id,
                },
            )
        } else {
            Flit::Data(
                DataFlit {
                    source_id: packet.source_id.clone(),
                    dest_id: packet.dest_id.clone(),
                    next_id: packet.next_id.clone(),
                    prev_id: packet.prev_id.clone(),
                    flit_num,
                    resend_num: 0,
                    data: data_chunk,
                    packet_id: packet.packet_id,
                    channel_id: packet.channel_id,
                },
            )
        };
        assert(flit@ == flit_of_packet(packet@, flit_num as int));
        let ghost before = flits.deep_view();
        flits.push(flit);
        assert(flits.deep_view() =~= before.push(flit_of_packet(packet@, flit_num as int)));
        flit_num = flit_num + 1;
    }
    proof {
        lemma_codec_round_trip(packet@);
        assert(spec_packet_to_flits(packet@).subrange(0, flits_len as int)
            =~= spec_packet_to_flits(packet@));
    }
    flits
}

/// Appends the bytes of `src` to `dst`.
pub fn append_bytes(dst: &mut Vec<u8>, src: &Vec<u8>)
    ensures
        final(dst)@ == old(dst)@ + src@,
{
    let mut i: usize = 0;
    while i < src.len()
        invariant
            i <= src@.len(),
            dst@ =~= old(dst)@ + src@.subrange(0, i as int),
        decreases src@.len() - i,
    {
        dst.push(src[i]);
        i = i + 1;
    }
    assert(src@.subrange(0, src@.len() as int) =~= src@);
}

/// Joins the payloads of the flits; acknowledgements and empty flits carry
/// none.
pub fn flits_to_data(flits: &Vec<Flit>) -> (data: Vec<u8>)
    ensures
        data@ == spec_flits_to_data(flits.deep_view()),
{
    let mut data: Vec<u8> = Vec::new();
    let mut i: usize = 0;
    while i < flits.len()
        invariant
            i <= flits@.len(),
            data@ == spec_flits_to_data(flits.deep_view().subrange(0, i as int)),
        decreases flits@.len() - i,
    {
        proof {
            let next = flits.deep_view().subrange(0, i + 1);
            assert(next.drop_last() =~= flits.deep_view().subrange(0, i as int));
            assert(next.last() == flits@[i as int]@);
        }
        match &flits[i] {
            Flit::Header(f) => append_bytes(&mut data, &f.data),
            Flit::Data(f) => append_bytes(&mut data, &f.data),
            Flit::Tail(f) => append_bytes(&mut data, &f.data),
            _ => {
                assert(data@ + Seq::<u8>::empty() =~= data@);
            },
        }
        i = i + 1;
    }
    assert(flits.deep_view().subrange(0, flits@.len() as int) =~= flits.deep_view());
    data
}

} // verus!
