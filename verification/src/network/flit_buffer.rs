use vstd::prelude::*;
use vstd::string::*;
use crate::network::core_functions::packets::{Packet, PacketView};
use crate::network::flit::{flits_to_data, spec_flits_to_data, Flit, FlitView};
use crate::str_map::StrMap;
use crate::utils::{decimal, u32_to_string};

verus! {

/// The number by which buffered flits are ordered: the position in the
/// packet, with an empty flit before all others.
pub open spec fn sort_key(f: FlitView) -> int {
    match f.flit_num() {
        Some(n) => n as int,
        None => -1,
    }
}

/// The flits of `s` without repetitions: of equal flits the first stays.
pub open spec fn dedup(s: Seq<FlitView>) -> Seq<FlitView>
    decreases s.len(),
{
    if s.len() == 0 {
        Seq::empty()
    } else {
        let d = dedup(s.drop_last());
        if d.contains(s.last()) {
            d
        } else {
            d.push(s.last())
        }
    }
}

/// `x` put into the ordered `s`, behind every flit whose key is not larger.
pub open spec fn insert_sorted(s: Seq<FlitView>, x: FlitView) -> Seq<FlitView>
    decreases s.len(),
{
    if s.len() == 0 {
        seq![x]
    } else if sort_key(s.last()) <= sort_key(x) {
        s.push(x)
    } else {
        insert_sorted(s.drop_last(), x).push(s.last())
    }
}

/// The flits of `s` ordered by key; flits of equal key keep their order.
pub open spec fn stable_sort(s: Seq<FlitView>) -> Seq<FlitView>
    decreases s.len(),
{
    if s.len() == 0 {
        Seq::empty()
    } else {
        insert_sorted(stable_sort(s.drop_last()), s.last())
    }
}

pub open spec fn is_sorted(s: Seq<FlitView>) -> bool {
    forall|i: int, j: int| 0 <= i <= j < s.len() ==> sort_key(s[i]) <= sort_key(s[j])
}

/// Inserting keeps the order, adds one flit and loses none.
pub proof fn lemma_insert_sorted(s: Seq<FlitView>, x: FlitView)
    requires
        is_sorted(s),
    ensures
        is_sorted(insert_sorted(s, x)),
        insert_sorted(s, x).len() == s.len() + 1,
        forall|v: FlitView| #[trigger] insert_sorted(s, x).contains(v) <==> (v == x || s.contains(v)),
    decreases s.len(),
{
    let r = insert_sorted(s, x);
    if s.len() == 0 {
        assert(r[0] == x);
    } else if sort_key(s.last()) <= sort_key(x) {
        assert(r[s.len() as int] == x);
        assert forall|v: FlitView| #[trigger] r.contains(v) implies (v == x || s.contains(v)) by {
            let i = choose|i: int| 0 <= i < r.len() && r[i] == v;
            if i < s.len() {
                assert(s[i] == v);
            }
        }
        assert forall|v: FlitView| s.contains(v) implies #[trigger] r.contains(v) by {
            let i = choose|i: int| 0 <= i < s.len() && s[i] == v;
            assert(r[i] == v);
        }
    } else {
        let t = s.drop_last();
        let q = insert_sorted(t, x);
        assert(is_sorted(t));
        lemma_insert_sorted(t, x);
        assert forall|i: int, j: int| 0 <= i <= j < r.len() implies sort_key(r[i]) <= sort_key(
            r[j],
        ) by {
            if j < q.len() {
            } else if i < q.len() {
                assert(q.contains(q[i]));
                if q[i] != x {
                    let k = choose|k: int| 0 <= k < t.len() && t[k] == q[i];
                    assert(s[k] == q[i]);
                }
            }
        }
        assert forall|v: FlitView| #[trigger] r.contains(v) implies (v == x || s.contains(v)) by {
            let i = choose|i: int| 0 <= i < r.len() && r[i] == v;
            if i < q.len() {
                assert(q.contains(v));
                if v != x {
                    let k = choose|k: int| 0 <= k < t.len() && t[k] == v;
                    assert(s[k] == v);
                }
            } else {
                assert(s[s.len() - 1] == v);
            }
        }
        assert forall|v: FlitView| (v == x || s.contains(v)) implies #[trigger] r.contains(v) by {
            if v == s.last() {
                assert(r[r.len() - 1] == v);
            } else {
                if v != x {
                    let k = choose|k: int| 0 <= k < s.len() && s[k] == v;
                    assert(t[k] == v);
                }
                assert(q.contains(v));
                let i = choose|i: int| 0 <= i < q.len() && q[i] == v;
                assert(r[i] == v);
            }
        }
    }
}

/// Sorting orders the flits and keeps each of them.
pub proof fn lemma_stable_sort(s: Seq<FlitView>)
    ensures
        is_sorted(stable_sort(s)),
        stable_sort(s).len() == s.len(),
        forall|v: FlitView| #[trigger] stable_sort(s).contains(v) <==> s.contains(v),
    decreases s.len(),
{
    if s.len() > 0 {
        let t = s.drop_last();
        lemma_stable_sort(t);
        lemma_insert_sorted(stable_sort(t), s.last());
        let r = stable_sort(s);
        assert forall|v: FlitView| #[trigger] r.contains(v) implies s.contains(v) by {
            if v != s.last() {
                let k = choose|k: int| 0 <= k < t.len() && t[k] == v;
                assert(s[k] == v);
            } else {
                assert(s[s.len() - 1] == v);
            }
        }
        assert forall|v: FlitView| s.contains(v) implies #[trigger] r.contains(v) by {
            let k = choose|k: int| 0 <= k < s.len() && s[k] == v;
            if k < t.len() {
                assert(t[k] == v);
            }
        }
    }
}

/// Removing repetitions leaves each flit once.
pub proof fn lemma_dedup(s: Seq<FlitView>)
    ensures
        dedup(s).no_duplicates(),
        dedup(s).len() <= s.len(),
        forall|v: FlitView| #[trigger] dedup(s).contains(v) <==> s.contains(v),
    decreases s.len(),
{
    if s.len() > 0 {
        let t = s.drop_last();
        lemma_dedup(t);
        let d = dedup(t);
        let r = dedup(s);
        assert forall|v: FlitView| #[trigger] r.contains(v) implies s.contains(v) by {
            if d.contains(v) {
                let k = choose|k: int| 0 <= k < t.len() && t[k] == v;
                assert(s[k] == v);
            } else {
                let i = choose|i: int| 0 <= i < r.len() && r[i] == v;
                if i < d.len() {
                    assert(d[i] == v);
                }
                assert(s[s.len() - 1] == v);
            }
        }
        assert forall|v: FlitView| s.contains(v) implies #[trigger] r.contains(v) by {
            let k = choose|k: int| 0 <= k < s.len() && s[k] == v;
            if k < t.len() {
                assert(t[k] == v);
                assert(d.contains(v));
                let i = choose|i: int| 0 <= i < d.len() && d[i] == v;
                assert(r[i] == v);
            } else if !d.contains(s.last()) {
                assert(r[r.len() - 1] == v);
            }
        }
    }
}

/// Where `x` goes in the ordered `s`: behind the first `j` flits, when those
/// behind them have larger keys and the `j`-th has none.
proof fn lemma_insert_at(s: Seq<FlitView>, x: FlitView, j: int)
    requires
        0 <= j <= s.len(),
        forall|k: int| j <= k < s.len() ==> sort_key(s[k]) > sort_key(x),
        j > 0 ==> sort_key(s[j - 1]) <= sort_key(x),
    ensures
        insert_sorted(s, x) == s.insert(j, x),
    decreases s.len() - j,
{
    if s.len() == 0 {
        assert(s.insert(0, x) =~= seq![x]);
    } else if j == s.len() {
        assert(s.insert(j, x) =~= s.push(x));
    } else {
        let t = s.drop_last();
        lemma_insert_at(t, x, j);
        assert(t.insert(j, x).push(s.last()) =~= s.insert(j, x));
    }
}

/// A first-in, first-out queue of flits.
#[derive(Debug)]
pub struct FlitBuffer {
    pub flit_buffer: Vec<Flit>,
}

impl View for FlitBuffer {
    type V = Seq<FlitView>;

    open spec fn view(&self) -> Seq<FlitView> {
        self.flit_buffer.deep_view()
    }
}

impl Default for FlitBuffer {
    fn default() -> (r: Self)
        ensures
            r@ == Seq::<FlitView>::empty(),
    {
        Self::new()
    }
}

impl Clone for FlitBuffer {
    fn clone(&self) -> (r: Self)
        ensures
            r@ == self@,
    {
        let mut out = FlitBuffer::new();
        let mut i: usize = 0;
        while i < self.flit_buffer.len()
            invariant
                i <= self.flit_buffer@.len(),
                out@ =~= self@.subrange(0, i as int),
            decreases self.flit_buffer@.len() - i,
        {
            out.push(&self.flit_buffer[i]);
            i = i + 1;
        }
        assert(self@.subrange(0, self@.len() as int) =~= self@);
        out
    }
}

fn key_of(f: &Flit) -> (k: i64)
    ensures
        k == sort_key(f@),
{
    match f.get_flit_num() {
        Some(n) => n as i64,
        None => -1,
    }
}

impl FlitBuffer {
    pub fn new() -> (r: Self)
        ensures
            r@ == Seq::<FlitView>::empty(),
    {
        let r = FlitBuffer { flit_buffer: Vec::new() };
        assert(r@ =~= Seq::<FlitView>::empty());
        r
    }

    pub fn push(&mut self, flit: &Flit)
        ensures
            final(self)@ == old(self)@.push(flit@),
    {
        self.flit_buffer.push(flit.clone());
        assert(self@ =~= old(self)@.push(flit@));
    }

    pub fn pop(&mut self) -> (r: Option<Flit>)
        ensures
            match r {
                Some(f) => old(self)@.len() > 0 && f@ == old(self)@[0] && final(self)@ == old(
                    self,
                )@.subrange(1, old(self)@.len() as int),
                None => old(self)@.len() == 0 && final(self)@ == old(self)@,
            },
    {
        if self.flit_buffer.len() == 0 {
            None
        } else {
            let f = self.flit_buffer.remove(0);
            assert(self@ =~= old(self)@.subrange(1, old(self)@.len() as int));
            Some(f)
        }
    }

    pub fn clear(&mut self)
        ensures
            final(self)@ == Seq::<FlitView>::empty(),
    {
        self.flit_buffer.clear();
        assert(self@ =~= Seq::<FlitView>::empty());
    }

    pub fn is_empty(&self) -> (b: bool)
        ensures
            b == (self@.len() == 0),
    {
        self.flit_buffer.len() == 0
    }

    pub fn len(&self) -> (n: usize)
        ensures
            n == self@.len(),
    {
        self.flit_buffer.len()
    }

    fn holds(&self, flit: &Flit) -> (b: bool)
        ensures
            b == self@.contains(flit@),
    {
        let mut i: usize = 0;
        while i < self.flit_buffer.len()
            invariant
                i <= self.flit_buffer@.len(),
                forall|j: int| 0 <= j < i ==> self@[j] != flit@,
            decreases self.flit_buffer@.len() - i,
        {
            if self.flit_buffer[i].same(flit) {
                assert(self@[i as int] == flit@);
                return true;
            }
            i = i + 1;
        }
        false
    }

    /// Drops every flit that equals an earlier one, then orders the rest by
    /// their position in the packet; flits of equal position keep their order.
    pub fn remove_duplicate_and_sort(&mut self)
        ensures
            final(self)@ == stable_sort(dedup(old(self)@)),
            is_sorted(final(self)@),
            final(self)@.no_duplicates(),
            forall|v: FlitView| #[trigger] final(self)@.contains(v) <==> old(self)@.contains(v),
    {
        let mut unique = FlitBuffer::new();
        let mut i: usize = 0;
        while i < self.flit_buffer.len()
            invariant
                i <= self.flit_buffer@.len(),
                unique@ == dedup(self@.subrange(0, i as int)),
            decreases self.flit_buffer@.len() - i,
        {
            proof {
                let next = self@.subrange(0, i + 1);
                assert(next.drop_last() =~= self@.subrange(0, i as int));
                assert(next.last() == self@[i as int]);
            }
            if !unique.holds(&self.flit_buffer[i]) {
                unique.push(&self.flit_buffer[i]);
            }
            i = i + 1;
        }
        assert(self@.subrange(0, self@.len() as int) =~= self@);
        let mut sorted: Vec<Flit> = Vec::new();
        let mut k: usize = 0;
        proof {
            lemma_stable_sort(unique@.subrange(0, 0));
        }
        while k < unique.flit_buffer.len()
            invariant
                k <= unique.flit_buffer@.len(),
                sorted.deep_view() == stable_sort(unique@.subrange(0, k as int)),
                is_sorted(sorted.deep_view()),
                sorted@.len() == k,
            decreases unique.flit_buffer@.len() - k,
        {
            let x = unique.flit_buffer[k].clone();
            let key = key_of(&x);
            let mut j: usize = sorted.len();
            while j > 0 && key_of(&sorted[j - 1]) > key
                invariant
                    j <= sorted@.len(),
                    key == sort_key(x@),
                    forall|m: int| j <= m < sorted@.len() ==> sort_key(sorted.deep_view()[m])
                        > sort_key(x@),
                decreases j,
            {
                j = j - 1;
            }
            proof {
                let next = unique@.subrange(0, k + 1);
                assert(next.drop_last() =~= unique@.subrange(0, k as int));
                assert(next.last() == x@);
                if j > 0 {
                    assert(sort_key(sorted.deep_view()[j - 1]) <= sort_key(x@));
                }
                lemma_insert_at(sorted.deep_view(), x@, j as int);
                lemma_insert_sorted(sorted.deep_view(), x@);
            }
            let ghost before = sorted.deep_view();
            sorted.insert(j, x);
            assert(sorted.deep_view() =~= before.insert(j as int, x@));
            k = k + 1;
        }
        proof {
            assert(unique@.subrange(0, unique@.len() as int) =~= unique@);
            lemma_dedup(old(self)@);
            lemma_stable_sort(dedup(old(self)@));
            lemma_sort_keeps_distinct(dedup(old(self)@));
        }
        self.flit_buffer = sorted;
    }
}

/// Inserting a flit that is new keeps the flits distinct.
proof fn lemma_insert_keeps_distinct(s: Seq<FlitView>, x: FlitView)
    requires
        s.no_duplicates(),
        !s.contains(x),
    ensures
        insert_sorted(s, x).no_duplicates(),
    decreases s.len(),
{
    let r = insert_sorted(s, x);
    if s.len() == 0 {
    } else if sort_key(s.last()) <= sort_key(x) {
        assert forall|a: int, b: int| 0 <= a < r.len() && 0 <= b < r.len() && a != b implies r[a]
            != r[b] by {
            if a < s.len() && b < s.len() {
            } else if a < s.len() {
                assert(s.contains(s[a]));
            } else {
                assert(s.contains(s[b]));
            }
        }
    } else {
        let t = s.drop_last();
        let q = insert_sorted(t, x);
        assert(t.no_duplicates());
        assert(!t.contains(x)) by {
            if t.contains(x) {
                let k = choose|k: int| 0 <= k < t.len() && t[k] == x;
                assert(s[k] == x);
            }
        }
        lemma_insert_keeps_distinct(t, x);
        lemma_insert_members(t, x);
        assert forall|a: int, b: int| 0 <= a < r.len() && 0 <= b < r.len() && a != b implies r[a]
            != r[b] by {
            if a < q.len() && b < q.len() {
            } else {
                let c = if a < q.len() { a } else { b };
                assert(q.contains(q[c]));
                if q[c] == s.last() {
                    assert(s.last() != x) by {
                        assert(s[s.len() - 1] == s.last());
                    }
                    let k = choose|k: int| 0 <= k < t.len() && t[k] == q[c];
                    assert(s[k] == s[s.len() - 1]);
                }
            }
        }
    }
}

/// What an insertion holds, whatever the order of `s`.
proof fn lemma_insert_members(s: Seq<FlitView>, x: FlitView)
    ensures
        insert_sorted(s, x).len() == s.len() + 1,
        forall|v: FlitView| #[trigger] insert_sorted(s, x).contains(v) ==> (v == x || s.contains(v)),
    decreases s.len(),
{
    let r = insert_sorted(s, x);
    if s.len() == 0 {
    } else if sort_key(s.last()) <= sort_key(x) {
        assert forall|v: FlitView| #[trigger] r.contains(v) implies (v == x || s.contains(v)) by {
            let i = choose|i: int| 0 <= i < r.len() && r[i] == v;
            if i < s.len() {
                assert(s[i] == v);
            }
        }
    } else {
        let t = s.drop_last();
        let q = insert_sorted(t, x);
        lemma_insert_members(t, x);
        assert forall|v: FlitView| #[trigger] r.contains(v) implies (v == x || s.contains(v)) by {
            let i = choose|i: int| 0 <= i < r.len() && r[i] == v;
            if i < q.len() {
                assert(q.contains(v));
                if v != x {
                    let k = choose|k: int| 0 <= k < t.len() && t[k] == v;
                    assert(s[k] == v);
                }
            } else {
                assert(s[s.len() - 1] == v);
            }
        }
    }
}

/// Sorting distinct flits leaves them distinct.
proof fn lemma_sort_keeps_distinct(s: Seq<FlitView>)
    requires
        s.no_duplicates(),
    ensures
        stable_sort(s).no_duplicates(),
    decreases s.len(),
{
    if s.len() > 0 {
        let t = s.drop_last();
        lemma_sort_keeps_distinct(t);
        lemma_stable_sort(t);
        assert(!stable_sort(t).contains(s.last())) by {
            if t.contains(s.last()) {
                let k = choose|k: int| 0 <= k < t.len() && t[k] == s.last();
                assert(s[k] == s[s.len() - 1]);
            }
        }
        lemma_insert_keeps_distinct(stable_sort(t), s.last());
    }
}

/// The key under which the flits of one packet are collected: the name of
/// the packet's source, a hyphen, and the packet's number in decimal digits.
pub open spec fn bucket_key(source: Seq<char>, packet_id: u32) -> Seq<char> {
    source + "-"@ + decimal(packet_id as nat)
}

/// Whether ordered flits make up a packet: a header comes first, and a tail
/// last; or the header of a one-flit packet stands alone.
pub open spec fn assembles(flits: Seq<FlitView>) -> bool {
    &&& flits.len() > 0
    &&& flits[0] is Header
    &&& (flits.last() is Tail || (flits.len() == 1 && flits[0].is_last()))
}

/// The packet that ordered flits make up: their payloads joined, with the
/// addresses of the last flit.
pub open spec fn assembled(flits: Seq<FlitView>) -> PacketView {
    let tail = flits.last();
    PacketView {
        data: spec_flits_to_data(flits),
        source_id: tail.source_id().unwrap(),
        dest_id: tail.dest_id().unwrap(),
        next_id: tail.next_id().unwrap(),
        prev_id: tail.prev_id().unwrap(),
        packet_id: tail.packet_id().unwrap(),
        channel_id: tail.channel_id().unwrap(),
    }
}

/// The flits that have arrived, collected by packet until the packet is
/// complete.
#[derive(Debug)]
pub struct ReceivedFlitsBuffer {
    pub buffer: StrMap<FlitBuffer>,
}

impl View for ReceivedFlitsBuffer {
    type V = Map<Seq<char>, Seq<FlitView>>;

    open spec fn view(&self) -> Map<Seq<char>, Seq<FlitView>> {
        self.buffer@.map_values(|b: FlitBuffer| b@)
    }
}

fn make_key(from_id: &str, packet_id: u32) -> (key: String)
    ensures
        key@ == bucket_key(from_id@, packet_id),
{
    let mut key = String::from_str(from_id);
    key.append("-");
    let digits = u32_to_string(packet_id);
    key.append(digits.as_str());
    key
}

impl ReceivedFlitsBuffer {
    pub open spec fn wf(&self) -> bool {
        self.buffer.wf()
    }

    /// The flits collected under `key`; none where the key is unknown.
    pub open spec fn flits_of(&self, key: Seq<char>) -> Seq<FlitView> {
        if self@.contains_key(key) {
            self@[key]
        } else {
            Seq::empty()
        }
    }

    pub fn new() -> (r: Self)
        ensures
            r.wf(),
            r@ == Map::<Seq<char>, Seq<FlitView>>::empty(),
    {
        let r = ReceivedFlitsBuffer { buffer: StrMap::new() };
        assert(r@ =~= Map::<Seq<char>, Seq<FlitView>>::empty());
        r
    }

    /// Adds a flit to the flits of its packet.
    pub fn push_flit(&mut self, flit: &Flit)
        requires
            old(self).wf(),
            !(flit@ is Empty),
        ensures
            final(self).wf(),
            ({
                let key = bucket_key(flit@.source_id().unwrap(), flit@.packet_id().unwrap());
                final(self)@ == old(self)@.insert(key, old(self).flits_of(key).push(flit@))
            }),
    {
        let from_id = flit.get_source_id().unwrap();
        let packet_id = flit.get_packet_id().unwrap();
        let key = make_key(from_id.as_str(), packet_id);
        let mut bucket = match self.buffer.remove(key.as_str()) {
            Some(b) => b,
            None => FlitBuffer::new(),
        };
        bucket.push(flit);
        self.buffer.insert(key.as_str(), bucket);
        assert(self@ =~= old(self)@.insert(key@, old(self).flits_of(key@).push(flit@)));
    }

    /// Takes the packet `packet_id` of `from_id` out of the buffer, if its
    /// flits make one up. The flits under the key lose their repetitions and
    /// are put in order in any case; they leave the buffer with the packet.
    pub fn pop_packet(&mut self, from_id: &str, packet_id: u32) -> (r: Option<Packet>)
        requires
            old(self).wf(),
        ensures
            final(self).wf(),
            ({
                let key = bucket_key(from_id@, packet_id);
                let flits = stable_sort(dedup(old(self).flits_of(key)));
                if !old(self)@.contains_key(key) {
                    r is None && final(self)@ == old(self)@
                } else if assembles(flits) {
                    &&& r matches Some(p) && p@ == assembled(flits)
                    &&& final(self)@ == old(self)@.insert(key, Seq::empty())
                } else {
                    r is None && final(self)@ == old(self)@.insert(key, flits)
                }
            }),
    {
        let key = make_key(from_id, packet_id);
        match self.buffer.remove(key.as_str()) {
            None => {
                assert(self@ =~= old(self)@);
                None
            },
            Some(b) => {
                let mut bucket = b;
                bucket.remove_duplicate_and_sort();
                let n = bucket.flit_buffer.len();
                let complete = n > 0 && bucket.flit_buffer[0].is_header() && (bucket.flit_buffer[n
                    - 1].is_tail() || (n == 1 && bucket.flit_buffer[0].is_last()));
                if complete {
                    let data = flits_to_data(&bucket.flit_buffer);
                    let tail = &bucket.flit_buffer[n - 1];
                    let packet = Packet {
                        data,
                        source_id: tail.get_source_id().unwrap(),
                        dest_id: tail.get_dest_id().unwrap(),
                        next_id: tail.get_next_id().unwrap(),
                        prev_id: tail.get_prev_id().unwrap(),
                        packet_id: tail.get_packet_id().unwrap(),
                        channel_id: tail.get_channel_id().unwrap(),
                    };
                    self.buffer.insert(key.as_str(), FlitBuffer::new());
                    assert(self@ =~= old(self)@.insert(key@, Seq::empty()));
                    Some(packet)
                } else {
                    let ghost flits = bucket@;
                    self.buffer.insert(key.as_str(), bucket);
                    assert(self@ =~= old(self)@.insert(key@, flits));
                    None
                }
            },
        }
    }
}

} // verus!
