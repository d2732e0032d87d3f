use vstd::prelude::*;
use vstd::string::*;
use crate::error::SimError;
use crate::str_map::StrMap;

verus! {

/// The arrival of one flit.
#[derive(Debug, PartialEq, Eq)]
pub struct FlitLog {
    pub received_cycle: u32,
    pub from_id: String,
    pub dest_id: String,
}

pub struct FlitLogView {
    pub received_cycle: u32,
    pub from_id: Seq<char>,
    pub dest_id: Seq<char>,
}

impl View for FlitLog {
    type V = FlitLogView;

    open spec fn view(&self) -> FlitLogView {
        FlitLogView {
            received_cycle: self.received_cycle,
            from_id: self.from_id@,
            dest_id: self.dest_id@,
        }
    }
}

impl DeepView for FlitLog {
    type V = FlitLogView;

    open spec fn deep_view(&self) -> FlitLogView {
        self@
    }
}

impl Clone for FlitLog {
    fn clone(&self) -> (r: Self)
        ensures
            r@ == self@,
    {
        FlitLog {
            received_cycle: self.received_cycle,
            from_id: self.from_id.clone(),
            dest_id: self.dest_id.clone(),
        }
    }
}

/// What is known of one packet: where it started, which nodes sent its
/// header on, and when it arrived.
#[derive(Debug, PartialEq, Eq)]
pub struct PacketLog {
    pub packet_id: String,
    pub from_id: String,
    pub dest_id: String,
    pub send_cycle: Option<u32>,
    pub last_receive_cycle: Option<u32>,
    pub flits_len: u32,
    pub route_info: Vec<String>,
    pub flit_logs: Vec<FlitLog>,
    pub is_delivered: bool,
    pub message: String,
    pub channel_id: u8,
}

pub struct PacketLogView {
    pub packet_id: Seq<char>,
    pub from_id: Seq<char>,
    pub dest_id: Seq<char>,
    pub send_cycle: Option<u32>,
    pub last_receive_cycle: Option<u32>,
    pub flits_len: u32,
    pub route_info: Seq<Seq<char>>,
    pub flit_logs: Seq<FlitLogView>,
    pub is_delivered: bool,
    pub message: Seq<char>,
    pub channel_id: u8,
}

impl View for PacketLog {
    type V = PacketLogView;

    open spec fn view(&self) -> PacketLogView {
        PacketLogView {
            packet_id: self.packet_id@,
            from_id: self.from_id@,
            dest_id: self.dest_id@,
            send_cycle: self.send_cycle,
            last_receive_cycle: self.last_receive_cycle,
            flits_len: self.flits_len,
            route_info: self.route_info.deep_view(),
            flit_logs: self.flit_logs.deep_view(),
            is_delivered: self.is_delivered,
            message: self.message@,
            channel_id: self.channel_id,
        }
    }
}

impl DeepView for PacketLog {
    type V = PacketLogView;

    open spec fn deep_view(&self) -> PacketLogView {
        self@
    }
}

fn clone_names(names: &Vec<String>) -> (r: Vec<String>)
    ensures
        r.deep_view() == names.deep_view(),
{
    let mut r: Vec<String> = Vec::new();
    let mut i: usize = 0;
    while i < names.len()
        invariant
            i <= names@.len(),
            r.deep_view() =~= names.deep_view().subrange(0, i as int),
        decreases names@.len() - i,
    {
        let ghost before = r.deep_view();
        r.push(names[i].clone());
        assert(r.deep_view() =~= before.push(names@[i as int]@));
        i = i + 1;
    }
    assert(names.deep_view().subrange(0, names@.len() as int) =~= names.deep_view());
    r
}

fn clone_flit_logs(logs: &Vec<FlitLog>) -> (r: Vec<FlitLog>)
    ensures
        r.deep_view() == logs.deep_view(),
{
    let mut r: Vec<FlitLog> = Vec::new();
    let mut i: usize = 0;
    while i < logs.len()
        invariant
            i <= logs@.len(),
            r.deep_view() =~= logs.deep_view().subrange(0, i as int),
        decreases logs@.len() - i,
    {
        let ghost before = r.deep_view();
        r.push(logs[i].clone());
        assert(r.deep_view() =~= before.push(logs@[i as int]@));
        i = i + 1;
    }
    assert(logs.deep_view().subrange(0, logs@.len() as int) =~= logs.deep_view());
    r
}

impl Clone for PacketLog {
    fn clone(&self) -> (r: Self)
        ensures
            r@ == self@,
    {
        PacketLog {
            packet_id: self.packet_id.clone(),
            from_id: self.from_id.clone(),
            dest_id: self.dest_id.clone(),
            send_cycle: self.send_cycle,
            last_receive_cycle: self.last_receive_cycle,
            flits_len: self.flits_len,
            route_info: clone_names(&self.route_info),
            flit_logs: clone_flit_logs(&self.flit_logs),
            is_delivered: self.is_delivered,
            message: self.message.clone(),
            channel_id: self.channel_id,
        }
    }
}

impl PacketLogView {
    /// A packet's route starts at its source.
    pub open spec fn route_starts_at_source(self) -> bool {
        self.route_info.len() > 0 && self.route_info[0] == self.from_id
    }
}

/// A packet that a node has just made.
#[derive(Debug)]
pub struct NewPacketLogInfo {
    pub packet_id: String,
    pub from_id: String,
    pub dest_id: String,
    pub flits_len: u32,
    pub message: String,
    pub channel_id: u8,
}

/// The arrival of one flit, as it is reported.
#[derive(Debug)]
pub struct FlitLogInfo {
    pub received_cycle: u32,
    pub from_id: String,
    pub dest_id: String,
    pub flit_num: u32,
}

pub struct NewPacketLogInfoView {
    pub packet_id: Seq<char>,
    pub from_id: Seq<char>,
    pub dest_id: Seq<char>,
    pub flits_len: u32,
    pub message: Seq<char>,
    pub channel_id: u8,
}

impl View for NewPacketLogInfo {
    type V = NewPacketLogInfoView;

    open spec fn view(&self) -> NewPacketLogInfoView {
        NewPacketLogInfoView {
            packet_id: self.packet_id@,
            from_id: self.from_id@,
            dest_id: self.dest_id@,
            flits_len: self.flits_len,
            message: self.message@,
            channel_id: self.channel_id,
        }
    }
}

impl FlitLogInfo {
    /// The arrival as the log keeps it: without the flit's position.
    pub open spec fn spec_flit_log(&self) -> FlitLogView {
        FlitLogView {
            received_cycle: self.received_cycle,
            from_id: self.from_id@,
            dest_id: self.dest_id@,
        }
    }

    pub fn to_flit_log(&self) -> (r: FlitLog)
        ensures
            r@ == self.spec_flit_log(),
    {
        FlitLog {
            received_cycle: self.received_cycle,
            from_id: self.from_id.clone(),
            dest_id: self.dest_id.clone(),
        }
    }
}

/// What has become known of a packet; a field that is `None` leaves the
/// record as it is.
#[derive(Debug)]
pub struct UpdatePacketLogInfo {
    pub send_cycle: Option<u32>,
    pub last_receive_cycle: Option<u32>,
    pub route_info: Option<String>,
    pub is_delivered: Option<bool>,
    pub flit_log: Option<FlitLogInfo>,
}

pub struct UpdatePacketLogInfoView {
    pub send_cycle: Option<u32>,
    pub last_receive_cycle: Option<u32>,
    pub route_info: Option<Seq<char>>,
    pub is_delivered: Option<bool>,
    pub flit_log: Option<FlitLogView>,
}

impl View for UpdatePacketLogInfo {
    type V = UpdatePacketLogInfoView;

    open spec fn view(&self) -> UpdatePacketLogInfoView {
        UpdatePacketLogInfoView {
            send_cycle: self.send_cycle,
            last_receive_cycle: self.last_receive_cycle,
            route_info: match self.route_info {
                Some(hop) => Some(hop@),
                None => None,
            },
            is_delivered: self.is_delivered,
            flit_log: match self.flit_log {
                Some(f) => Some(f.spec_flit_log()),
                None => None,
            },
        }
    }
}

/// Two or more flits that reached one node in the same cycle.
#[derive(Debug)]
pub struct CollisionInfo {
    pub cycle: u32,
    pub from_ids: Vec<String>,
    pub dest_id: String,
}

pub struct CollisionInfoView {
    pub cycle: u32,
    pub from_ids: Seq<Seq<char>>,
    pub dest_id: Seq<char>,
}

impl View for CollisionInfo {
    type V = CollisionInfoView;

    open spec fn view(&self) -> CollisionInfoView {
        CollisionInfoView {
            cycle: self.cycle,
            from_ids: self.from_ids.deep_view(),
            dest_id: self.dest_id@,
        }
    }
}

impl DeepView for CollisionInfo {
    type V = CollisionInfoView;

    open spec fn deep_view(&self) -> CollisionInfoView {
        self@
    }
}

/// A collision, as it is reported.
#[derive(Debug)]
pub struct NewCollisionInfo {
    pub cycle: u32,
    pub from_ids: Vec<String>,
    pub dest_id: String,
}

/// The record of a run: one entry for each packet, and the collisions.
#[derive(Debug)]
pub struct Log {
    pub packets_info: StrMap<PacketLog>,
    pub collision_info: Vec<CollisionInfo>,
}

impl Log {
    /// The entries by packet id.
    pub open spec fn packets(&self) -> Map<Seq<char>, PacketLogView> {
        self.packets_info@.map_values(|l: PacketLog| l@)
    }

    pub open spec fn collisions(&self) -> Seq<CollisionInfoView> {
        self.collision_info.deep_view()
    }

    /// Each key has one entry, and the route of each packet starts at its
    /// source.
    pub open spec fn wf(&self) -> bool {
        &&& self.packets_info.wf()
        &&& forall|id: Seq<char>| #[trigger]
            self.packets().contains_key(id) ==> self.packets()[id].route_starts_at_source()
    }

    pub fn new() -> (r: Self)
        ensures
            r.wf(),
            r.packets() == Map::<Seq<char>, PacketLogView>::empty(),
            r.collisions() == Seq::<CollisionInfoView>::empty(),
    {
        let r = Log { packets_info: StrMap::new(), collision_info: Vec::new() };
        assert(r.packets() =~= Map::<Seq<char>, PacketLogView>::empty());
        assert(r.collisions() =~= Seq::<CollisionInfoView>::empty());
        r
    }
}

/// The entry that a new packet gets: nothing sent or received yet, and a
/// route that holds the source alone.
pub open spec fn fresh_entry(info: NewPacketLogInfoView) -> PacketLogView {
    PacketLogView {
        packet_id: info.packet_id,
        from_id: info.from_id,
        dest_id: info.dest_id,
        send_cycle: None,
        last_receive_cycle: None,
        flits_len: info.flits_len,
        route_info: seq![info.from_id],
        flit_logs: Seq::empty(),
        is_delivered: false,
        message: info.message,
        channel_id: info.channel_id,
    }
}

/// Enters a new packet, in place of any entry of the same id, and returns
/// the entry.
pub fn post_new_packet_log(log: &mut Log, packet_info: &NewPacketLogInfo) -> (r: Result<
    PacketLog,
    SimError,
>)
    requires
        old(log).wf(),
    ensures
        final(log).wf(),
        r matches Ok(e) && e@ == fresh_entry(packet_info@),
        final(log).packets() == old(log).packets().insert(
            packet_info.packet_id@,
            fresh_entry(packet_info@),
        ),
        final(log).collisions() == old(log).collisions(),
{
    let mut route: Vec<String> = Vec::new();
    route.push(packet_info.from_id.clone());
    let packet_log = PacketLog {
        packet_id: packet_info.packet_id.clone(),
        from_id: packet_info.from_id.clone(),
        dest_id: packet_info.dest_id.clone(),
        send_cycle: None,
        last_receive_cycle: None,
        flits_len: packet_info.flits_len,
        route_info: route,
        flit_logs: Vec::new(),
        is_delivered: false,
        message: packet_info.message.clone(),
        channel_id: packet_info.channel_id,
    };
    assert(packet_log@.route_info =~= seq![packet_info.from_id@]);
    assert(packet_log@.flit_logs =~= Seq::<FlitLogView>::empty());
    let r = packet_log.clone();
    log.packets_info.insert(packet_info.packet_id.as_str(), packet_log);
    assert(log.packets() =~= old(log).packets().insert(packet_info.packet_id@, r@));
    Ok(r)
}

/// An entry after an update: each field that the update names is set, a
/// route step and a flit arrival are added at the end.
pub open spec fn updated_entry(e: PacketLogView, u: UpdatePacketLogInfoView) -> PacketLogView {
    PacketLogView {
        send_cycle: if u.send_cycle is Some {
            u.send_cycle
        } else {
            e.send_cycle
        },
        last_receive_cycle: if u.last_receive_cycle is Some {
            u.last_receive_cycle
        } else {
            e.last_receive_cycle
        },
        route_info: match u.route_info {
            Some(hop) => e.route_info.push(hop),
            None => e.route_info,
        },
        is_delivered: match u.is_delivered {
            Some(d) => d,
            None => e.is_delivered,
        },
        flit_logs: match u.flit_log {
            Some(f) => e.flit_logs.push(f),
            None => e.flit_logs,
        },
        ..e
    }
}

/// Brings the entry of `packet_id` up to date and returns it. A packet
/// without entry gets none, and the update is refused.
pub fn update_packet_log(log: &mut Log, packet_id: &str, update: &UpdatePacketLogInfo) -> (r:
    Result<PacketLog, SimError>)
    requires
        old(log).wf(),
    ensures
        final(log).wf(),
        final(log).collisions() == old(log).collisions(),
        match r {
            Ok(e) => old(log).packets().contains_key(packet_id@) && e@ == updated_entry(
                old(log).packets()[packet_id@],
                update@,
            ) && final(log).packets() == old(log).packets().insert(packet_id@, e@),
            Err(e) => !old(log).packets().contains_key(packet_id@) && final(log).packets() == old(
                log,
            ).packets() && e == SimError::UnknownPacket,
        },
{
    match log.packets_info.get(packet_id) {
        None => {
            Err(SimError::UnknownPacket)
        },
        Some(entry) => {
            let mut packet_log = entry.clone();
            let ghost before = packet_log@;
            assert(old(log).packets().contains_key(packet_id@));
            assert(before == old(log).packets()[packet_id@]);
            assert(before.route_starts_at_source());
            if let Some(send_cycle) = update.send_cycle {
                packet_log.send_cycle = Some(send_cycle);
            }
            if let Some(last_receive_cycle) = update.last_receive_cycle {
                packet_log.last_receive_cycle = Some(last_receive_cycle);
            }
            if let Some(route_info) = &update.route_info {
                packet_log.route_info.push(route_info.clone());
                assert(packet_log.route_info.deep_view() =~= before.route_info.push(route_info@));
            }
            if let Some(is_delivered) = update.is_delivered {
                packet_log.is_delivered = is_delivered;
            }
            if let Some(flit_log) = &update.flit_log {
                packet_log.flit_logs.push(flit_log.to_flit_log());
                assert(packet_log.flit_logs.deep_view() =~= before.flit_logs.push(
                    flit_log.spec_flit_log(),
                ));
            }
            assert(packet_log@ == updated_entry(before, update@));
            let r = packet_log.clone();
            log.packets_info.insert(packet_id, packet_log);
            assert(log.packets() =~= old(log).packets().insert(packet_id@, r@));
            Ok(r)
        },
    }
}

pub fn get_packet_log(log: &Log, packet_id: &str) -> (r: Option<PacketLog>)
    requires
        log.wf(),
    ensures
        match r {
            Some(e) => log.packets().contains_key(packet_id@) && e@ == log.packets()[packet_id@]
                && e@.route_starts_at_source(),
            None => !log.packets().contains_key(packet_id@),
        },
{
    match log.packets_info.get(packet_id) {
        Some(e) => Some(e.clone()),
        None => None,
    }
}

/// Whether the packet has reached its destination; a packet without entry
/// has not.
pub fn packet_is_received(log: &Log, packet_id: &str) -> (b: bool)
    requires
        log.wf(),
    ensures
        b == (log.packets().contains_key(packet_id@)
            && log.packets()[packet_id@].last_receive_cycle is Some),
{
    match log.packets_info.get(packet_id) {
        Some(e) => e.last_receive_cycle.is_some(),
        None => false,
    }
}

/// Every entry, in the order in which the packet ids came.
pub fn get_all_log(log: &Log) -> (r: Vec<PacketLog>)
    requires
        log.wf(),
    ensures
        r.deep_view() == log.packets_info.vals.deep_view(),
        forall|i: int|
            0 <= i < r@.len() ==> log.packets().contains_key(#[trigger] log.packets_info.keys@[i]@)
                && r@[i]@ == log.packets()[log.packets_info.keys@[i]@],
{
    let mut r: Vec<PacketLog> = Vec::new();
    let mut i: usize = 0;
    while i < log.packets_info.vals.len()
        invariant
            log.wf(),
            i <= log.packets_info.vals@.len(),
            r.deep_view() =~= log.packets_info.vals.deep_view().subrange(0, i as int),
        decreases log.packets_info.vals@.len() - i,
    {
        let ghost before = r.deep_view();
        r.push(log.packets_info.vals[i].clone());
        assert(r.deep_view() =~= before.push(log.packets_info.vals@[i as int]@));
        i = i + 1;
    }
    proof {
        assert(log.packets_info.vals.deep_view().subrange(0, log.packets_info.vals@.len() as int)
            =~= log.packets_info.vals.deep_view());
        assert forall|i: int| 0 <= i < r@.len() implies log.packets().contains_key(
            #[trigger] log.packets_info.keys@[i]@,
        ) && r@[i]@ == log.packets()[log.packets_info.keys@[i]@] by {
            log.packets_info.lemma_at(i);
            assert(r.deep_view()[i] == log.packets_info.vals.deep_view()[i]);
        }
    }
    r
}

/// What a log holds.
pub struct LogView {
    pub packets: Map<Seq<char>, PacketLogView>,
    pub collisions: Seq<CollisionInfoView>,
}

impl View for Log {
    type V = LogView;

    open spec fn view(&self) -> LogView {
        LogView { packets: self.packets(), collisions: self.collisions() }
    }
}

impl LogView {
    /// The log as it is before a run: without packets and collisions.
    pub open spec fn cleared(self) -> LogView {
        LogView { packets: Map::empty(), collisions: Seq::empty() }
    }
}

/// Clearing a cleared log changes nothing.
pub proof fn lemma_clear_log_idempotent(v: LogView)
    ensures
        v.cleared().cleared() == v.cleared(),
{
}

/// The route of a packet starts at its source when the packet is entered,
/// and after every update.
pub proof fn lemma_route_starts_at_source(
    info: NewPacketLogInfoView,
    e: PacketLogView,
    u: UpdatePacketLogInfoView,
)
    ensures
        fresh_entry(info).route_starts_at_source(),
        e.route_starts_at_source() ==> updated_entry(e, u).route_starts_at_source(),
{
}

impl PacketLogView {
    /// A delivered packet whose sending is known arrived no earlier than it
    /// was sent.
    pub open spec fn arrived_after_sending(self) -> bool {
        (self.is_delivered && self.send_cycle is Some) ==> (self.last_receive_cycle matches Some(r)
            && r >= self.send_cycle.unwrap())
    }
}

/// Forgets every packet and every collision: the log is as before a run.
pub fn clear_log(log: &mut Log)
    ensures
        final(log).wf(),
        final(log)@ == old(log)@.cleared(),
        final(log).packets() == Map::<Seq<char>, PacketLogView>::empty(),
        final(log).collisions() == Seq::<CollisionInfoView>::empty(),
{
    log.packets_info.clear();
    log.collision_info.clear();
    assert(log.packets() =~= Map::<Seq<char>, PacketLogView>::empty());
    assert(log.collisions() =~= Seq::<CollisionInfoView>::empty());
}

/// Enters a collision.
pub fn post_collision_info(log: &mut Log, info: &NewCollisionInfo)
    requires
        old(log).wf(),
    ensures
        final(log).wf(),
        final(log).packets() == old(log).packets(),
        final(log).collisions() == old(log).collisions().push(
            CollisionInfoView {
                cycle: info.cycle,
                from_ids: info.from_ids.deep_view(),
                dest_id: info.dest_id@,
            },
        ),
{
    let collision_info = CollisionInfo {
        cycle: info.cycle,
        from_ids: clone_names(&info.from_ids),
        dest_id: info.dest_id.clone(),
    };
    log.collision_info.push(collision_info);
    assert(log.packets() == old(log).packets());
    assert(log.collisions() =~= old(log).collisions().push(
        CollisionInfoView {
            cycle: info.cycle,
            from_ids: info.from_ids.deep_view(),
            dest_id: info.dest_id@,
        },
    ));
}

/// What a run has come to, in whole numbers.
#[derive(Debug)]
pub struct LogStats {
    /// For each delivered packet, the cycles from sending to arrival and the
    /// number of its flits.
    pub latencies: Vec<(u32, u32)>,
    pub undelivered_packets: usize,
    pub total_packets: usize,
    pub total_flits: u128,
    pub collision_count: usize,
}

pub struct LogStatsView {
    pub latencies: Seq<(u32, u32)>,
    pub undelivered_packets: int,
    pub total_packets: int,
    pub total_flits: int,
}

/// Whether an entry counts: its packet was sent in a cycle from `begin` up
/// to, but not including, `end`.
pub open spec fn counts(e: PacketLogView, begin: u32, end: u32) -> bool {
    e.send_cycle matches Some(c) && begin <= c < end
}

/// Whether an entry that counts is sound: a delivered packet has the cycle
/// of its arrival, which is not before the cycle in which it was sent.
pub open spec fn sound(e: PacketLogView) -> bool {
    e.is_delivered ==> (e.last_receive_cycle matches Some(r) && r >= e.send_cycle.unwrap())
}

/// The totals over the entries that count.
pub open spec fn stats_of(entries: Seq<PacketLogView>, begin: u32, end: u32) -> LogStatsView
    decreases entries.len(),
{
    if entries.len() == 0 {
        LogStatsView {
            latencies: Seq::empty(),
            undelivered_packets: 0,
            total_packets: 0,
            total_flits: 0,
        }
    } else {
        let rest = stats_of(entries.drop_last(), begin, end);
        let e = entries.last();
        if !counts(e, begin, end) {
            rest
        } else {
            LogStatsView {
                latencies: if e.is_delivered {
                    rest.latencies.push(
                        (
                            (e.last_receive_cycle.unwrap() - e.send_cycle.unwrap()) as u32,
                            e.flits_len,
                        ),
                    )
                } else {
                    rest.latencies
                },
                undelivered_packets: if e.is_delivered {
                    rest.undelivered_packets
                } else {
                    rest.undelivered_packets + 1
                },
                total_packets: rest.total_packets + 1,
                total_flits: rest.total_flits + e.flits_len,
            }
        }
    }
}

proof fn lemma_stats_bounds(entries: Seq<PacketLogView>, begin: u32, end: u32)
    ensures
        0 <= stats_of(entries, begin, end).undelivered_packets <= entries.len(),
        0 <= stats_of(entries, begin, end).total_packets <= entries.len(),
        0 <= stats_of(entries, begin, end).total_flits <= entries.len() * 0xffff_ffff,
    decreases entries.len(),
{
    if entries.len() > 0 {
        lemma_stats_bounds(entries.drop_last(), begin, end);
    }
}

/// Adds up the log over the packets sent from cycle `begin` up to, but not
/// including, `end`. Fails where an entry that counts is not sound.
pub fn collect_stats(log: &Log, begin: u32, end: u32) -> (r: Result<LogStats, SimError>)
    ensures
        ({
            let entries = log.packets_info.vals.deep_view();
            let all_sound = forall|i: int|
                0 <= i < entries.len() && counts(#[trigger] entries[i], begin, end) ==> sound(
                    entries[i],
                );
            match r {
                Ok(s) => {
                    &&& all_sound
                    &&& s.latencies@ == stats_of(entries, begin, end).latencies
                    &&& s.undelivered_packets == stats_of(entries, begin, end).undelivered_packets
                    &&& s.total_packets == stats_of(entries, begin, end).total_packets
                    &&& s.total_flits == stats_of(entries, begin, end).total_flits
                    &&& s.collision_count == log.collisions().len()
                },
                Err(e) => !all_sound && e == SimError::InconsistentLog,
            }
        }),
{
    let mut latencies: Vec<(u32, u32)> = Vec::new();
    let mut undelivered_packets: usize = 0;
    let mut total_packets: usize = 0;
    let mut total_flits: u128 = 0;
    let ghost entries = log.packets_info.vals.deep_view();
    let mut i: usize = 0;
    while i < log.packets_info.vals.len()
        invariant
            entries == log.packets_info.vals.deep_view(),
            i <= entries.len(),
            forall|j: int|
                0 <= j < i && counts(#[trigger] entries[j], begin, end) ==> sound(entries[j]),
            latencies@ == stats_of(entries.subrange(0, i as int), begin, end).latencies,
            undelivered_packets == stats_of(
                entries.subrange(0, i as int),
                begin,
                end,
            ).undelivered_packets,
            total_packets == stats_of(entries.subrange(0, i as int), begin, end).total_packets,
            total_flits == stats_of(entries.subrange(0, i as int), begin, end).total_flits,
        decreases entries.len() - i,
    {
        let e = &log.packets_info.vals[i];
        proof {
            let next = entries.subrange(0, i + 1);
            assert(next.drop_last() =~= entries.subrange(0, i as int));
            assert(next.last() == e@);
            assert(entries[i as int] == e@);
            lemma_stats_bounds(entries.subrange(0, i as int), begin, end);
            assert(entries.subrange(0, i as int).len() * 0xffff_ffff <= 0xffff_ffff_ffff_ffff
                * 0xffff_ffff) by (nonlinear_arith)
                requires
                    entries.subrange(0, i as int).len() <= 0xffff_ffff_ffff_ffff,
            ;
        }
        if let Some(send_cycle) = e.send_cycle {
            if begin <= send_cycle && send_cycle < end {
                if e.is_delivered {
                    match e.last_receive_cycle {
                        Some(received) if received >= send_cycle => {
                            latencies.push((received - send_cycle, e.flits_len));
                        },
                        _ => {
                            return Err(SimError::InconsistentLog);
                        },
                    }
                } else {
                    undelivered_packets = undelivered_packets + 1;
                }
                total_packets = total_packets + 1;
                total_flits = total_flits + e.flits_len as u128;
            }
        }
        i = i + 1;
    }
    assert(entries.subrange(0, entries.len() as int) =~= entries);
    Ok(
        LogStats {
            latencies,
            undelivered_packets,
            total_packets,
            total_flits,
            collision_count: log.collision_info.len(),
        },
    )
}

} // verus!
