//! Counter tables and the folding of parsed samples into them.

use vstd::prelude::*;
use crate::packet::spec_packet_header;
use crate::sflow::{is_flow_type, records_view, IpAddress, RecordType, RecordView, Sample, SampleType, SampleView};

verus! {

/// `a + b`, or `u64::MAX` where the sum does not fit.
pub open spec fn sat_add(a: u64, b: u64) -> u64 {
    if a + b > u64::MAX {
        u64::MAX
    } else {
        (a + b) as u64
    }
}

/// A packet count and a byte count. Both only grow: additions saturate.
#[derive(Debug, Clone, Copy, PartialEq, Eq, Structural)]
pub struct Counter {
    pub packets: u64,
    pub bytes: u64,
}

impl Counter {
    pub open spec fn zero() -> Counter {
        Counter { packets: 0, bytes: 0 }
    }

    pub open spec fn plus(self, packets: u64, bytes: u64) -> Counter {
        Counter { packets: sat_add(self.packets, packets), bytes: sat_add(self.bytes, bytes) }
    }

    pub fn add(&mut self, packets: u64, bytes: u64)
        ensures
            *final(self) == old(self).plus(packets, bytes),
    {
        self.packets = self.packets.saturating_add(packets);
        self.bytes = self.bytes.saturating_add(bytes);
    }
}

impl Default for Counter {
    fn default() -> (r: Counter)
        ensures
            r == Counter::zero(),
    {
        Counter { packets: 0, bytes: 0 }
    }
}

/// A key of a counter table, with an equality test that means equality.
pub trait TableKey: Copy + Sized {
    fn same(&self, other: &Self) -> (r: bool)
        ensures
            r == (*self == *other),
    ;
}

/// No key occurs twice among the entries `s`.
pub open spec fn keys_unique<K>(s: Seq<(K, Counter)>) -> bool {
    forall|i: int, j: int| 0 <= i < s.len() && 0 <= j < s.len() && s[i].0 == s[j].0 ==> i == j
}

/// The map that the entries `s` stand for.
pub open spec fn entries_map<K>(s: Seq<(K, Counter)>) -> Map<K, Counter>
    decreases s.len(),
{
    if s.len() == 0 {
        Map::empty()
    } else {
        entries_map(s.drop_last()).insert(s.last().0, s.last().1)
    }
}

/// The counter of `k` in `m`, zero where `m` has none.
pub open spec fn count_of<K>(m: Map<K, Counter>, k: K) -> Counter {
    if m.contains_key(k) {
        m[k]
    } else {
        Counter::zero()
    }
}

proof fn lemma_entries_map_index<K>(s: Seq<(K, Counter)>, i: int)
    requires
        keys_unique(s),
        0 <= i < s.len(),
    ensures
        entries_map(s).contains_key(s[i].0),
        entries_map(s)[s[i].0] == s[i].1,
    decreases s.len(),
{
    if i < s.len() - 1 {
        let d = s.drop_last();
        assert(d[i] == s[i]);
        lemma_entries_map_index(d, i);
    }
}

proof fn lemma_entries_map_absent<K>(s: Seq<(K, Counter)>, k: K)
    requires
        forall|i: int| 0 <= i < s.len() ==> s[i].0 != k,
    ensures
        !entries_map(s).contains_key(k),
    decreases s.len(),
{
    if s.len() > 0 {
        let d = s.drop_last();
        assert forall|i: int| 0 <= i < d.len() implies d[i].0 != k by {
            assert(d[i] == s[i]);
        }
        lemma_entries_map_absent(d, k);
    }
}

proof fn lemma_entries_map_update<K>(s: Seq<(K, Counter)>, i: int, c: Counter)
    requires
        keys_unique(s),
        0 <= i < s.len(),
    ensures
        entries_map(s.update(i, (s[i].0, c))) == entries_map(s).insert(s[i].0, c),
    decreases s.len(),
{
    let t = s.update(i, (s[i].0, c));
    if i == s.len() - 1 {
        assert(t.drop_last() =~= s.drop_last());
        assert(entries_map(t) =~= entries_map(s).insert(s[i].0, c));
    } else {
        let d = s.drop_last();
        assert(d[i] == s[i]);
        assert(t.drop_last() =~= d.update(i, (s[i].0, c)));
        lemma_entries_map_update(d, i, c);
        assert(s.last().0 != s[i].0);
        assert(entries_map(t) =~= entries_map(s).insert(s[i].0, c));
    }
}

/// A table of counters keyed by `K`, held as a list of entries with no key
/// twice.
pub struct CounterTable<K> {
    entries: Vec<(K, Counter)>,
}

impl<K> View for CounterTable<K> {
    type V = Map<K, Counter>;

    closed spec fn view(&self) -> Map<K, Counter> {
        entries_map(self.entries@)
    }
}

impl<K> CounterTable<K> {
    #[verifier::type_invariant]
    closed spec fn keys_are_unique(&self) -> bool {
        keys_unique(self.entries@)
    }
}

impl<K: TableKey> CounterTable<K> {
    pub fn new() -> (r: CounterTable<K>)
        ensures
            r@ == Map::<K, Counter>::empty(),
    {
        CounterTable { entries: Vec::new() }
    }

    fn find(&self, key: &K) -> (r: Option<usize>)
        ensures
            match r {
                Some(i) => i < self.entries@.len() && self.entries@[i as int].0 == *key,
                None => forall|i: int| 0 <= i < self.entries@.len() ==> self.entries@[i].0 != *key,
            },
    {
        let mut i: usize = 0;
        while i < self.entries.len()
            invariant
                i <= self.entries@.len(),
                forall|j: int| 0 <= j < i ==> self.entries@[j].0 != *key,
            decreases self.entries@.len() - i,
        {
            if self.entries[i].0.same(key) {
                return Some(i);
            }
            i = i + 1;
        }
        None
    }

    /// The counter of `key`, if the table has one.
    pub fn get(&self, key: &K) -> (r: Option<Counter>)
        ensures
            r == if self@.contains_key(*key) { Some(self@[*key]) } else { None::<Counter> },
    {
        proof {
            use_type_invariant(self);
        }
        match self.find(key) {
            Some(i) => {
                proof {
                    lemma_entries_map_index(self.entries@, i as int);
                }
                Some(self.entries[i].1)
            },
            None => {
                proof {
                    lemma_entries_map_absent(self.entries@, *key);
                }
                None
            },
        }
    }

    /// Adds `packets` and `bytes` to the counter of `key`, starting it at
    /// zero where the table has none.
    pub fn add(&mut self, key: K, packets: u64, bytes: u64)
        ensures
            final(self)@ == old(self)@.insert(key, count_of(old(self)@, key).plus(packets, bytes)),
            grows(old(self)@, final(self)@),
    {
        proof {
            use_type_invariant(&*self);
            lemma_add_grows(self@, key, packets, bytes);
        }
        let found = self.find(&key);
        let ghost before = self.entries@;
        // Work on the entries outside the table, so that the table itself
        // never holds a list with a key twice.
        let mut entries: Vec<(K, Counter)> = Vec::new();
        std::mem::swap(&mut self.entries, &mut entries);
        match found {
            Some(i) => {
                let mut c = entries[i].1;
                c.add(packets, bytes);
                proof {
                    lemma_entries_map_index(before, i as int);
                    lemma_entries_map_update(before, i as int, c);
                }
                entries.set(i, (key, c));
            },
            None => {
                proof {
                    lemma_entries_map_absent(before, key);
                }
                let mut c = Counter { packets: 0, bytes: 0 };
                c.add(packets, bytes);
                entries.push((key, c));
                proof {
                    assert(entries@.drop_last() =~= before);
                }
            },
        }
        self.entries = entries;
    }

    /// A copy of the table's entries, each key once.
    pub fn entries(&self) -> (r: Vec<(K, Counter)>)
        ensures
            keys_unique(r@),
            entries_map(r@) == self@,
    {
        proof {
            use_type_invariant(self);
        }
        let mut out: Vec<(K, Counter)> = Vec::new();
        let mut i: usize = 0;
        while i < self.entries.len()
            invariant
                i <= self.entries@.len(),
                out@ == self.entries@.take(i as int),
            decreases self.entries@.len() - i,
        {
            out.push(self.entries[i]);
            i = i + 1;
            proof {
                assert(out@ =~= self.entries@.take(i as int));
            }
        }
        proof {
            assert(out@ =~= self.entries@);
        }
        out
    }
}

/// The key of a flow: both MACs (48-bit values, first octet most
/// significant), the VLAN id (0 if unknown) and the ethertype.
#[derive(Debug, Clone, Copy, PartialEq, Eq, Structural)]
pub struct FlowCounterKey {
    pub src_mac: u64,
    pub dst_mac: u64,
    pub vlan: u32,
    pub protocol: u32,
}

/// The key of the per-agent, per-kind table: the agent address declared in
/// the datagram and the sample's numeric type.
#[derive(Debug, Clone, Copy, PartialEq, Eq, Structural)]
pub struct AgentSampleKey {
    pub agent: IpAddress,
    pub sample_type: u32,
}

impl TableKey for IpAddress {
    fn same(&self, other: &Self) -> (r: bool) {
        *self == *other
    }
}

impl TableKey for FlowCounterKey {
    fn same(&self, other: &Self) -> (r: bool) {
        *self == *other
    }
}

impl TableKey for AgentSampleKey {
    fn same(&self, other: &Self) -> (r: bool) {
        *self == *other
    }
}

/// Datagrams per UDP source address.
pub type SourceCounter = CounterTable<IpAddress>;

/// Samples per agent and sample kind.
pub type AgentCounter = CounterTable<AgentSampleKey>;

/// Sampling-rate expanded traffic per flow.
pub type FlowCounter = CounterTable<FlowCounterKey>;

pub open spec fn zero_key() -> FlowCounterKey {
    FlowCounterKey { src_mac: 0, dst_mac: 0, vlan: 0, protocol: 0 }
}

/// What one record does to the flow key: a raw packet header sets the MACs,
/// the ethertype and, when tagged, the VLAN; an Ethernet frame record sets
/// the MACs and ethertype; extended switch data sets the VLAN.
pub open spec fn key_step(key: FlowCounterKey, r: RecordView) -> FlowCounterKey {
    match r {
        RecordView::RawPacket(p) => {
            let h = spec_packet_header(p.protocol, p.header);
            FlowCounterKey {
                src_mac: h.src_mac,
                dst_mac: h.dst_mac,
                vlan: match h.vlan {
                    Some(v) => v as u32,
                    None => key.vlan,
                },
                protocol: h.ethertype as u32,
            }
        },
        RecordView::EthernetFrame(e) => FlowCounterKey {
            src_mac: e.src_mac,
            dst_mac: e.dst_mac,
            vlan: key.vlan,
            protocol: e.ethertype,
        },
        RecordView::ExtendedSwitch(x) => FlowCounterKey { vlan: x.src_vlan, ..key },
        _ => key,
    }
}

/// The frame length that a record reports, if it reports one: raw packet
/// headers and IPv4/IPv6 flow data do.
pub open spec fn reported_length(r: RecordView) -> Option<u32> {
    match r {
        RecordView::RawPacket(p) => Some(p.frame_length),
        RecordView::Ipv4(f) => Some(f.length),
        RecordView::Ipv6(f) => Some(f.length),
        _ => None,
    }
}

/// The flow key that the records of a sample build, in order, from the
/// all-zero key.
pub open spec fn flow_key(records: Seq<RecordView>) -> FlowCounterKey
    decreases records.len(),
{
    if records.len() == 0 {
        zero_key()
    } else {
        key_step(flow_key(records.drop_last()), records.last())
    }
}

/// The frame length reported by the last record that reports one; zero
/// if none does.
pub open spec fn last_length(records: Seq<RecordView>) -> u32
    decreases records.len(),
{
    if records.len() == 0 {
        0
    } else {
        match reported_length(records.last()) {
            Some(l) => l,
            None => last_length(records.drop_last()),
        }
    }
}

/// The byte count a flow sample adds: its frame length times its sampling
/// rate.
pub open spec fn flow_bytes(s: SampleView) -> u64 {
    (last_length(s.records) * s.sampling_rate) as u64
}

/// The flow table after sample `s`: a flow sample adds its sampling rate to
/// the packets and `flow_bytes` to the bytes of its key; other samples
/// leave the table as it is.
pub open spec fn flow_collected(m: Map<FlowCounterKey, Counter>, s: SampleView) -> Map<
    FlowCounterKey,
    Counter,
> {
    if is_flow_type(s.sample_type) {
        let k = flow_key(s.records);
        m.insert(k, count_of(m, k).plus(s.sampling_rate as u64, flow_bytes(s)))
    } else {
        m
    }
}

/// The per-agent table after sample `s` of a datagram from `agent`: one
/// more sample and `sample_length` more bytes under its kind.
pub open spec fn agent_collected(m: Map<AgentSampleKey, Counter>, s: SampleView, agent: IpAddress) -> Map<
    AgentSampleKey,
    Counter,
> {
    let k = AgentSampleKey { agent, sample_type: s.sample_type };
    m.insert(k, count_of(m, k).plus(1, s.sample_length as u64))
}

/// Something that parsed samples are folded into.
pub trait Collector: View + Sized {
    /// What the collector holds after it took in `sample`, from a datagram
    /// whose agent is `agent`.
    spec fn collected(before: Self::V, sample: SampleView, agent: IpAddress) -> Self::V;

    fn collect(&mut self, sample: &Sample, agent: &IpAddress)
        ensures
            final(self)@ == Self::collected(old(self)@, sample@, *agent),
    ;
}

impl Collector for AgentCounter {
    open spec fn collected(before: Map<AgentSampleKey, Counter>, sample: SampleView, agent: IpAddress) -> Map<
        AgentSampleKey,
        Counter,
    > {
        agent_collected(before, sample, agent)
    }

    fn collect(&mut self, sample: &Sample, agent: &IpAddress) {
        let key = AgentSampleKey { agent: *agent, sample_type: sample.sample_type };
        self.add(key, 1, sample.sample_length as u64);
    }
}

impl Collector for FlowCounter {
    /// Flows are keyed by what the sample's records say, not by the agent.
    open spec fn collected(before: Map<FlowCounterKey, Counter>, sample: SampleView, _agent: IpAddress) -> Map<
        FlowCounterKey,
        Counter,
    > {
        flow_collected(before, sample)
    }

    fn collect(&mut self, sample: &Sample, _agent: &IpAddress) {
        if !SampleType::from_tag(sample.sample_type).is_flow() {
            return;
        }
        let rate = sample.sampling_rate;
        let mut key = FlowCounterKey { src_mac: 0, dst_mac: 0, vlan: 0, protocol: 0 };
        let mut length: u32 = 0;
        let ghost recs = records_view(sample.records@);
        let mut i: usize = 0;
        while i < sample.records.len()
            invariant
                i <= sample.records@.len(),
                recs == records_view(sample.records@),
                key == flow_key(recs.take(i as int)),
                length == last_length(recs.take(i as int)),
            decreases sample.records@.len() - i,
        {
            proof {
                assert(recs.take(i + 1).drop_last() =~= recs.take(i as int));
                assert(recs.take(i + 1).last() == sample.records@[i as int]@);
            }
            match &sample.records[i] {
                RecordType::RawPacket(p) => {
                    let h = p.header();
                    key = FlowCounterKey {
                        src_mac: h.src_mac,
                        dst_mac: h.dst_mac,
                        vlan: match h.vlan {
                            Some(v) => v as u32,
                            None => key.vlan,
                        },
                        protocol: h.ethertype as u32,
                    };
                    length = p.frame_length;
                },
                RecordType::EthernetFrame(e) => {
                    key = FlowCounterKey {
                        src_mac: e.src_mac,
                        dst_mac: e.dst_mac,
                        vlan: key.vlan,
                        protocol: e.ethertype,
                    };
                },
                RecordType::ExtendedSwitch(x) => {
                    key = FlowCounterKey { vlan: x.src_vlan, ..key };
                },
                RecordType::Ipv4(f) => {
                    length = f.length;
                },
                RecordType::Ipv6(f) => {
                    length = f.length;
                },
                _ => {},
            }
            i = i + 1;
        }
        proof {
            assert(recs.take(i as int) =~= recs);
        }
        proof {
            assert(length as int * rate as int <= u32::MAX as int * u32::MAX as int) by (nonlinear_arith)
                requires
                    length <= u32::MAX,
                    rate <= u32::MAX,
            {}
        }
        let bytes = length as u64 * rate as u64;
        self.add(key, rate as u64, bytes);
    }
}

/// `x`, or `u64::MAX` where `x` does not fit.
pub open spec fn saturated(x: int) -> u64 {
    if x > u64::MAX {
        u64::MAX
    } else {
        x as u64
    }
}

pub open spec fn counter_le(a: Counter, b: Counter) -> bool {
    a.packets <= b.packets && a.bytes <= b.bytes
}

/// Every counter of `before` is still in `after`, with no fewer packets and
/// no fewer bytes.
pub open spec fn grows<K>(before: Map<K, Counter>, after: Map<K, Counter>) -> bool {
    forall|k: K|
        #[trigger] before.contains_key(k) ==> after.contains_key(k) && counter_le(before[k], after[k])
}

/// The flow table after the samples `ss`, in order.
pub open spec fn flow_collected_all(m: Map<FlowCounterKey, Counter>, ss: Seq<SampleView>) -> Map<
    FlowCounterKey,
    Counter,
>
    decreases ss.len(),
{
    if ss.len() == 0 {
        m
    } else {
        flow_collected(flow_collected_all(m, ss.drop_last()), ss.last())
    }
}

/// Adding to a counter never lowers any counter of the table.
pub proof fn lemma_add_grows<K>(m: Map<K, Counter>, k: K, packets: u64, bytes: u64)
    ensures
        grows(m, m.insert(k, count_of(m, k).plus(packets, bytes))),
{
}

proof fn lemma_grows_trans<K>(a: Map<K, Counter>, b: Map<K, Counter>, c: Map<K, Counter>)
    requires
        grows(a, b),
        grows(b, c),
    ensures
        grows(a, c),
{
    assert forall|k: K| #[trigger] a.contains_key(k) implies c.contains_key(k) && counter_le(a[k], c[k]) by {
        assert(b.contains_key(k));
    }
}

/// However many samples are folded into the flow table, in whatever order,
/// no counter's packets or bytes go down. (The per-agent table likewise:
/// its `collected` is one `add`.)
pub proof fn lemma_flow_counters_grow(m: Map<FlowCounterKey, Counter>, ss: Seq<SampleView>)
    ensures
        grows(m, flow_collected_all(m, ss)),
    decreases ss.len(),
{
    if ss.len() > 0 {
        let prev = flow_collected_all(m, ss.drop_last());
        lemma_flow_counters_grow(m, ss.drop_last());
        let k = flow_key(ss.last().records);
        lemma_add_grows(prev, k, ss.last().sampling_rate as u64, flow_bytes(ss.last()));
        lemma_grows_trans(m, prev, flow_collected_all(m, ss));
    }
}

/// The byte count of a flow sample is the last reported frame length times
/// the sampling rate, exactly.
pub proof fn lemma_flow_bytes(s: SampleView)
    ensures
        flow_bytes(s) as int == last_length(s.records) as int * s.sampling_rate as int,
{
    let l = last_length(s.records);
    let r = s.sampling_rate;
    assert(0 <= l as int * r as int <= u32::MAX as int * u32::MAX as int) by (nonlinear_arith)
        requires
            l <= u32::MAX,
            r <= u32::MAX,
    {}
}

/// A flow sample whose key the table does not hold yet leaves that key at
/// its sampling rate in packets and, in bytes, the frame length set last
/// in the sample times the rate.
pub proof fn lemma_first_visit(m: Map<FlowCounterKey, Counter>, s: SampleView)
    requires
        is_flow_type(s.sample_type),
        !m.contains_key(flow_key(s.records)),
    ensures
        flow_collected(m, s).contains_key(flow_key(s.records)),
        flow_collected(m, s)[flow_key(s.records)].packets == s.sampling_rate,
        flow_collected(m, s)[flow_key(s.records)].bytes as int == last_length(s.records) as int
            * s.sampling_rate as int,
{
    lemma_flow_bytes(s);
}

/// Folding two samples into the flow table gives the same table in either
/// order; where both are flow samples with one key, that key's counter
/// gains the sum of both contributions.
pub proof fn lemma_collect_commutes(m: Map<FlowCounterKey, Counter>, a: SampleView, b: SampleView)
    ensures
        flow_collected(flow_collected(m, a), b) == flow_collected(flow_collected(m, b), a),
        is_flow_type(a.sample_type) && is_flow_type(b.sample_type) && flow_key(a.records)
            == flow_key(b.records) ==> {
            let k = flow_key(a.records);
            flow_collected(flow_collected(m, a), b)[k] == Counter {
                packets: saturated(
                    count_of(m, k).packets + a.sampling_rate + b.sampling_rate,
                ),
                bytes: saturated(count_of(m, k).bytes + flow_bytes(a) + flow_bytes(b)),
            }
        },
{
    let ab = flow_collected(flow_collected(m, a), b);
    let ba = flow_collected(flow_collected(m, b), a);
    if is_flow_type(a.sample_type) && is_flow_type(b.sample_type) {
        let ka = flow_key(a.records);
        let kb = flow_key(b.records);
        if ka == kb {
            assert(ab =~= ba);
        } else {
            assert(ab =~= ba);
        }
    }
}

/// Where a counters sample (type 2) from `a` is counted per agent.
pub open spec fn counters_key(a: IpAddress) -> AgentSampleKey {
    AgentSampleKey { agent: a, sample_type: 2 }
}

/// A counters sample (type 2) of length `L` from agent `a` leaves the flow
/// table as it was and adds one sample and `L` bytes under `(a, 2)` in the
/// per-agent table, starting that entry at exactly `{1, L}` and leaving
/// every other entry alone.
pub proof fn lemma_counter_sample(
    flows: Map<FlowCounterKey, Counter>,
    agents: Map<AgentSampleKey, Counter>,
    s: SampleView,
    a: IpAddress,
)
    requires
        s.sample_type == 2,
    ensures
        flow_collected(flows, s) == flows,
        agent_collected(agents, s, a).contains_key(counters_key(a)),
        agent_collected(agents, s, a)[counters_key(a)] == count_of(agents, counters_key(a)).plus(
            1,
            s.sample_length as u64,
        ),
        !agents.contains_key(counters_key(a)) ==> agent_collected(agents, s, a)[counters_key(a)]
            == (Counter { packets: 1, bytes: s.sample_length as u64 }),
        forall|k: AgentSampleKey|
            k != counters_key(a) ==> (#[trigger] agent_collected(agents, s, a).contains_key(k)
                == agents.contains_key(k)) && (agents.contains_key(k) ==> agent_collected(
                agents,
                s,
                a,
            )[k] == agents[k]),
{
}

} // verus!
