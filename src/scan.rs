//! Walking the recording's layout and scanning its combat events.
use vstd::prelude::*;
use crate::agent::{
    agent_at, display_of, is_commander_candidate, AgentModel, EVTCAgent, AGENT_SIZE,
};
use crate::bytes::{le16, le32, le64, read_u16_le, read_u32_le, read_u64_le};
use crate::map_type::{map_type_of, MapType};

verus! {

/// Width of the fixed header.
pub const HEADER_SIZE: usize = 16;

/// Where the header keeps the format revision.
pub const REVISION_OFFSET: usize = 12;

/// Width of one skill record.
pub const SKILL_SIZE: usize = 68;

/// Width of one combat-event record.
pub const EVENT_SIZE: usize = 64;

/// Tag of the event that announces the map id.
pub const CBTS_MAPID: u8 = 25;

/// Tag of the event that names the recording agent.
pub const CBTS_POINTOFVIEW: u8 = 13;

/// Tag of the generic marker event.
pub const MARKER_STATECHANGE: u8 = 37;

/// Marker payload that stands for the commander tag.
pub const COMMANDER_MARKER_VALUE: u8 = 1;

/// Where an event keeps its source address or its value.
pub const EVENT_VALUE_OFFSET: usize = 8;

/// Where a marker event keeps its payload byte.
pub const EVENT_MARKER_OFFSET: usize = 49;

/// How many events a full classification looks at, at most.
pub const FULL_SCAN_LIMIT: usize = 10000;

/// How many events a map-only classification looks at, at most.
pub const MAP_SCAN_LIMIT: usize = 100;

/// The kinds of combat event that classification reads.
#[derive(Debug, Clone, Copy, PartialEq, Eq, Structural)]
pub enum EventKind {
    MapId(u16),
    PointOfView(u64),
    CommanderMarker(u64),
    Other,
}

pub open spec fn agent_count(s: Seq<u8>) -> int {
    le32(s, HEADER_SIZE as int)
}

/// Where the skill count stands: right after the agent table.
pub open spec fn skill_count_at(s: Seq<u8>) -> int {
    HEADER_SIZE + 4 + AGENT_SIZE * agent_count(s)
}

/// Where the combat events start: right after the skill table.
pub open spec fn events_start(s: Seq<u8>) -> int {
    skill_count_at(s) + 4 + SKILL_SIZE * le32(s, skill_count_at(s))
}

/// The header, both counts and both tables lie inside the buffer.
pub open spec fn layout_ok(s: Seq<u8>) -> bool {
    s.len() >= HEADER_SIZE + 4 && skill_count_at(s) + 4 <= s.len() && events_start(s) <= s.len()
}

/// Offset of the tag byte inside an event record: 56 for revision 1, else 59.
pub open spec fn tag_offset(s: Seq<u8>) -> int {
    if s[REVISION_OFFSET as int] == 1 {
        56
    } else {
        59
    }
}

/// The event record at `e`, with its tag byte at `e + t`.
pub open spec fn kind_at(s: Seq<u8>, e: int, t: int) -> EventKind {
    let tag = s[e + t];
    if tag == CBTS_MAPID {
        EventKind::MapId(le16(s, e + 8) as u16)
    } else if tag == CBTS_POINTOFVIEW {
        EventKind::PointOfView(le64(s, e + 8) as u64)
    } else if tag == MARKER_STATECHANGE && s[e + 49] == COMMANDER_MARKER_VALUE {
        EventKind::CommanderMarker(le64(s, e + 8) as u64)
    } else {
        EventKind::Other
    }
}

/// The `i`-th event of a stream that starts at `start`.
pub open spec fn event(s: Seq<u8>, start: int, t: int, i: int) -> EventKind {
    kind_at(s, start + EVENT_SIZE * i, t)
}

/// How many events are scanned: those that fit, at most `cap`.
pub open spec fn event_limit(len: int, start: int, cap: int) -> int {
    let avail = (len - start) / EVENT_SIZE as int;
    if avail < cap {
        avail
    } else {
        cap
    }
}

/// The map id of the first map-id event among the first `n`.
pub open spec fn first_map(s: Seq<u8>, start: int, t: int, n: int) -> Option<u16>
    decreases n,
{
    if n <= 0 {
        None
    } else {
        match first_map(s, start, t, n - 1) {
            Some(m) => Some(m),
            None => match event(s, start, t, n - 1) {
                EventKind::MapId(m) => Some(m),
                _ => None,
            },
        }
    }
}

/// The address of the first point-of-view event among the first `n`.
pub open spec fn first_pov(s: Seq<u8>, start: int, t: int, n: int) -> Option<u64>
    decreases n,
{
    if n <= 0 {
        None
    } else {
        match first_pov(s, start, t, n - 1) {
            Some(a) => Some(a),
            None => match event(s, start, t, n - 1) {
                EventKind::PointOfView(a) => Some(a),
                _ => None,
            },
        }
    }
}

/// The addresses of the commander markers among the first `n` events, in order.
pub open spec fn markers(s: Seq<u8>, start: int, t: int, n: int) -> Seq<u64>
    decreases n,
{
    if n <= 0 {
        Seq::empty()
    } else {
        match event(s, start, t, n - 1) {
            EventKind::CommanderMarker(a) => markers(s, start, t, n - 1).push(a),
            _ => markers(s, start, t, n - 1),
        }
    }
}

/// How often `a` occurs in `m`.
pub open spec fn count_in(m: Seq<u64>, a: u64) -> nat
    decreases m.len(),
{
    if m.len() == 0 {
        0
    } else {
        count_in(m.drop_last(), a) + if m.last() == a {
            1nat
        } else {
            0nat
        }
    }
}

/// `c` occurs most often in `m`, and is the smallest address that does.
pub open spec fn is_top(m: Seq<u64>, c: u64) -> bool {
    &&& count_in(m, c) > 0
    &&& forall|a: u64| count_in(m, a) <= count_in(m, c)
    &&& forall|a: u64| count_in(m, a) == count_in(m, c) ==> c <= a
}

/// The most frequent marker address, if there is any marker.
pub open spec fn top_marker(m: Seq<u64>) -> Option<u64> {
    if exists|c: u64| is_top(m, c) {
        Some(choose|c: u64| is_top(m, c))
    } else {
        None
    }
}

/// The first agent with the address `a`.
pub open spec fn find_agent(ags: Seq<AgentModel>, a: u64) -> Option<AgentModel>
    decreases ags.len(),
{
    if ags.len() == 0 {
        None
    } else if ags[0].addr == a {
        Some(ags[0])
    } else {
        find_agent(ags.drop_first(), a)
    }
}

/// The first agent with the address `a` that may be a commander.
pub open spec fn find_candidate(ags: Seq<AgentModel>, a: u64) -> Option<AgentModel>
    decreases ags.len(),
{
    if ags.len() == 0 {
        None
    } else if ags[0].addr == a && is_commander_candidate(ags[0]) {
        Some(ags[0])
    } else {
        find_candidate(ags.drop_first(), a)
    }
}

pub open spec fn display_opt(g: Option<AgentModel>) -> Option<Seq<char>> {
    match g {
        Some(a) => Some(display_of(a)),
        None => None,
    }
}

/// The agent table of a recording whose layout is sound.
pub open spec fn agents_of(s: Seq<u8>) -> Seq<AgentModel> {
    Seq::new(agent_count(s) as nat, |i: int| agent_at(s, HEADER_SIZE + 4 + AGENT_SIZE * i))
}

pub open spec fn agent_views(v: Seq<EVTCAgent>) -> Seq<AgentModel> {
    v.map_values(|a: EVTCAgent| a@)
}

/// What the scan of the first `n` events finds: map id, recorder address and
/// top commander address.
pub open spec fn scan_facts(s: Seq<u8>, start: int, t: int, n: int) -> (
    Option<u16>,
    Option<u64>,
    Option<u64>,
) {
    (first_map(s, start, t, n), first_pov(s, start, t, n), top_marker(markers(s, start, t, n)))
}

/// What classification learns of a recording, as plain values.
pub ghost struct InfoModel {
    pub map_id: u16,
    pub map_type: MapType,
    pub recorder: Option<Seq<char>>,
    pub commander: Option<Seq<char>>,
}

/// Classification of a raw recording scanning at most `cap` events; `None`
/// when the header or the tables do not fit in the buffer.
pub open spec fn evtc_info(s: Seq<u8>, cap: int) -> Option<InfoModel> {
    if !layout_ok(s) {
        None
    } else {
        let start = events_start(s);
        let n = event_limit(s.len() as int, start, cap);
        let (m, pov, top) = scan_facts(s, start, tag_offset(s), n);
        let map_id: u16 = match m {
            Some(v) => v,
            None => 0,
        };
        let ags = agents_of(s);
        Some(
            InfoModel {
                map_id,
                map_type: map_type_of(map_id),
                recorder: match pov {
                    Some(a) => display_opt(find_agent(ags, a)),
                    None => None,
                },
                commander: match top {
                    Some(c) => display_opt(find_candidate(ags, c)),
                    None => None,
                },
            },
        )
    }
}

pub open spec fn opt_view(o: Option<String>) -> Option<Seq<char>> {
    match o {
        Some(x) => Some(x@),
        None => None,
    }
}

proof fn lemma_count_push(m: Seq<u64>, a: u64, x: u64)
    ensures
        count_in(m.push(a), x) == count_in(m, x) + if a == x {
            1nat
        } else {
            0nat
        },
{
    assert(m.push(a).drop_last() =~= m);
}

proof fn lemma_top_unique(m: Seq<u64>, c: u64)
    requires
        is_top(m, c),
    ensures
        top_marker(m) == Some(c),
{
    let d = choose|d: u64| is_top(m, d);
    assert(is_top(m, d));
    assert(count_in(m, d) <= count_in(m, c));
    assert(count_in(m, c) <= count_in(m, d));
    assert(c <= d && d <= c);
}


proof fn lemma_count_le_len(m: Seq<u64>, x: u64)
    ensures
        count_in(m, x) <= m.len(),
    decreases m.len(),
{
    if m.len() > 0 {
        lemma_count_le_len(m.drop_last(), x);
    }
}

/// Counts per distinct address: `counts[k]` is how often `keys[k]` occurs in `m`.
pub open spec fn histogram_of(keys: Seq<u64>, counts: Seq<usize>, m: Seq<u64>) -> bool {
    &&& keys.len() == counts.len()
    &&& forall|k: int| 0 <= k < keys.len() ==> #[trigger] counts[k] as nat == count_in(m, keys[k])
    &&& forall|k: int| 0 <= k < keys.len() ==> count_in(m, #[trigger] keys[k]) > 0
    &&& forall|k1: int, k2: int|
        0 <= k1 < keys.len() && 0 <= k2 < keys.len() && k1 != k2 ==> keys[k1] != keys[k2]
    &&& forall|a: u64| count_in(m, a) > 0 ==> keys.contains(a)
}

/// Counts one more occurrence of `a`.
fn bump(keys: &mut Vec<u64>, counts: &mut Vec<usize>, a: u64, Ghost(m): Ghost<Seq<u64>>)
    requires
        histogram_of(old(keys)@, old(counts)@, m),
        m.len() < usize::MAX,
    ensures
        histogram_of(final(keys)@, final(counts)@, m.push(a)),
{
    let ghost m2 = m.push(a);
    assert forall|x: u64| count_in(m2, x) == count_in(m, x) + if a == x { 1nat } else { 0nat } by {
        lemma_count_push(m, a, x);
    }
    let n = keys.len();
    let mut k: usize = 0;
    while k < n
        invariant
            n == keys@.len() == counts@.len(),
            k <= n,
            keys@ == old(keys)@,
            counts@ == old(counts)@,
            histogram_of(keys@, counts@, m),
            m.len() < usize::MAX,
            m2 == m.push(a),
            forall|x: u64| count_in(m2, x) == count_in(m, x) + if a == x { 1nat } else { 0nat },
            forall|j: int| 0 <= j < k ==> keys@[j] != a,
        decreases n - k,
    {
        if keys[k] == a {
            proof {
                lemma_count_le_len(m, a);
            }
            let c = counts[k];
            counts.set(k, c + 1);
            assert forall|b: u64| count_in(m2, b) > 0 implies keys@.contains(b) by {
                if b != a {
                    assert(count_in(m, b) > 0);
                } else {
                    assert(keys@[k as int] == b);
                }
            }
            return;
        }
        k = k + 1;
    }
    let ghost pre = keys@;
    assert(histogram_of(pre, counts@, m));
    keys.push(a);
    counts.push(1);
    assert(keys@ == pre.push(a));
    assert forall|b: u64| count_in(m2, b) > 0 implies keys@.contains(b) by {
        if b != a {
            assert(count_in(m, b) > 0);
            assert(pre.contains(b));
            let j = choose|j: int| 0 <= j < pre.len() && pre[j] == b;
            assert(keys@[j] == b);
        } else {
            assert(keys@[n as int] == b);
        }
    }
    assert forall|j: int| 0 <= j < n implies count_in(m, old(keys)@[j]) == count_in(m2, old(keys)@[j]) by {
    }
    assert(count_in(m, a) == 0) by {
        if count_in(m, a) > 0 {
            assert(old(keys)@.contains(a));
        }
    }
}

/// The address with the most occurrences, the smallest one among equals.
fn pick_top(keys: &Vec<u64>, counts: &Vec<usize>, Ghost(m): Ghost<Seq<u64>>) -> (r: Option<u64>)
    requires
        histogram_of(keys@, counts@, m),
    ensures
        r == top_marker(m),
{
    if keys.len() == 0 {
        assert forall|c: u64| !is_top(m, c) by {
            if count_in(m, c) > 0 {
                assert(keys@.contains(c));
            }
        }
        return None;
    }
    let mut b: usize = 0;
    let mut k: usize = 1;
    while k < keys.len()
        invariant
            histogram_of(keys@, counts@, m),
            keys@.len() > 0,
            b < k <= keys@.len(),
            forall|j: int| 0 <= j < k ==> counts@[j] <= counts@[b as int],
            forall|j: int| 0 <= j < k && counts@[j] == counts@[b as int] ==> keys@[b as int] <= keys@[j],
        decreases keys.len() - k,
    {
        if counts[k] > counts[b] || (counts[k] == counts[b] && keys[k] < keys[b]) {
            b = k;
        }
        k = k + 1;
    }
    let c = keys[b];
    assert(counts@[b as int] as nat == count_in(m, c));
    assert forall|a: u64| count_in(m, a) <= count_in(m, c) && (count_in(m, a) == count_in(m, c) ==> c <= a) by {
        if count_in(m, a) > 0 {
            assert(keys@.contains(a));
            let j = choose|j: int| 0 <= j < keys@.len() && keys@[j] == a;
            assert(counts@[j] as nat == count_in(m, a));
        }
    }
    proof {
        lemma_top_unique(m, c);
    }
    Some(c)
}

/// Reads the kind of the event record at `pos`, with its tag byte at `pos + t`.
pub fn decode_event(data: &[u8], pos: usize, t: usize) -> (r: EventKind)
    requires
        pos + EVENT_SIZE <= data@.len(),
        t == 56 || t == 59,
    ensures
        r == kind_at(data@, pos as int, t as int),
{
    let len = data.len();
    let tag = data[pos + t];
    if tag == CBTS_MAPID {
        EventKind::MapId(read_u16_le(data, pos + EVENT_VALUE_OFFSET).unwrap())
    } else if tag == CBTS_POINTOFVIEW {
        EventKind::PointOfView(read_u64_le(data, pos + EVENT_VALUE_OFFSET).unwrap())
    } else if tag == MARKER_STATECHANGE && data[pos + EVENT_MARKER_OFFSET] == COMMANDER_MARKER_VALUE {
        EventKind::CommanderMarker(read_u64_le(data, pos + EVENT_VALUE_OFFSET).unwrap())
    } else {
        EventKind::Other
    }
}

/// Scans the events that start at `start`, at most `max_events` of them, for
/// the first map id, the first recorder address and the top commander address.
pub fn scan_events(data: &[u8], start: usize, t: usize, max_events: usize) -> (r: (
    Option<u16>,
    Option<u64>,
    Option<u64>,
))
    requires
        start <= data@.len(),
        t == 56 || t == 59,
    ensures
        r == scan_facts(data@, start as int, t as int, event_limit(data@.len() as int, start as int, max_events as int)),
{
    let avail = (data.len() - start) / EVENT_SIZE;
    let n = if avail < max_events { avail } else { max_events };
    let mut map_id: Option<u16> = None;
    let mut recorder: Option<u64> = None;
    let mut keys: Vec<u64> = Vec::new();
    let mut counts: Vec<usize> = Vec::new();
    let ghost s = data@;
    let len = data.len();
    let mut i: usize = 0;
    let mut pos: usize = start;
    while i < n
        invariant
            s == data@,
            len == s.len(),
            n <= avail == (s.len() - start) / 64,
            t == 56 || t == 59,
            start <= s.len(),
            i <= n,
            pos == start + 64 * i,
            map_id == first_map(s, start as int, t as int, i as int),
            recorder == first_pov(s, start as int, t as int, i as int),
            histogram_of(keys@, counts@, markers(s, start as int, t as int, i as int)),
            markers(s, start as int, t as int, i as int).len() <= i,
        decreases n - i,
    {
        assert(pos + 64 <= s.len()) by (nonlinear_arith)
            requires
                pos == start + 64 * i,
                i < n,
                n <= (s.len() - start) / 64,
                start <= s.len(),
        ;
        let ev = decode_event(data, pos, t);
        let ghost prev = markers(s, start as int, t as int, i as int);
        match ev {
            EventKind::MapId(m) => {
                if map_id.is_none() {
                    map_id = Some(m);
                }
            },
            EventKind::PointOfView(a) => {
                if recorder.is_none() {
                    recorder = Some(a);
                }
            },
            EventKind::CommanderMarker(a) => {
                bump(&mut keys, &mut counts, a, Ghost(prev));
            },
            EventKind::Other => {},
        }
        i = i + 1;
        pos = pos + EVENT_SIZE;
    }
    let top = pick_top(&keys, &counts, Ghost(markers(s, start as int, t as int, n as int)));
    (map_id, recorder, top)
}


/// Parses the agent table; `None` when the header or the table does not fit.
pub fn parse_agents(data: &[u8]) -> (r: Option<(Vec<EVTCAgent>, usize)>)
    ensures
        r is Some <==> (data@.len() >= HEADER_SIZE + 4 && skill_count_at(data@) <= data@.len()),
        r matches Some((v, p)) ==> p == skill_count_at(data@) && agent_views(v@) == agents_of(data@),
{
    let len = data.len();
    if len < HEADER_SIZE + 4 {
        return None;
    }
    let count32 = read_u32_le(data, HEADER_SIZE).unwrap();
    let table = 96 * (count32 as u64);
    if table > (len - (HEADER_SIZE + 4)) as u64 {
        return None;
    }
    let count = count32 as usize;
    let ghost s = data@;
    let mut agents: Vec<EVTCAgent> = Vec::new();
    let mut pos: usize = HEADER_SIZE + 4;
    let mut i: usize = 0;
    while i < count
        invariant
            s == data@,
            len == s.len(),
            count == agent_count(s),
            HEADER_SIZE + 4 + AGENT_SIZE * count <= len,
            i <= count,
            pos == HEADER_SIZE + 4 + AGENT_SIZE * i,
            agent_views(agents@) == agents_of(s).subrange(0, i as int),
        decreases count - i,
    {
        assert(pos + AGENT_SIZE <= len) by (nonlinear_arith)
            requires
                pos == 20 + 96 * i,
                i < count,
                20 + 96 * count <= len,
        ;
        let a = EVTCAgent::from_bytes(data, pos).unwrap();
        let ghost before = agents@;
        agents.push(a);
        assert(agents@ == before.push(a));
        assert(agent_views(before).len() == before.len());
        assert(before.len() == i);
        assert(agents@[i as int] == a);
        assert(agents_of(s)[i as int] == agent_at(s, pos as int));
        assert(agent_views(agents@)[i as int] == a@);
        assert(agent_views(agents@) =~= agents_of(s).subrange(0, i + 1));
        i = i + 1;
        pos = pos + AGENT_SIZE;
    }
    assert(agents_of(s).subrange(0, count as int) =~= agents_of(s));
    Some((agents, pos))
}

/// The display name of the first agent with address `addr`.
fn recorder_name(agents: &Vec<EVTCAgent>, addr: u64) -> (r: Option<String>)
    ensures
        opt_view(r) == display_opt(find_agent(agent_views(agents@), addr)),
{
    let ghost v = agent_views(agents@);
    let n = agents.len();
    let mut i: usize = 0;
    assert(v.subrange(0, n as int) =~= v);
    while i < n
        invariant
            v == agent_views(agents@),
            n == v.len(),
            i <= n,
            find_agent(v.subrange(i as int, n as int), addr) == find_agent(v, addr),
        decreases n - i,
    {
        assert(v.subrange(i as int, n as int).drop_first() =~= v.subrange(i + 1, n as int));
        if agents[i].addr == addr {
            return Some(agents[i].display_name());
        }
        i = i + 1;
    }
    None
}

/// The display name of the first agent with address `addr` that may be a commander.
fn commander_name(agents: &Vec<EVTCAgent>, addr: u64) -> (r: Option<String>)
    ensures
        opt_view(r) == display_opt(find_candidate(agent_views(agents@), addr)),
{
    let ghost v = agent_views(agents@);
    let n = agents.len();
    let mut i: usize = 0;
    assert(v.subrange(0, n as int) =~= v);
    while i < n
        invariant
            v == agent_views(agents@),
            n == v.len(),
            i <= n,
            find_candidate(v.subrange(i as int, n as int), addr) == find_candidate(v, addr),
        decreases n - i,
    {
        assert(v.subrange(i as int, n as int).drop_first() =~= v.subrange(i + 1, n as int));
        if agents[i].addr == addr && agents[i].is_valid_commander_candidate() {
            return Some(agents[i].display_name());
        }
        i = i + 1;
    }
    None
}

/// Map id, map type, recorder and commander of a raw recording, looking at no
/// more than `max_events` events; `None` when the header or the tables do not
/// fit in the buffer.
pub fn read_evtc_info_limited(data: &[u8], max_events: usize) -> (r: Option<
    (u16, MapType, Option<String>, Option<String>),
>)
    ensures
        r is None <==> evtc_info(data@, max_events as int) is None,
        r matches Some((id, mt, rec, com)) ==> evtc_info(data@, max_events as int) == Some(
            InfoModel { map_id: id, map_type: mt, recorder: opt_view(rec), commander: opt_view(com) },
        ),
{
    let len = data.len();
    if len < HEADER_SIZE {
        return None;
    }
    let revision = data[REVISION_OFFSET];
    let (agents, pos) = match parse_agents(data) {
        Some(p) => p,
        None => return None,
    };
    let skill_count = match read_u32_le(data, pos) {
        Some(c) => c,
        None => return None,
    };
    let skills64 = 68 * (skill_count as u64);
    if skills64 > (len - (pos + 4)) as u64 {
        return None;
    }
    let skills = skills64 as usize;
    let start = pos + 4 + skills;
    let t: usize = if revision == 1 { 56 } else { 59 };
    let (map_id, pov, top) = scan_events(data, start, t, max_events);
    let id: u16 = match map_id {
        Some(v) => v,
        None => 0,
    };
    let recorder = match pov {
        Some(a) => recorder_name(&agents, a),
        None => None,
    };
    let commander = match top {
        Some(c) => commander_name(&agents, c),
        None => None,
    };
    Some((id, MapType::from_map_id(id), recorder, commander))
}

/// Full classification of a raw recording, over its first ten thousand events.
pub fn read_evtc_info_from_bytes(data: &[u8]) -> (r: Option<
    (u16, MapType, Option<String>, Option<String>),
>)
    ensures
        r is None <==> evtc_info(data@, FULL_SCAN_LIMIT as int) is None,
        r matches Some((id, mt, rec, com)) ==> evtc_info(data@, FULL_SCAN_LIMIT as int) == Some(
            InfoModel { map_id: id, map_type: mt, recorder: opt_view(rec), commander: opt_view(com) },
        ),
{
    read_evtc_info_limited(data, FULL_SCAN_LIMIT)
}


/// How many events classification looks at in a recording of sound layout.
pub open spec fn scanned(s: Seq<u8>, cap: int) -> int {
    event_limit(s.len() as int, events_start(s), cap)
}

/// The `i`-th event of a recording, read at its revision's tag offset.
pub open spec fn log_event(s: Seq<u8>, i: int) -> EventKind {
    event(s, events_start(s), tag_offset(s), i)
}

/// The commander markers among the scanned events of a recording.
pub open spec fn log_markers(s: Seq<u8>, cap: int) -> Seq<u64> {
    markers(s, events_start(s), tag_offset(s), scanned(s, cap))
}

proof fn lemma_first_map_is(s: Seq<u8>, start: int, t: int, n: int, m: u16)
    requires
        exists|k: int| 0 <= k < n && event(s, start, t, k) == EventKind::MapId(m),
        forall|k: int| 0 <= k < n && (#[trigger] event(s, start, t, k)) is MapId ==> event(s, start, t, k) == EventKind::MapId(m),
    ensures
        first_map(s, start, t, n) == Some(m),
    decreases n,
{
    if exists|k: int| 0 <= k < n - 1 && event(s, start, t, k) == EventKind::MapId(m) {
        lemma_first_map_is(s, start, t, n - 1, m);
    } else {
        assert(event(s, start, t, n - 1) == EventKind::MapId(m));
        lemma_first_map_none(s, start, t, n - 1);
    }
}

proof fn lemma_first_map_none(s: Seq<u8>, start: int, t: int, n: int)
    requires
        forall|k: int| 0 <= k < n ==> !((#[trigger] event(s, start, t, k)) is MapId),
    ensures
        first_map(s, start, t, n) is None,
    decreases n,
{
    if n > 0 {
        lemma_first_map_none(s, start, t, n - 1);
    }
}

proof fn lemma_first_pov_is(s: Seq<u8>, start: int, t: int, n: int, r: u64)
    requires
        exists|k: int| 0 <= k < n && event(s, start, t, k) == EventKind::PointOfView(r),
        forall|k: int| 0 <= k < n && (#[trigger] event(s, start, t, k)) is PointOfView ==> event(s, start, t, k) == EventKind::PointOfView(r),
    ensures
        first_pov(s, start, t, n) == Some(r),
    decreases n,
{
    if exists|k: int| 0 <= k < n - 1 && event(s, start, t, k) == EventKind::PointOfView(r) {
        lemma_first_pov_is(s, start, t, n - 1, r);
    } else {
        assert(event(s, start, t, n - 1) == EventKind::PointOfView(r));
        lemma_first_pov_none(s, start, t, n - 1);
    }
}

proof fn lemma_first_pov_none(s: Seq<u8>, start: int, t: int, n: int)
    requires
        forall|k: int| 0 <= k < n ==> !((#[trigger] event(s, start, t, k)) is PointOfView),
    ensures
        first_pov(s, start, t, n) is None,
    decreases n,
{
    if n > 0 {
        lemma_first_pov_none(s, start, t, n - 1);
    }
}

/// A recording of sound layout whose scanned events announce the map `m` and
/// the point of view `r` (each announcement, if repeated, with the same value),
/// and whose commander markers name `c` more often than any other address, is
/// classified as map `m`, recorded by the agent at `r`, commanded by the agent
/// at `c`.
pub proof fn lemma_classifies_crafted_log(s: Seq<u8>, cap: int, m: u16, r: u64, c: u64)
    requires
        layout_ok(s),
        exists|k: int| 0 <= k < scanned(s, cap) && log_event(s, k) == EventKind::MapId(m),
        forall|k: int| 0 <= k < scanned(s, cap) && (#[trigger] log_event(s, k)) is MapId ==> log_event(s, k) == EventKind::MapId(m),
        exists|k: int| 0 <= k < scanned(s, cap) && log_event(s, k) == EventKind::PointOfView(r),
        forall|k: int| 0 <= k < scanned(s, cap) && (#[trigger] log_event(s, k)) is PointOfView ==> log_event(s, k) == EventKind::PointOfView(r),
        forall|a: u64| a != c ==> count_in(log_markers(s, cap), a) < count_in(log_markers(s, cap), c),
    ensures
        evtc_info(s, cap) == Some(
            InfoModel {
                map_id: m,
                map_type: map_type_of(m),
                recorder: display_opt(find_agent(agents_of(s), r)),
                commander: display_opt(find_candidate(agents_of(s), c)),
            },
        ),
{
    let start = events_start(s);
    let t = tag_offset(s);
    let n = scanned(s, cap);
    assert forall|k: int| 0 <= k < n && (#[trigger] event(s, start, t, k)) is MapId implies event(s, start, t, k) == EventKind::MapId(m) by {
        assert(log_event(s, k) == event(s, start, t, k));
    }
    assert forall|k: int| 0 <= k < n && (#[trigger] event(s, start, t, k)) is PointOfView implies event(s, start, t, k) == EventKind::PointOfView(r) by {
        assert(log_event(s, k) == event(s, start, t, k));
    }
    lemma_first_map_is(s, start, t, n, m);
    lemma_first_pov_is(s, start, t, n, r);
    let mk = log_markers(s, cap);
    assert(count_in(mk, c) > 0) by {
        if c == 0 {
            assert(count_in(mk, c) > count_in(mk, 1));
        } else {
            assert(count_in(mk, c) > count_in(mk, 0));
        }
    }
    assert(is_top(mk, c));
    lemma_top_unique(mk, c);
}

/// When the most frequent commander-marker address has no agent that may be a
/// commander, no commander is reported, even where another address has one.
pub proof fn lemma_commander_no_fallback(s: Seq<u8>, cap: int, c: u64)
    requires
        layout_ok(s),
        top_marker(log_markers(s, cap)) == Some(c),
        find_candidate(agents_of(s), c) is None,
    ensures
        evtc_info(s, cap) matches Some(i) && i.commander is None,
{
}

/// Two recordings of one event stream, one of revision 1 with tags at offset
/// 56 and one of another revision with tags at offset 59, alike in every other
/// byte that classification reads.
pub open spec fn same_stream_two_revisions(s0: Seq<u8>, s1: Seq<u8>) -> bool {
    &&& s0.len() == s1.len()
    &&& layout_ok(s0)
    &&& s0[REVISION_OFFSET as int] != 1
    &&& s1[REVISION_OFFSET as int] == 1
    &&& forall|i: int| 0 <= i < events_start(s0) && i != REVISION_OFFSET ==> s0[i] == s1[i]
    &&& forall|k: int| 0 <= k < (s0.len() - events_start(s0)) / 64 ==> {
        let e = #[trigger] (events_start(s0) + 64 * k);
        &&& s0[e + 59] == s1[e + 56]
        &&& s0[e + 49] == s1[e + 49]
        &&& s0.subrange(e + 8, e + 16) == s1.subrange(e + 8, e + 16)
    }
}

proof fn lemma_same_events(s0: Seq<u8>, s1: Seq<u8>, start: int, n: int)
    requires
        same_stream_two_revisions(s0, s1),
        start == events_start(s0),
        0 <= n <= (s0.len() - start) / 64,
    ensures
        first_map(s0, start, 59, n) == first_map(s1, start, 56, n),
        first_pov(s0, start, 59, n) == first_pov(s1, start, 56, n),
        markers(s0, start, 59, n) == markers(s1, start, 56, n),
    decreases n,
{
    if n > 0 {
        lemma_same_events(s0, s1, start, n - 1);
        let k = n - 1;
        let e = start + 64 * k;
        assert(e + 64 <= s0.len()) by (nonlinear_arith)
            requires
                e == start + 64 * k,
                0 <= k < n,
                n <= (s0.len() - start) / 64,
                0 <= start <= s0.len(),
        ;
        assert(s0[e + 59] == s1[e + 56]);
        assert forall|j: int| 8 <= j < 16 implies #[trigger] s0[e + j] == s1[e + j] by {
            assert(s0.subrange(e + 8, e + 16)[j - 8] == s0[e + j]);
            assert(s1.subrange(e + 8, e + 16)[j - 8] == s1[e + j]);
        }
        assert(s0[e + 8] == s1[e + 8] && s0[e + 9] == s1[e + 9] && s0[e + 10] == s1[e + 10] && s0[e + 11]
            == s1[e + 11] && s0[e + 12] == s1[e + 12] && s0[e + 13] == s1[e + 13] && s0[e + 14] == s1[e
            + 14] && s0[e + 15] == s1[e + 15]);
        assert(event(s0, start, 59, k) == event(s1, start, 56, k));
    }
}

/// The same event stream encoded with revision 0 (tags at offset 59) and with
/// revision 1 (tags at offset 56) classifies alike.
pub proof fn lemma_revision_offsets_agree(s0: Seq<u8>, s1: Seq<u8>, cap: int)
    requires
        same_stream_two_revisions(s0, s1),
    ensures
        evtc_info(s0, cap) == evtc_info(s1, cap),
{
    let c0 = skill_count_at(s0);
    assert(s0[16] == s1[16] && s0[17] == s1[17] && s0[18] == s1[18] && s0[19] == s1[19]);
    assert(agent_count(s0) == agent_count(s1));
    assert(skill_count_at(s1) == c0);
    assert(s0[c0] == s1[c0] && s0[c0 + 1] == s1[c0 + 1] && s0[c0 + 2] == s1[c0 + 2] && s0[c0 + 3] == s1[c0 + 3]);
    assert(events_start(s0) == events_start(s1));
    assert(layout_ok(s1));
    assert(tag_offset(s0) == 59 && tag_offset(s1) == 56);
    let start = events_start(s0);
    let n = scanned(s0, cap);
    if n >= 0 {
        lemma_same_events(s0, s1, start, n);
    }
    assert forall|i: int| 0 <= i < agent_count(s0) implies agents_of(s0)[i] == agents_of(s1)[i] by {
        let o = HEADER_SIZE + 4 + AGENT_SIZE * i;
        assert(o + 96 <= c0) by (nonlinear_arith)
            requires
                o == 20 + 96 * i,
                0 <= i < agent_count(s0),
                c0 == 20 + 96 * agent_count(s0),
        ;
        assert(s0.subrange(o + 28, o + 92) =~= s1.subrange(o + 28, o + 92));
        assert(s0[o] == s1[o] && s0[o + 1] == s1[o + 1] && s0[o + 2] == s1[o + 2] && s0[o + 3] == s1[o + 3]
            && s0[o + 4] == s1[o + 4] && s0[o + 5] == s1[o + 5] && s0[o + 6] == s1[o + 6] && s0[o + 7]
            == s1[o + 7]);
    }
    assert(agents_of(s0) =~= agents_of(s1));
}


proof fn lemma_prefix_events(s: Seq<u8>, p: Seq<u8>, start: int, tg: int, n: int)
    requires
        p.len() <= s.len(),
        forall|i: int| 0 <= i < p.len() ==> p[i] == s[i],
        0 <= start,
        0 <= tg < 64,
        0 <= n,
        start + 64 * n <= p.len(),
    ensures
        first_map(p, start, tg, n) == first_map(s, start, tg, n),
        first_pov(p, start, tg, n) == first_pov(s, start, tg, n),
        markers(p, start, tg, n) == markers(s, start, tg, n),
    decreases n,
{
    if n > 0 {
        assert(start + 64 * (n - 1) <= p.len()) by (nonlinear_arith)
            requires
                start + 64 * n <= p.len(),
                n > 0,
        ;
        lemma_prefix_events(s, p, start, tg, n - 1);
        let e = start + 64 * (n - 1);
        assert(e + 64 <= p.len()) by (nonlinear_arith)
            requires
                e == start + 64 * (n - 1),
                start + 64 * n <= p.len(),
        ;
        assert(p[e + tg] == s[e + tg]);
        assert(p[e + 49] == s[e + 49]);
        assert(p[e + 8] == s[e + 8] && p[e + 9] == s[e + 9] && p[e + 10] == s[e + 10] && p[e + 11] == s[e + 11]
            && p[e + 12] == s[e + 12] && p[e + 13] == s[e + 13] && p[e + 14] == s[e + 14] && p[e + 15]
            == s[e + 15]);
        assert(event(p, start, tg, n - 1) == event(s, start, tg, n - 1));
    }
}

/// Cutting a recording of sound layout anywhere inside its event stream keeps
/// it readable, and it classifies as the whole recording does when the scan
/// stops at the complete event records left: a cut-off record is never read.
pub proof fn lemma_cut_inside_events(s: Seq<u8>, k: int, cap: int)
    requires
        layout_ok(s),
        events_start(s) <= k <= s.len(),
        cap >= 0,
    ensures
        evtc_info(s.subrange(0, k), cap) is Some,
        scanned(s.subrange(0, k), cap) == event_limit(k, events_start(s), cap),
        evtc_info(s.subrange(0, k), cap) == evtc_info(s, scanned(s.subrange(0, k), cap)),
{
    let p = s.subrange(0, k);
    let c0 = skill_count_at(s);
    assert(p[12] == s[12]);
    assert(p[16] == s[16] && p[17] == s[17] && p[18] == s[18] && p[19] == s[19]);
    assert(agent_count(p) == agent_count(s));
    assert(p[c0] == s[c0] && p[c0 + 1] == s[c0 + 1] && p[c0 + 2] == s[c0 + 2] && p[c0 + 3] == s[c0 + 3]);
    assert(events_start(p) == events_start(s));
    assert(layout_ok(p));
    let start = events_start(s);
    let n = scanned(p, cap);
    assert(0 <= n <= (k - start) / 64);
    assert(start + 64 * n <= k) by (nonlinear_arith)
        requires
            0 <= n <= (k - start) / 64,
            start <= k,
    ;
    assert((k - start) / 64 <= (s.len() - start) / 64) by (nonlinear_arith)
        requires
            start <= k <= s.len(),
    ;
    assert(scanned(s, n) == n);
    lemma_prefix_events(s, p, start, tag_offset(s), n);
    assert forall|i: int| 0 <= i < agent_count(s) implies agents_of(p)[i] == agents_of(s)[i] by {
        let o = HEADER_SIZE + 4 + AGENT_SIZE * i;
        assert(o + 96 <= c0) by (nonlinear_arith)
            requires
                o == 20 + 96 * i,
                0 <= i < agent_count(s),
                c0 == 20 + 96 * agent_count(s),
        ;
        assert(p.subrange(o + 28, o + 92) =~= s.subrange(o + 28, o + 92));
        assert(p[o] == s[o] && p[o + 1] == s[o + 1] && p[o + 2] == s[o + 2] && p[o + 3] == s[o + 3] && p[o + 4]
            == s[o + 4] && p[o + 5] == s[o + 5] && p[o + 6] == s[o + 6] && p[o + 7] == s[o + 7]);
    }
    assert(agents_of(p) =~= agents_of(s));
}

} // verus!
