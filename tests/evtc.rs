use std::io::Write;

use wvw_logs::agent::EVTCAgent;
use wvw_logs::bytes::{read_u16_le, read_u32_le, read_u64_le};
use wvw_logs::container::{is_zip_container, unwrap_container, zip_payload_offset};
use wvw_logs::logfile::{classify_bytes, classify_bytes_limited, ClassificationResult, LogFile};
use wvw_logs::map_type::MapType;
use wvw_logs::scan::{decode_event, parse_agents, read_evtc_info_from_bytes, EventKind};

fn name_blob(text: &[u8]) -> [u8; 64] {
    let mut blob = [0u8; 64];
    blob[..text.len()].copy_from_slice(text);
    blob
}

fn agent_record(addr: u64, name: &[u8]) -> Vec<u8> {
    let mut rec = vec![0u8; 96];
    rec[0..8].copy_from_slice(&addr.to_le_bytes());
    rec[28..92].copy_from_slice(&name_blob(name));
    rec
}

#[derive(Clone, Copy)]
enum Ev {
    OnMap(u16),
    Pov(u64),
    Marker(u64),
    MarkerOther(u64),
    Plain,
}

fn event_record(ev: Ev, revision: u8) -> Vec<u8> {
    let mut rec = vec![0u8; 64];
    let tag_at = if revision == 1 { 56 } else { 59 };
    match ev {
        Ev::OnMap(id) => {
            rec[8..10].copy_from_slice(&id.to_le_bytes());
            rec[tag_at] = 25;
        }
        Ev::Pov(addr) => {
            rec[8..16].copy_from_slice(&addr.to_le_bytes());
            rec[tag_at] = 13;
        }
        Ev::Marker(addr) => {
            rec[8..16].copy_from_slice(&addr.to_le_bytes());
            rec[49] = 1;
            rec[tag_at] = 37;
        }
        Ev::MarkerOther(addr) => {
            rec[8..16].copy_from_slice(&addr.to_le_bytes());
            rec[49] = 2;
            rec[tag_at] = 37;
        }
        Ev::Plain => {}
    }
    rec
}

fn build_log(revision: u8, agents: &[(u64, &[u8])], skills: u32, events: &[Ev]) -> Vec<u8> {
    let mut buf = b"EVTC20250101".to_vec();
    buf.push(revision);
    buf.extend_from_slice(&[0x34, 0x12, 0]);
    buf.extend_from_slice(&(agents.len() as u32).to_le_bytes());
    for (addr, name) in agents {
        buf.extend_from_slice(&agent_record(*addr, name));
    }
    buf.extend_from_slice(&skills.to_le_bytes());
    buf.extend(std::iter::repeat(0xAAu8).take(68 * skills as usize));
    for ev in events {
        buf.extend_from_slice(&event_record(*ev, revision));
    }
    buf
}

fn sample_agents() -> Vec<(u64, &'static [u8])> {
    vec![
        (0x100, b"Recorder Name\0:Rec.1111\0" as &[u8]),
        (0x200, b"Tag Holder:Boss.2222" as &[u8]),
        (0x300, b"Other Player\0Other.3333\0" as &[u8]),
        (0x400, b"Firebrand\0:Icon.4444\0" as &[u8]),
        (0x500, b"Training Golem" as &[u8]),
    ]
}

fn sample_events() -> Vec<Ev> {
    vec![
        Ev::Plain,
        Ev::OnMap(1099),
        Ev::Pov(0x100),
        Ev::Marker(0x200),
        Ev::Marker(0x300),
        Ev::Marker(0x200),
        Ev::MarkerOther(0x300),
        Ev::MarkerOther(0x300),
        Ev::OnMap(38),
        Ev::Pov(0x300),
        Ev::Marker(0x200),
        Ev::Plain,
    ]
}

fn deflate(data: &[u8]) -> Vec<u8> {
    let mut enc = flate2::write::DeflateEncoder::new(Vec::new(), flate2::Compression::default());
    enc.write_all(data).unwrap();
    enc.finish().unwrap()
}

fn zip_wrap(data: &[u8], file_name: &[u8], extra: &[u8]) -> Vec<u8> {
    let mut out = vec![0u8; 30];
    out[0] = 0x50;
    out[1] = 0x4B;
    out[2] = 3;
    out[3] = 4;
    out[26..28].copy_from_slice(&(file_name.len() as u16).to_le_bytes());
    out[28..30].copy_from_slice(&(extra.len() as u16).to_le_bytes());
    out.extend_from_slice(file_name);
    out.extend_from_slice(extra);
    out.extend_from_slice(&deflate(data));
    out
}

fn assert_unknown(r: &ClassificationResult) {
    assert_eq!(r.map_id, 0);
    assert_eq!(r.map_type, MapType::Unknown);
    assert_eq!(r.recorder, None);
    assert_eq!(r.commander, None);
}

#[test]
fn reads_little_endian_fields() {
    let data = [1u8, 2, 3, 4, 5, 6, 7, 8, 9];
    assert_eq!(read_u16_le(&data, 0), Some(0x0201));
    assert_eq!(read_u16_le(&data, 7), Some(0x0908));
    assert_eq!(read_u16_le(&data, 8), None);
    assert_eq!(read_u32_le(&data, 1), Some(0x05040302));
    assert_eq!(read_u32_le(&data, 6), None);
    assert_eq!(read_u64_le(&data, 0), Some(0x0807060504030201));
    assert_eq!(read_u64_le(&data, 1), Some(0x0908070605040302));
    assert_eq!(read_u64_le(&data, 2), None);
    assert_eq!(read_u64_le(&data, usize::MAX), None);
    assert_eq!(read_u16_le(&[], 0), None);
}

#[test]
fn classifies_crafted_log() {
    let buf = build_log(0, &sample_agents(), 3, &sample_events());
    let r = classify_bytes(&buf);
    assert_eq!(r.map_id, 1099);
    assert_eq!(r.map_type, MapType::RedDesertBorderlands);
    assert_eq!(r.recorder.as_deref(), Some("Recorder Name"));
    assert_eq!(r.commander.as_deref(), Some("Tag Holder"));
}

#[test]
fn revision_offsets_give_same_result() {
    let r0 = classify_bytes(&build_log(0, &sample_agents(), 2, &sample_events()));
    let r1 = classify_bytes(&build_log(1, &sample_agents(), 2, &sample_events()));
    assert_eq!(r0.map_id, r1.map_id);
    assert_eq!(r0.map_type, r1.map_type);
    assert_eq!(r0.recorder, r1.recorder);
    assert_eq!(r0.commander, r1.commander);
    assert_eq!(r1.map_type, MapType::RedDesertBorderlands);
    assert_eq!(r1.commander.as_deref(), Some("Tag Holder"));
}

#[test]
fn revision_byte_selects_tag_offset() {
    let mut buf = build_log(1, &sample_agents(), 0, &sample_events());
    buf[12] = 0;
    let r = classify_bytes(&buf);
    assert_eq!(r.map_type, MapType::Unknown);
    assert_eq!(r.recorder, None);
}

#[test]
fn truncated_buffers_degrade_to_unknown() {
    let buf = build_log(0, &sample_agents(), 2, &sample_events());
    let events_start = 16 + 4 + 96 * 5 + 4 + 68 * 2;
    for k in 0..=buf.len() {
        let r = classify_bytes(&buf[..k]);
        if k < events_start {
            assert_unknown(&r);
        }
    }
    let full = classify_bytes(&buf);
    assert_eq!(full.map_type, MapType::RedDesertBorderlands);
    let only_two_events = classify_bytes(&buf[..events_start + 2 * 64 + 10]);
    assert_eq!(only_two_events.map_type, MapType::RedDesertBorderlands);
    assert_eq!(only_two_events.recorder, None);
}

#[test]
fn top_commander_without_tag_gives_none() {
    let agents: Vec<(u64, &[u8])> = vec![
        (0x10, b"Squad Icon\0:NotAPlayer\0" as &[u8]),
        (0x20, b"Real Leader:Lead.9999" as &[u8]),
    ];
    let events = vec![Ev::Marker(0x10), Ev::Marker(0x10), Ev::Marker(0x20), Ev::Marker(0x10)];
    let r = classify_bytes(&build_log(0, &agents, 0, &events));
    assert_eq!(r.commander, None);
    assert_eq!(r.map_type, MapType::Unknown);
}

#[test]
fn top_commander_with_profession_name_gives_none() {
    let agents: Vec<(u64, &[u8])> = vec![
        (0x10, b"Scourge\0:Real.1234\0" as &[u8]),
        (0x20, b"Real Leader:Lead.9999" as &[u8]),
    ];
    let events = vec![Ev::Marker(0x20), Ev::Marker(0x10), Ev::Marker(0x10)];
    let r = classify_bytes(&build_log(1, &agents, 0, &events));
    assert_eq!(r.commander, None);
}

#[test]
fn commander_tie_goes_to_smaller_address() {
    let agents: Vec<(u64, &[u8])> = vec![
        (0x20, b"Second:Two.2222" as &[u8]),
        (0x10, b"First:One.1111" as &[u8]),
    ];
    let events = vec![Ev::Marker(0x20), Ev::Marker(0x10)];
    let r = classify_bytes(&build_log(0, &agents, 0, &events));
    assert_eq!(r.commander.as_deref(), Some("First"));
}

#[test]
fn recorder_without_agent_is_none() {
    let agents: Vec<(u64, &[u8])> = vec![(0x20, b"Someone:Some.1234" as &[u8])];
    let events = vec![Ev::Pov(0x99), Ev::OnMap(95)];
    let r = classify_bytes(&build_log(0, &agents, 1, &events));
    assert_eq!(r.recorder, None);
    assert_eq!(r.map_type, MapType::GreenAlpineBorderlands);
}

#[test]
fn recorder_without_character_shows_address() {
    let agents: Vec<(u64, &[u8])> = vec![(0xbeef, b"" as &[u8])];
    let events = vec![Ev::Pov(0xbeef)];
    let r = classify_bytes(&build_log(0, &agents, 0, &events));
    assert_eq!(r.recorder.as_deref(), Some("0xbeef"));
}

#[test]
fn first_map_announcement_wins() {
    let events = vec![Ev::OnMap(0), Ev::OnMap(96)];
    let r = classify_bytes(&build_log(0, &[], 0, &events));
    assert_eq!(r.map_id, 0);
    assert_eq!(r.map_type, MapType::Unknown);
    let events = vec![Ev::OnMap(968), Ev::OnMap(96)];
    let r = classify_bytes(&build_log(0, &[], 0, &events));
    assert_eq!(r.map_type, MapType::EdgeOfTheMists);
}

#[test]
fn scan_limit_bounds_the_events_read() {
    let mut events = vec![Ev::Plain; 5];
    events.push(Ev::OnMap(899));
    let buf = build_log(0, &[], 0, &events);
    assert_eq!(classify_bytes_limited(&buf, 5).map_type, MapType::Unknown);
    assert_eq!(classify_bytes_limited(&buf, 6).map_type, MapType::ObsidianSanctum);
    assert_eq!(classify_bytes(&buf).map_type, MapType::ObsidianSanctum);
}

#[test]
fn oversized_tables_are_rejected() {
    let mut buf = build_log(0, &[], 0, &[Ev::OnMap(38)]);
    buf[16..20].copy_from_slice(&u32::MAX.to_le_bytes());
    assert!(read_evtc_info_from_bytes(&buf).is_none());
    let mut buf = build_log(0, &[], 0, &[Ev::OnMap(38)]);
    buf[20..24].copy_from_slice(&u32::MAX.to_le_bytes());
    assert!(read_evtc_info_from_bytes(&buf).is_none());
    assert!(read_evtc_info_from_bytes(&[0u8; 19]).is_none());
}

#[test]
fn zip_container_is_inflated() {
    let raw = build_log(1, &sample_agents(), 1, &sample_events());
    let zipped = zip_wrap(&raw, b"20251010-222255.evtc", b"xyz");
    assert!(is_zip_container(&zipped));
    assert_eq!(zip_payload_offset(&zipped), Some(30 + 20 + 3));
    assert_eq!(unwrap_container(&zipped), Some(raw.clone()));
    let r = classify_bytes(&zipped);
    assert_eq!(r.map_type, MapType::RedDesertBorderlands);
    assert_eq!(r.recorder.as_deref(), Some("Recorder Name"));
    assert_eq!(r.commander.as_deref(), Some("Tag Holder"));
}

#[test]
fn raw_buffer_with_magic_later_is_raw() {
    let mut raw = build_log(0, &sample_agents(), 0, &sample_events());
    raw.extend_from_slice(&[0x50, 0x4B, 3, 4]);
    assert!(!is_zip_container(&raw));
    assert_eq!(unwrap_container(&raw), Some(raw.clone()));
    assert_eq!(classify_bytes(&raw).map_type, MapType::RedDesertBorderlands);
}

#[test]
fn broken_zip_is_unknown() {
    let mut bad = vec![0x50, 0x4B, 3, 4];
    bad.extend_from_slice(&[0xFFu8; 60]);
    assert_unknown(&classify_bytes(&bad));
    assert_unknown(&classify_bytes(&[0x50, 0x4B, 3, 4, 0, 0]));
    let mut header_only = vec![0u8; 30];
    header_only[0] = 0x50;
    header_only[1] = 0x4B;
    assert_eq!(zip_payload_offset(&header_only), None);
    assert_unknown(&classify_bytes(&header_only));
    assert_unknown(&classify_bytes(&[]));
    assert_unknown(&classify_bytes(b"EVT"));
}

#[test]
fn parses_agent_names() {
    let rec = agent_record(7, b"  Char Name  \0:Acc.1234\0");
    let a = EVTCAgent::from_bytes(&rec, 0).unwrap();
    assert_eq!(a.addr, 7);
    assert_eq!(a.character, "Char Name");
    assert_eq!(a.account, "Acc.1234");
    let rec = agent_record(8, b"Char : Acc.5678 :extra");
    let a = EVTCAgent::from_bytes(&rec, 0).unwrap();
    assert_eq!(a.character, "Char");
    assert_eq!(a.account, "Acc.5678");
    let rec = agent_record(12, "\u{3000}Wide Name\u{a0}\0\t:Acc.4321 \n\0".as_bytes());
    let a = EVTCAgent::from_bytes(&rec, 0).unwrap();
    assert_eq!(a.character, "Wide Name");
    assert_eq!(a.account, "Acc.4321");
    let rec = agent_record(9, b"\0\0 \0Only\0");
    let a = EVTCAgent::from_bytes(&rec, 0).unwrap();
    assert_eq!(a.character, "Only");
    assert_eq!(a.account, "");
    let rec = agent_record(10, b"Bad\xFFName\0::Acc.0001\0");
    let a = EVTCAgent::from_bytes(&rec, 0).unwrap();
    assert_eq!(a.character, "Bad\u{FFFD}Name");
    assert_eq!(a.account, "Acc.0001");
    assert!(EVTCAgent::from_bytes(&rec, 1).is_none());
    let mut two = rec.clone();
    two.extend_from_slice(&agent_record(11, b"Next"));
    assert_eq!(EVTCAgent::from_bytes(&two, 96).unwrap().character, "Next");
}

fn agent(character: &str, account: &str) -> EVTCAgent {
    EVTCAgent { addr: 0x2a, character: character.to_string(), account: account.to_string() }
}

#[test]
fn is_player_boundaries() {
    assert!(agent("A", "Name.1234").is_player());
    assert!(!agent("A", "Name.123").is_player());
    assert!(!agent("A", "Name.").is_player());
    assert!(!agent("A", "Name1234").is_player());
    assert!(!agent("A", "").is_player());
    assert!(!agent("A", "Name.12345").is_player());
    assert!(!agent("A", "Name.12a4").is_player());
    assert!(agent("A", "a.b.0000").is_player());
    assert!(agent("A", ".9876").is_player());
}

#[test]
fn commander_candidates_exclude_professions() {
    assert!(agent("Leader", "Lead.1234").is_valid_commander_candidate());
    assert!(!agent("Firebrand", "Lead.1234").is_valid_commander_candidate());
    assert!(!agent("Harbinger", "Lead.1234").is_valid_commander_candidate());
    assert!(!agent("Leader", "Lead").is_valid_commander_candidate());
    assert!(agent("firebrand", "Lead.1234").is_valid_commander_candidate());
}

#[test]
fn agent_display_names() {
    assert_eq!(agent("Leader", "").display_name(), "Leader");
    assert_eq!(agent("", "Lead.1234").display_name(), "0x2a");
    let zero = EVTCAgent { addr: 0, character: String::new(), account: String::new() };
    assert_eq!(zero.display_name(), "0x0");
    let big = EVTCAgent { addr: u64::MAX, character: String::new(), account: String::new() };
    assert_eq!(big.display_name(), "0xffffffffffffffff");
}

#[test]
fn map_table() {
    assert_eq!(MapType::from_map_id(38), MapType::EternalBattlegrounds);
    assert_eq!(MapType::from_map_id(95), MapType::GreenAlpineBorderlands);
    assert_eq!(MapType::from_map_id(96), MapType::BlueAlpineBorderlands);
    assert_eq!(MapType::from_map_id(1099), MapType::RedDesertBorderlands);
    assert_eq!(MapType::from_map_id(968), MapType::EdgeOfTheMists);
    assert_eq!(MapType::from_map_id(899), MapType::ObsidianSanctum);
    assert_eq!(MapType::from_map_id(0), MapType::Unknown);
    assert_eq!(MapType::from_map_id(1), MapType::PvE);
    assert_eq!(MapType::from_map_id(u16::MAX), MapType::PvE);
    for id in [38u16, 95, 96, 1099, 968, 899] {
        assert!(MapType::from_map_id(id).is_wvw());
    }
    assert!(!MapType::PvE.is_wvw());
    assert!(!MapType::Unknown.is_wvw());
    assert_eq!(MapType::EternalBattlegrounds.display_name(), "EBG");
    assert_eq!(MapType::EdgeOfTheMists.display_name(), "EotM");
    assert_eq!(MapType::Unknown.display_name(), "Unknown");
}

#[test]
fn decodes_event_kinds() {
    let map = event_record(Ev::OnMap(38), 0);
    assert_eq!(decode_event(&map, 0, 59), EventKind::MapId(38));
    assert_eq!(decode_event(&map, 0, 56), EventKind::Other);
    let pov = event_record(Ev::Pov(0x1122334455667788), 1);
    assert_eq!(decode_event(&pov, 0, 56), EventKind::PointOfView(0x1122334455667788));
    let marker = event_record(Ev::Marker(5), 0);
    assert_eq!(decode_event(&marker, 0, 59), EventKind::CommanderMarker(5));
    let other = event_record(Ev::MarkerOther(5), 0);
    assert_eq!(decode_event(&other, 0, 59), EventKind::Other);
}

#[test]
fn parses_agent_table() {
    let buf = build_log(0, &sample_agents(), 0, &[]);
    let (agents, pos) = parse_agents(&buf).unwrap();
    assert_eq!(agents.len(), 5);
    assert_eq!(pos, 20 + 96 * 5);
    assert_eq!(agents[1].character, "Tag Holder");
    assert_eq!(agents[1].account, "Boss.2222");
    assert_eq!(agents[2].account, "Other.3333");
    assert!(parse_agents(&buf[..100]).is_none());
}

#[test]
fn log_file_entry_carries_classification() {
    let info = classify_bytes(&build_log(0, &sample_agents(), 0, &sample_events()));
    let log = LogFile::new("/logs/a.zevtc".to_string(), "a.zevtc".to_string(), 12, 34, info);
    assert_eq!(log.status, "Ready");
    assert!(!log.selected && !log.uploaded);
    assert_eq!(log.size, 12);
    assert_eq!(log.modified, 34);
    assert_eq!(log.map_type, MapType::RedDesertBorderlands);
    assert_eq!(log.commander.as_deref(), Some("Tag Holder"));
}
