//! Classification of a recording file's bytes, and the log entries built from it.
use vstd::prelude::*;
use vstd::string::StringExecFns;
use crate::bytes::le32;
use crate::container::{
    inflate_of, inflate_zip_member, is_zip, is_zip_container, unwrapped, zip_payload_start,
    ZIP_HEADER_SIZE,
};
use crate::map_type::MapType;
use crate::scan::{
    events_start, evtc_info, layout_ok, opt_view, read_evtc_info_limited, skill_count_at, InfoModel,
    FULL_SCAN_LIMIT,
};

verus! {

/// What a recording was classified as.
#[derive(Debug, Clone)]
pub struct ClassificationResult {
    pub map_id: u16,
    pub map_type: MapType,
    pub recorder: Option<String>,
    pub commander: Option<String>,
}

impl View for ClassificationResult {
    type V = InfoModel;

    open spec fn view(&self) -> InfoModel {
        InfoModel {
            map_id: self.map_id,
            map_type: self.map_type,
            recorder: opt_view(self.recorder),
            commander: opt_view(self.commander),
        }
    }
}

/// Nothing learned: map id zero, `Unknown`, no recorder, no commander.
pub open spec fn unknown_info() -> InfoModel {
    InfoModel { map_id: 0, map_type: MapType::Unknown, recorder: None, commander: None }
}

/// The classification of a file's bytes, looking at no more than `cap` events;
/// any failure gives `unknown_info`.
pub open spec fn classification_of(b: Seq<u8>, cap: int) -> InfoModel {
    match unwrapped(b) {
        None => unknown_info(),
        Some(raw) => match evtc_info(raw, cap) {
            None => unknown_info(),
            Some(i) => i,
        },
    }
}

impl ClassificationResult {
    pub fn unknown() -> (r: ClassificationResult)
        ensures
            r@ == unknown_info(),
    {
        ClassificationResult { map_id: 0, map_type: MapType::Unknown, recorder: None, commander: None }
    }
}

fn from_info(info: Option<(u16, MapType, Option<String>, Option<String>)>) -> (r: ClassificationResult)
    ensures
        info is None ==> r@ == unknown_info(),
        info matches Some((id, mt, rec, com)) ==> r@ == (InfoModel {
            map_id: id,
            map_type: mt,
            recorder: opt_view(rec),
            commander: opt_view(com),
        }),
{
    match info {
        Some((map_id, map_type, recorder, commander)) => ClassificationResult {
            map_id,
            map_type,
            recorder,
            commander,
        },
        None => ClassificationResult::unknown(),
    }
}

/// Classifies a recording file's bytes, looking at no more than `max_events`
/// events. A file that starts with `PK` is inflated first; any other file is
/// read as a raw recording. It never fails: whatever cannot be read gives the
/// unknown classification.
pub fn classify_bytes_limited(file: &[u8], max_events: usize) -> (r: ClassificationResult)
    ensures
        r@ == classification_of(file@, max_events as int),
{
    if file.len() < 4 {
        ClassificationResult::unknown()
    } else if is_zip_container(file) {
        match inflate_zip_member(file) {
            Some(raw) => from_info(read_evtc_info_limited(raw.as_slice(), max_events)),
            None => ClassificationResult::unknown(),
        }
    } else {
        from_info(read_evtc_info_limited(file, max_events))
    }
}

/// Full classification of a recording file's bytes, over at most ten thousand events.
pub fn classify_bytes(file: &[u8]) -> (r: ClassificationResult)
    ensures
        r@ == classification_of(file@, FULL_SCAN_LIMIT as int),
{
    classify_bytes_limited(file, FULL_SCAN_LIMIT)
}

/// One recording file as the log list shows it.
#[derive(Debug, Clone)]
pub struct LogFile {
    pub path: String,
    pub filename: String,
    pub size: u64,
    pub modified: u64,
    pub selected: bool,
    pub uploaded: bool,
    pub status: String,
    pub map_type: MapType,
    pub recorder: Option<String>,
    pub commander: Option<String>,
}

impl LogFile {
    /// An unselected, not yet uploaded entry in status `Ready`, labelled with
    /// the classification of its file.
    pub fn new(path: String, filename: String, size: u64, modified: u64, info: ClassificationResult) -> (r: LogFile)
        ensures
            r.path@ == path@,
            r.filename@ == filename@,
            r.size == size,
            r.modified == modified,
            !r.selected,
            !r.uploaded,
            r.status@ == "Ready"@,
            r.map_type == info.map_type,
            opt_view(r.recorder) == opt_view(info.recorder),
            opt_view(r.commander) == opt_view(info.commander),
    {
        LogFile {
            path,
            filename,
            size,
            modified,
            selected: false,
            uploaded: false,
            status: String::from_str("Ready"),
            map_type: info.map_type,
            recorder: info.recorder,
            commander: info.commander,
        }
    }
}


/// What a raw recording classifies as, unknown where it cannot be read.
pub open spec fn raw_classification(raw: Seq<u8>, cap: int) -> InfoModel {
    match evtc_info(raw, cap) {
        None => unknown_info(),
        Some(i) => i,
    }
}

/// A file that does not begin with `PK` is classified as a raw recording,
/// whatever bytes follow; one that does is classified by what its member
/// inflates to.
pub proof fn lemma_container_routing(b: Seq<u8>, cap: int)
    requires
        b.len() >= 4,
    ensures
        !is_zip(b) ==> classification_of(b, cap) == raw_classification(b, cap),
        is_zip(b) ==> classification_of(b, cap) == if b.len() < ZIP_HEADER_SIZE || zip_payload_start(b) >= b.len() {
            unknown_info()
        } else {
            match inflate_of(b.subrange(zip_payload_start(b), b.len() as int)) {
                None => unknown_info(),
                Some(raw) => raw_classification(raw, cap),
            }
        },
{
}

/// Cutting a raw recording short anywhere before its first combat event (or
/// anywhere at all, when its tables do not fit) leaves it unclassified.
pub proof fn lemma_truncation_gives_unknown(s: Seq<u8>, k: int, cap: int)
    requires
        0 <= k <= s.len(),
        !is_zip(s),
        !layout_ok(s) || k < events_start(s),
    ensures
        classification_of(s.subrange(0, k), cap) == unknown_info(),
{
    let p = s.subrange(0, k);
    if p.len() >= 4 {
        assert(p[0] == s[0] && p[1] == s[1]);
        assert(!is_zip(p));
        if layout_ok(p) {
            assert(p[16] == s[16] && p[17] == s[17] && p[18] == s[18] && p[19] == s[19]);
            assert(le32(p, 16) == le32(s, 16));
            let c = skill_count_at(p);
            assert(c == skill_count_at(s));
            assert(p[c] == s[c] && p[c + 1] == s[c + 1] && p[c + 2] == s[c + 2] && p[c + 3] == s[c + 3]);
            assert(events_start(p) == events_start(s));
            assert(layout_ok(s));
        }
    }
}

} // verus!
