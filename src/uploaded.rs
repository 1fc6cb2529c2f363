//! The record of which log files were uploaded already.
use vstd::prelude::*;
use vstd::string::StrSliceExecFns;
use crate::agent::views;
use crate::clock::{unix_now, utc_seconds, utc_timestamp};
use crate::text::{
    ascii_only, i32_text_value, is_ascii_text, parse_i32, parse_short_u32, str_eq, u32_text_value,
};

verus! {

broadcast use vstd::seq_lib::group_seq_properties;

/// How long an upload is remembered: 72 hours.
pub const RETENTION_SECS: u64 = 259200;

pub open spec fn is_sep(c: char) -> bool {
    c == '/' || c == '\\'
}

/// What follows the last `/` or `\` of a path.
pub open spec fn base_name(s: Seq<char>) -> Seq<char>
    decreases s.len(),
{
    if s.len() == 0 {
        s
    } else if is_sep(s.last()) {
        Seq::empty()
    } else {
        base_name(s.drop_last()).push(s.last())
    }
}

/// `s` without a trailing `.zevtc`.
pub open spec fn without_ext(s: Seq<char>) -> Seq<char> {
    if s.len() >= 6 && s.subrange(s.len() - 6, s.len() as int) == ".zevtc"@ {
        s.subrange(0, s.len() - 6)
    } else {
        s
    }
}

/// The first fifteen characters of a log file's base name, its extension
/// removed, if it has that many.
pub open spec fn stamp_text(f: Seq<char>) -> Option<Seq<char>> {
    let b = without_ext(base_name(f));
    if b.len() >= 15 {
        Some(b.subrange(0, 15))
    } else {
        None
    }
}

/// The Unix time that a `YYYYMMDD-HHMMSS` stamp writes, its fields read as
/// `str::parse` reads numbers (the year as an `i32`, the others as `u32`).
pub open spec fn stamp_time(t: Seq<char>) -> Option<int> {
    if t.len() != 15 || !is_ascii_text(t) {
        None
    } else {
        match (
            i32_text_value(t.subrange(0, 4)),
            u32_text_value(t.subrange(4, 6)),
            u32_text_value(t.subrange(6, 8)),
            u32_text_value(t.subrange(9, 11)),
            u32_text_value(t.subrange(11, 13)),
            u32_text_value(t.subrange(13, 15)),
        ) {
            (Some(y), Some(mo), Some(d), Some(h), Some(mi), Some(s)) => utc_seconds(y, mo, d, h, mi, s),
            _ => None,
        }
    }
}

/// The time a log file's name says it was recorded.
pub open spec fn log_time(f: Seq<char>) -> Option<int> {
    match stamp_text(f) {
        Some(t) => stamp_time(t),
        None => None,
    }
}

/// A name is kept at `now` unless its time can be read and lies more than
/// 72 hours before `now`.
pub open spec fn kept_at(f: Seq<char>, now: u64) -> bool {
    match log_time(f) {
        Some(t) => t >= now - RETENTION_SECS,
        None => true,
    }
}

/// The names kept at `now`, in their order.
pub open spec fn cleaned(names: Seq<Seq<char>>, now: u64) -> Seq<Seq<char>> {
    names.filter(|f: Seq<char>| kept_at(f, now))
}

#[derive(Debug, Clone)]
pub struct UploadedLogs {
    pub filenames: Vec<String>,
}

impl View for UploadedLogs {
    type V = Seq<Seq<char>>;

    open spec fn view(&self) -> Seq<Seq<char>> {
        views(self.filenames@)
    }
}

/// Extracts the `YYYYMMDD-HHMMSS` stamp from a log file name.
pub fn extract_timestamp_from_filename(filename: &str) -> (r: Option<String>)
    ensures
        opt_chars(r) == stamp_text(filename@),
{
    let n = filename.unicode_len();
    let mut i: usize = n;
    assert(filename@.subrange(0, n as int) =~= filename@);
    assert(filename@.subrange(n as int, n as int) =~= Seq::<char>::empty());
    while i > 0 && !(filename.get_char(i - 1) == '/' || filename.get_char(i - 1) == '\\')
        invariant
            n == filename@.len(),
            i <= n,
            base_name(filename@) == base_name(filename@.subrange(0, i as int)) + filename@.subrange(i as int, n as int),
        decreases i,
    {
        let ghost pre = filename@.subrange(0, i as int);
        assert(pre.drop_last() =~= filename@.subrange(0, i - 1));
        assert(filename@.subrange(i - 1, n as int) =~= seq![pre.last()] + filename@.subrange(i as int, n as int));
        assert(base_name(pre) == base_name(pre.drop_last()).push(pre.last()));
        assert(base_name(pre.drop_last()).push(pre.last()) + filename@.subrange(i as int, n as int)
            =~= base_name(pre.drop_last()) + filename@.subrange(i - 1, n as int));
        i = i - 1;
    }
    let ghost pre = filename@.subrange(0, i as int);
    assert(base_name(pre) =~= Seq::<char>::empty());
    assert(base_name(filename@) =~= filename@.subrange(i as int, n as int));
    let base = filename.substring_char(i, n);
    let m = n - i;
    let mut end = m;
    if m >= 6 {
        let tail = base.substring_char(m - 6, m);
        if str_eq(tail, ".zevtc") {
            end = m - 6;
        }
    }
    assert(without_ext(base@) =~= base@.subrange(0, end as int));
    if end >= 15 {
        let stamp = base.substring_char(0, 15);
        assert(base@.subrange(0, end as int).subrange(0, 15) =~= base@.subrange(0, 15));
        Some(stamp.to_owned())
    } else {
        None
    }
}

pub open spec fn opt_chars(o: Option<String>) -> Option<Seq<char>> {
    match o {
        Some(s) => Some(s@),
        None => None,
    }
}

/// The Unix time of a `YYYYMMDD-HHMMSS` stamp; `None` when a field is not
/// made of digits or chrono finds no such date and time.
pub fn parse_log_timestamp(timestamp: &str) -> (r: Option<i64>)
    ensures
        r is Some <==> stamp_time(timestamp@) is Some,
        r matches Some(t) ==> stamp_time(timestamp@) == Some(t as int),
{
    if timestamp.unicode_len() != 15 || !ascii_only(timestamp) {
        return None;
    }
    let year = parse_i32(timestamp.substring_char(0, 4));
    let month = parse_short_u32(timestamp.substring_char(4, 6));
    let day = parse_short_u32(timestamp.substring_char(6, 8));
    let hour = parse_short_u32(timestamp.substring_char(9, 11));
    let minute = parse_short_u32(timestamp.substring_char(11, 13));
    let second = parse_short_u32(timestamp.substring_char(13, 15));
    match (year, month, day, hour, minute, second) {
        (Some(y), Some(mo), Some(d), Some(h), Some(mi), Some(s)) => utc_timestamp(y, mo, d, h, mi, s),
        _ => None,
    }
}

/// Whether the name is kept at `now`.
fn keep_at(filename: &str, now: u64) -> (r: bool)
    ensures
        r == kept_at(filename@, now),
{
    match extract_timestamp_from_filename(filename) {
        Some(stamp) => match parse_log_timestamp(stamp.as_str()) {
            Some(t) => (t as i128) >= (now as i128) - (RETENTION_SECS as i128),
            None => true,
        },
        None => true,
    }
}

impl UploadedLogs {
    pub fn new() -> (r: UploadedLogs)
        ensures
            r@ == Seq::<Seq<char>>::empty(),
            r.wf(),
    {
        let r = UploadedLogs { filenames: Vec::new() };
        assert(r@ =~= Seq::<Seq<char>>::empty());
        r
    }

    /// Each name is recorded once.
    pub open spec fn wf(&self) -> bool {
        self@.no_duplicates()
    }

    /// Records `filename`; a name already recorded is not added again.
    pub fn add_log(&mut self, filename: String)
        requires
            old(self).wf(),
        ensures
            final(self).wf(),
            old(self)@.contains(filename@) ==> final(self)@ == old(self)@,
            !old(self)@.contains(filename@) ==> final(self)@ == old(self)@.push(filename@),
    {
        if !self.is_uploaded(filename.as_str()) {
            let ghost f = filename@;
            self.filenames.push(filename);
            assert(self@ =~= old(self)@.push(f));
        }
    }

    pub fn is_uploaded(&self, filename: &str) -> (r: bool)
        ensures
            r == self@.contains(filename@),
    {
        let n = self.filenames.len();
        let mut i: usize = 0;
        while i < n
            invariant
                n == self@.len(),
                i <= n,
                forall|j: int| 0 <= j < i ==> self@[j] != filename@,
            decreases n - i,
        {
            if str_eq(self.filenames[i].as_str(), filename) {
                assert(self@[i as int] == filename@);
                return true;
            }
            i = i + 1;
        }
        false
    }

    pub fn clear(&mut self)
        ensures
            final(self)@ == Seq::<Seq<char>>::empty(),
            final(self).wf(),
    {
        self.filenames.clear();
        assert(self@ =~= Seq::<Seq<char>>::empty());
    }

    /// Forgets the names whose recorded time lies more than 72 hours before
    /// `now`; names without a readable time stay. Returns how many went.
    pub fn cleanup_old_entries_at(&mut self, now: u64) -> (r: usize)
        requires
            old(self).wf(),
        ensures
            final(self).wf(),
            final(self)@ == cleaned(old(self)@, now),
            r == old(self)@.len() - final(self)@.len(),
    {
        let ghost pred = |f: Seq<char>| kept_at(f, now);
        let ghost all = self@;
        let n = self.filenames.len();
        let mut kept: Vec<String> = Vec::new();
        let mut i: usize = 0;
        proof {
            reveal(Seq::filter);
        }
        assert(all.subrange(0, 0).filter(pred) =~= Seq::<Seq<char>>::empty());
        while i < n
            invariant
                n == all.len(),
                all == self@,
                pred == (|f: Seq<char>| kept_at(f, now)),
                all.no_duplicates(),
                i <= n,
                views(kept@) == all.subrange(0, i as int).filter(pred),
                views(kept@).no_duplicates(),
                kept@.len() <= i,
            decreases n - i,
        {
            let ghost sub = all.subrange(0, i + 1);
            assert(sub.drop_last() =~= all.subrange(0, i as int));
            assert(sub.last() == all[i as int]);
            proof {
                reveal(Seq::filter);
            }
            assert(all[i as int] == self.filenames@[i as int]@);
            let keep = keep_at(self.filenames[i].as_str(), now);
            assert(keep == pred(all[i as int]));
            if keep {
                let name = self.filenames[i].clone();
                assert(name@ == all[i as int]);
                proof {
                    if views(kept@).contains(all[i as int]) {
                        all.subrange(0, i as int).lemma_filter_contains_rev(pred, all[i as int]);
                        let j = choose|j: int| 0 <= j < i && all.subrange(0, i as int)[j] == all[i as int];
                        assert(all[j] == all[i as int]);
                    }
                }
                kept.push(name);
                assert(views(kept@) =~= sub.filter(pred));
            } else {
                assert(sub.filter(pred) == all.subrange(0, i as int).filter(pred));
            }
            i = i + 1;
        }
        assert(all.subrange(0, n as int) =~= all);
        let removed = n - kept.len();
        self.filenames = kept;
        removed
    }

    /// Forgets the names recorded more than 72 hours ago, by the current time.
    pub fn cleanup_old_entries(&mut self) -> (r: usize)
        requires
            old(self).wf(),
        ensures
            final(self).wf(),
            exists|now: u64| final(self)@ == #[trigger] cleaned(old(self)@, now),
            r == old(self)@.len() - final(self)@.len(),
    {
        let now = unix_now();
        self.cleanup_old_entries_at(now)
    }
}

} // verus!
