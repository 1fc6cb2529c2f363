//! Reading the progress of server-side processing from its phase texts.
use vstd::prelude::*;
use vstd::string::StrSliceExecFns;
use crate::text::{
    find_char_from, index_from, last_of, lemma_index_from, lemma_last_of, parse_usize, rfind_char,
    usize_text_value,
};

verus! {

/// `(current, total)` from the last `(current/total)` of a phase text; `(0, 0)`
/// where there is none or a number does not read.
pub open spec fn file_progress(p: Seq<char>) -> (int, int) {
    match (last_of(p, '('), last_of(p, ')')) {
        (Some(start), Some(end)) => if end > start {
            let inner = p.subrange(start + 1, end);
            let slash = index_from(inner, '/', 0);
            if slash < inner.len() {
                match (usize_text_value(inner.subrange(0, slash)), usize_text_value(inner.subrange(slash + 1, inner.len() as int))) {
                    (Some(c), Some(t)) => (c, t),
                    _ => (0, 0),
                }
            } else {
                (0, 0)
            }
        } else {
            (0, 0)
        },
        _ => (0, 0),
    }
}

/// Extracts the file counter of a phase such as
/// `Processing logs with Elite Insights (3/4)`.
pub fn extract_file_progress(phase: &str) -> (r: (usize, usize))
    ensures
        (r.0 as int, r.1 as int) == file_progress(phase@),
{
    let open = rfind_char(phase, '(');
    let close = rfind_char(phase, ')');
    proof {
        lemma_last_of(phase@, '(', open);
        lemma_last_of(phase@, ')', close);
    }
    match (open, close) {
        (Some(start), Some(end)) => {
            if end > start {
                let inner = phase.substring_char(start + 1, end);
                proof {
                    lemma_index_from(inner@, '/', 0);
                }
                let slash = find_char_from(inner, '/', 0);
                let m = inner.unicode_len();
                if slash < m {
                    let cur = parse_usize(inner.substring_char(0, slash));
                    let tot = parse_usize(inner.substring_char(slash + 1, m));
                    match (cur, tot) {
                        (Some(c), Some(t)) => (c, t),
                        _ => (0, 0),
                    }
                } else {
                    (0, 0)
                }
            } else {
                (0, 0)
            }
        },
        _ => (0, 0),
    }
}

} // verus!
