//! Character-level helpers over strings, and the std text routines relied on.
use vstd::prelude::*;
use vstd::string::StrSliceExecFns;

verus! {

/// What `String::from_utf8_lossy` makes of a byte sequence.
pub uninterp spec fn utf8_lossy(b: Seq<u8>) -> Seq<char>;

/// The characters that `char::is_whitespace` accepts: those with the
/// Unicode White_Space property.
pub open spec fn is_ws(c: char) -> bool {
    ('\u{9}' <= c && c <= '\u{d}') || c == ' ' || c == '\u{85}' || c == '\u{a0}' || c == '\u{1680}'
        || ('\u{2000}' <= c && c <= '\u{200a}') || c == '\u{2028}' || c == '\u{2029}' || c
        == '\u{202f}' || c == '\u{205f}' || c == '\u{3000}'
}

/// `s` without its leading whitespace.
pub open spec fn trim_start_ws(s: Seq<char>) -> Seq<char>
    decreases s.len(),
{
    if s.len() > 0 && is_ws(s[0]) {
        trim_start_ws(s.drop_first())
    } else {
        s
    }
}

/// `s` without its trailing whitespace.
pub open spec fn trim_end_ws(s: Seq<char>) -> Seq<char>
    decreases s.len(),
{
    if s.len() > 0 && is_ws(s.last()) {
        trim_end_ws(s.drop_last())
    } else {
        s
    }
}

/// `s` without its leading and trailing whitespace.
pub open spec fn trim_ws(s: Seq<char>) -> Seq<char> {
    trim_end_ws(trim_start_ws(s))
}

/// Relies on `String::from_utf8_lossy`: decodes bytes as UTF-8, putting a
/// replacement character for each invalid sequence; it never fails.
#[verifier::external_body]
pub(crate) fn decode_lossy(b: &[u8]) -> (r: String)
    ensures
        r@ == utf8_lossy(b@),
{
    String::from_utf8_lossy(b).into_owned()
}

/// Relies on `String::push`: appends one character.
#[verifier::external_body]
pub(crate) fn push_char(s: &mut String, c: char)
    ensures
        final(s)@ == old(s)@.push(c),
{
    s.push(c)
}

/// The first index at or after `i` that holds `c`, or the length if none does.
pub open spec fn index_from(s: Seq<char>, c: char, i: int) -> int
    decreases s.len() - i,
{
    if i < 0 || i >= s.len() {
        s.len() as int
    } else if s[i] == c {
        i
    } else {
        index_from(s, c, i + 1)
    }
}

pub proof fn lemma_index_from(s: Seq<char>, c: char, i: int)
    requires
        0 <= i <= s.len(),
    ensures
        i <= index_from(s, c, i) <= s.len(),
        index_from(s, c, i) < s.len() ==> s[index_from(s, c, i)] == c,
        forall|k: int| i <= k < index_from(s, c, i) ==> s[k] != c,
    decreases s.len() - i,
{
    if i < s.len() && s[i] != c {
        lemma_index_from(s, c, i + 1);
    }
}

/// Finds the first `c` at or after `from`; the length when there is none.
pub fn find_char_from(s: &str, c: char, from: usize) -> (r: usize)
    requires
        from <= s@.len(),
    ensures
        r as int == index_from(s@, c, from as int),
{
    let n = s.unicode_len();
    let mut i: usize = from;
    proof {
        lemma_index_from(s@, c, from as int);
    }
    while i < n
        invariant
            n == s@.len(),
            from <= i <= n,
            index_from(s@, c, i as int) == index_from(s@, c, from as int),
        decreases n - i,
    {
        if s.get_char(i) == c {
            return i;
        }
        i = i + 1;
    }
    i
}

/// The position of the last `c` in `s`, as `str::rfind` reports it by character.
pub fn rfind_char(s: &str, c: char) -> (r: Option<usize>)
    ensures
        r matches Some(k) ==> k < s@.len() && s@[k as int] == c && forall|j: int| k < j < s@.len() ==> s@[j] != c,
        r is None ==> forall|j: int| 0 <= j < s@.len() ==> s@[j] != c,
{
    let n = s.unicode_len();
    let mut i: usize = n;
    while i > 0
        invariant
            n == s@.len(),
            i <= n,
            forall|j: int| i <= j < n ==> s@[j] != c,
        decreases i,
    {
        if s.get_char(i - 1) == c {
            return Some(i - 1);
        }
        i = i - 1;
    }
    None
}

/// Whether two strings hold the same characters.
pub fn str_eq(a: &str, b: &str) -> (r: bool)
    ensures
        r == (a@ == b@),
{
    let n = a.unicode_len();
    if n != b.unicode_len() {
        return false;
    }
    let mut i: usize = 0;
    while i < n
        invariant
            n == a@.len() == b@.len(),
            i <= n,
            a@.subrange(0, i as int) == b@.subrange(0, i as int),
        decreases n - i,
    {
        if a.get_char(i) != b.get_char(i) {
            assert(a@[i as int] != b@[i as int]);
            return false;
        }
        assert(a@.subrange(0, i + 1) =~= a@.subrange(0, i as int).push(a@[i as int]));
        assert(b@.subrange(0, i + 1) =~= b@.subrange(0, i as int).push(b@[i as int]));
        i = i + 1;
    }
    assert(a@ =~= a@.subrange(0, n as int));
    assert(b@ =~= b@.subrange(0, n as int));
    true
}

/// The characters of `s` after its leading run of `c`.
pub open spec fn skip_leading(s: Seq<char>, c: char) -> Seq<char>
    decreases s.len(),
{
    if s.len() > 0 && s[0] == c {
        skip_leading(s.drop_first(), c)
    } else {
        s
    }
}

/// `s` without its leading run of `c`, as `str::trim_start_matches` gives it.
pub fn strip_leading<'a>(s: &'a str, c: char) -> (r: &'a str)
    ensures
        r@ == skip_leading(s@, c),
{
    let n = s.unicode_len();
    let mut i: usize = 0;
    assert(s@.subrange(0, n as int) =~= s@);
    while i < n && s.get_char(i) == c
        invariant
            n == s@.len(),
            i <= n,
            skip_leading(s@.subrange(i as int, n as int), c) == skip_leading(s@, c),
        decreases n - i,
    {
        assert(s@.subrange(i as int, n as int).drop_first() =~= s@.subrange(i + 1, n as int));
        i = i + 1;
    }
    s.substring_char(i, n)
}


pub open spec fn is_digit(c: char) -> bool {
    '0' <= c && c <= '9'
}

pub open spec fn all_digits(s: Seq<char>) -> bool {
    forall|i: int| 0 <= i < s.len() ==> is_digit(#[trigger] s[i])
}

pub open spec fn digit_value(c: char) -> int {
    c as int - '0' as int
}

/// The number that a run of decimal digits writes.
pub open spec fn digits_value(s: Seq<char>) -> int
    decreases s.len(),
{
    if s.len() == 0 {
        0
    } else {
        10 * digits_value(s.drop_last()) + digit_value(s.last())
    }
}

pub open spec fn pow10(k: nat) -> int
    decreases k,
{
    if k == 0 {
        1
    } else {
        10 * pow10((k - 1) as nat)
    }
}

pub proof fn lemma_digits_nonneg(s: Seq<char>)
    requires
        all_digits(s),
    ensures
        digits_value(s) >= 0,
    decreases s.len(),
{
    if s.len() > 0 {
        assert(all_digits(s.drop_last())) by {
            assert forall|i: int| 0 <= i < s.drop_last().len() implies is_digit(#[trigger] s.drop_last()[i]) by {
                assert(s.drop_last()[i] == s[i]);
            }
        }
        assert(is_digit(s[s.len() - 1]));
        lemma_digits_nonneg(s.drop_last());
    }
}

/// A run of digits is worth at least any of its prefixes.
pub proof fn lemma_digits_prefix_le(s: Seq<char>, i: int)
    requires
        all_digits(s),
        0 <= i <= s.len(),
    ensures
        digits_value(s.subrange(0, i)) <= digits_value(s),
    decreases s.len() - i,
{
    if i < s.len() {
        lemma_digits_prefix_le(s, i + 1);
        let p = s.subrange(0, i + 1);
        assert(p.drop_last() =~= s.subrange(0, i));
        assert(is_digit(s[i]));
        assert(all_digits(s.subrange(0, i))) by {
            assert forall|k: int| 0 <= k < i implies is_digit(#[trigger] s.subrange(0, i)[k]) by {
                assert(s.subrange(0, i)[k] == s[k]);
            }
        }
        lemma_digits_nonneg(s.subrange(0, i));
    } else {
        assert(s.subrange(0, i) =~= s);
    }
}

/// The value that `str::parse::<usize>` reads from a text: decimal digits,
/// with an optional leading `+`, that fit in a `usize`.
pub open spec fn usize_text_value(s: Seq<char>) -> Option<int> {
    let d = if s.len() > 0 && s[0] == '+' {
        s.drop_first()
    } else {
        s
    };
    if d.len() > 0 && all_digits(d) && digits_value(d) <= usize::MAX {
        Some(digits_value(d))
    } else {
        None
    }
}

/// Reads a `usize` as `str::parse` does: digits with an optional leading `+`,
/// refusing an empty text, any other character, and a value that overflows.
pub fn parse_usize(s: &str) -> (r: Option<usize>)
    ensures
        match r {
            Some(v) => usize_text_value(s@) == Some(v as int),
            None => usize_text_value(s@) is None,
        },
{
    let n = s.unicode_len();
    let from: usize = if n > 0 && s.get_char(0) == '+' { 1 } else { 0 };
    let ghost d = if s@.len() > 0 && s@[0] == '+' { s@.drop_first() } else { s@ };
    assert(d =~= s@.subrange(from as int, n as int));
    if from >= n {
        return None;
    }
    let mut v: usize = 0;
    let mut i: usize = from;
    assert(s@.subrange(from as int, from as int) =~= Seq::<char>::empty());
    while i < n
        invariant
            from <= i <= n,
            n == s@.len(),
            d == s@.subrange(from as int, n as int),
            d == (if s@.len() > 0 && s@[0] == '+' { s@.drop_first() } else { s@ }),
            v as int == digits_value(s@.subrange(from as int, i as int)),
            all_digits(s@.subrange(from as int, i as int)),
        decreases n - i,
    {
        let c = s.get_char(i);
        let ghost sub = s@.subrange(from as int, i + 1);
        assert(sub.drop_last() =~= s@.subrange(from as int, i as int));
        assert(sub.last() == c);
        assert(d.subrange(0, (i - from) as int) =~= s@.subrange(from as int, i as int));
        assert(d.subrange(0, (i + 1 - from) as int) =~= sub);
        if !('0' <= c && c <= '9') {
            assert(!is_digit(d[(i - from) as int]));
            return None;
        }
        let digit = (c as u32 - '0' as u32) as usize;
        if v > (usize::MAX - digit) / 10 {
            proof {
                assert(10 * (v as int) + digit > usize::MAX) by (nonlinear_arith)
                    requires
                        v > (usize::MAX - digit) / 10,
                        0 <= digit <= 9,
                ;
                if all_digits(d) {
                    lemma_digits_prefix_le(d, (i + 1 - from) as int);
                }
            }
            return None;
        }
        assert(10 * (v as int) + digit <= usize::MAX) by (nonlinear_arith)
            requires
                v <= (usize::MAX - digit) / 10,
                0 <= digit <= 9,
        ;
        v = v * 10 + digit;
        assert(all_digits(sub)) by {
            assert forall|k: int| 0 <= k < sub.len() implies is_digit(#[trigger] sub[k]) by {
                if k < sub.len() - 1 {
                    assert(sub[k] == s@.subrange(from as int, i as int)[k]);
                }
            }
        }
        i = i + 1;
    }
    Some(v)
}

/// The position of the last `c` in `s`.
pub open spec fn last_of(s: Seq<char>, c: char) -> Option<int>
    decreases s.len(),
{
    if s.len() == 0 {
        None
    } else if s.last() == c {
        Some(s.len() - 1)
    } else {
        last_of(s.drop_last(), c)
    }
}

pub proof fn lemma_last_of(s: Seq<char>, c: char, r: Option<usize>)
    requires
        r matches Some(k) ==> k < s.len() && s[k as int] == c && forall|j: int| k < j < s.len() ==> s[j] != c,
        r is None ==> forall|j: int| 0 <= j < s.len() ==> s[j] != c,
    ensures
        last_of(s, c) == match r {
            Some(k) => Some(k as int),
            None => None::<int>,
        },
    decreases s.len(),
{
    if s.len() > 0 && s.last() != c {
        let t = s.drop_last();
        match r {
            Some(k) => {
                assert(k < s.len() - 1);
                lemma_last_of(t, c, r);
            },
            None => {
                lemma_last_of(t, c, r);
            },
        }
    }
}

/// The value that `str::parse::<i32>` reads from a text: decimal digits with
/// an optional sign, within the range of `i32`.
pub open spec fn i32_text_value(s: Seq<char>) -> Option<int> {
    let signed = s.len() > 0 && (s[0] == '-' || s[0] == '+');
    let d = if signed { s.drop_first() } else { s };
    if d.len() > 0 && all_digits(d) {
        let v = if s[0] == '-' { -digits_value(d) } else { digits_value(d) };
        if i32::MIN <= v <= i32::MAX {
            Some(v)
        } else {
            None
        }
    } else {
        None
    }
}

/// Reads an `i32` as `str::parse` does.
pub fn parse_i32(s: &str) -> (r: Option<i32>)
    ensures
        match r {
            Some(v) => i32_text_value(s@) == Some(v as int),
            None => i32_text_value(s@) is None,
        },
{
    let n = s.unicode_len();
    if n == 0 {
        return None;
    }
    let first = s.get_char(0);
    let signed = first == '-' || first == '+';
    let digits = if signed { s.substring_char(1, n) } else { s.substring_char(0, n) };
    assert(digits@ =~= (if signed { s@.drop_first() } else { s@ }));
    if digits.unicode_len() == 0 || digits.get_char(0) == '+' {
        proof {
            if digits@.len() > 0 {
                assert(!all_digits(digits@)) by {
                    assert(!is_digit(digits@[0]));
                }
            }
        }
        return None;
    }
    match parse_usize(digits) {
        Some(m) => {
            if first == '-' {
                if m <= 2147483648 {
                    Some((0 - (m as i64)) as i32)
                } else {
                    None
                }
            } else if m <= 2147483647 {
                Some(m as i32)
            } else {
                None
            }
        },
        None => {
            proof {
                if all_digits(digits@) {
                    assert(digits_value(digits@) > usize::MAX);
                }
            }
            None
        },
    }
}

/// A run of `k` digits is worth less than ten to the `k`.
pub proof fn lemma_digits_bound(s: Seq<char>)
    requires
        all_digits(s),
    ensures
        0 <= digits_value(s) < pow10(s.len()),
    decreases s.len(),
{
    if s.len() > 0 {
        assert(all_digits(s.drop_last())) by {
            assert forall|i: int| 0 <= i < s.drop_last().len() implies is_digit(#[trigger] s.drop_last()[i]) by {
                assert(s.drop_last()[i] == s[i]);
            }
        }
        assert(is_digit(s[s.len() - 1]));
        lemma_digits_bound(s.drop_last());
    }
}


/// The value that `str::parse::<u32>` reads from a text: decimal digits,
/// with an optional leading `+`, that fit in a `u32`.
pub open spec fn u32_text_value(s: Seq<char>) -> Option<int> {
    match usize_text_value(s) {
        Some(v) => if v <= u32::MAX {
            Some(v)
        } else {
            None
        },
        None => None,
    }
}

/// Reads a `u32` of at most two characters as `str::parse` does.
pub fn parse_short_u32(s: &str) -> (r: Option<u32>)
    requires
        s@.len() <= 2,
    ensures
        r matches Some(v) ==> v < 100,
        match r {
            Some(v) => u32_text_value(s@) == Some(v as int),
            None => u32_text_value(s@) is None,
        },
{
    match parse_usize(s) {
        Some(v) => {
            proof {
                let d = if s@.len() > 0 && s@[0] == '+' { s@.drop_first() } else { s@ };
                lemma_digits_bound(d);
                reveal_with_fuel(pow10, 3);
                assert(pow10(d.len()) <= 100);
            }
            Some(v as u32)
        },
        None => None,
    }
}

/// Every character is ASCII, so the text is as long in bytes as in characters.
pub open spec fn is_ascii_text(s: Seq<char>) -> bool {
    forall|i: int| 0 <= i < s.len() ==> #[trigger] s[i] <= '\u{7f}'
}

pub fn ascii_only(s: &str) -> (r: bool)
    ensures
        r == is_ascii_text(s@),
{
    let n = s.unicode_len();
    let mut i: usize = 0;
    while i < n
        invariant
            n == s@.len(),
            i <= n,
            forall|j: int| 0 <= j < i ==> #[trigger] s@[j] <= '\u{7f}',
        decreases n - i,
    {
        if s.get_char(i) > '\u{7f}' {
            return false;
        }
        i = i + 1;
    }
    true
}


fn is_ws_char(c: char) -> (r: bool)
    ensures
        r == is_ws(c),
{
    ('\u{9}' <= c && c <= '\u{d}') || c == ' ' || c == '\u{85}' || c == '\u{a0}' || c == '\u{1680}'
        || ('\u{2000}' <= c && c <= '\u{200a}') || c == '\u{2028}' || c == '\u{2029}' || c == '\u{202f}'
        || c == '\u{205f}' || c == '\u{3000}'
}

/// `s` without its leading and trailing whitespace, as `str::trim` gives it.
pub fn trim(s: &str) -> (r: String)
    ensures
        r@ == trim_ws(s@),
{
    let n = s.unicode_len();
    let mut i: usize = 0;
    assert(s@.subrange(0, n as int) =~= s@);
    while i < n && is_ws_char(s.get_char(i))
        invariant
            n == s@.len(),
            i <= n,
            trim_start_ws(s@.subrange(i as int, n as int)) == trim_start_ws(s@),
        decreases n - i,
    {
        assert(s@.subrange(i as int, n as int).drop_first() =~= s@.subrange(i + 1, n as int));
        i = i + 1;
    }
    let ghost mid = s@.subrange(i as int, n as int);
    assert(trim_start_ws(mid) == mid);
    let mut j: usize = n;
    assert(s@.subrange(i as int, j as int) =~= mid);
    while j > i && is_ws_char(s.get_char(j - 1))
        invariant
            n == s@.len(),
            i <= j <= n,
            mid == s@.subrange(i as int, n as int),
            trim_end_ws(s@.subrange(i as int, j as int)) == trim_end_ws(mid),
        decreases j,
    {
        assert(s@.subrange(i as int, j as int).drop_last() =~= s@.subrange(i as int, j - 1));
        j = j - 1;
    }
    s.substring_char(i, j).to_owned()
}

/// How many bytes UTF-8 takes for `c`.
pub open spec fn utf8_width(c: char) -> nat {
    if c <= '\u{7f}' {
        1
    } else if c <= '\u{7ff}' {
        2
    } else if c <= '\u{ffff}' {
        3
    } else {
        4
    }
}

/// How many bytes UTF-8 takes for `s`: the length `str::len` reports.
pub open spec fn utf8_len(s: Seq<char>) -> nat
    decreases s.len(),
{
    if s.len() == 0 {
        0
    } else {
        utf8_len(s.drop_last()) + utf8_width(s.last())
    }
}

/// Whether `s` takes exactly `k` bytes in UTF-8.
pub fn has_byte_len(s: &str, k: usize) -> (r: bool)
    ensures
        r == (utf8_len(s@) == k),
{
    let n = s.unicode_len();
    let mut total: usize = 0;
    let mut i: usize = 0;
    assert(s@.subrange(0, 0) =~= Seq::<char>::empty());
    while i < n
        invariant
            n == s@.len(),
            i <= n,
            total as nat == utf8_len(s@.subrange(0, i as int)),
            total <= k,
        decreases n - i,
    {
        let c = s.get_char(i);
        let w: usize = if c <= '\u{7f}' {
            1
        } else if c <= '\u{7ff}' {
            2
        } else if c <= '\u{ffff}' {
            3
        } else {
            4
        };
        assert(s@.subrange(0, i + 1).drop_last() =~= s@.subrange(0, i as int));
        if w > k - total {
            proof {
                lemma_utf8_len_prefix(s@, i + 1);
            }
            return false;
        }
        total = total + w;
        i = i + 1;
    }
    assert(s@.subrange(0, n as int) =~= s@);
    total == k
}

/// A text takes at least as many bytes as any of its prefixes.
pub proof fn lemma_utf8_len_prefix(s: Seq<char>, i: int)
    requires
        0 <= i <= s.len(),
    ensures
        utf8_len(s.subrange(0, i)) <= utf8_len(s),
    decreases s.len() - i,
{
    if i < s.len() {
        lemma_utf8_len_prefix(s, i + 1);
        assert(s.subrange(0, i + 1).drop_last() =~= s.subrange(0, i));
    } else {
        assert(s.subrange(0, i) =~= s);
    }
}

} // verus!
