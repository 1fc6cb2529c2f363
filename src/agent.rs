//! Agent records: identity and names of the participants of a recording.
use vstd::prelude::*;
use vstd::string::StrSliceExecFns;
use vstd::string::StringExecFns;
use crate::bytes::{fits, le64, read_u64_le};
use crate::text::{
    decode_lossy, is_digit, find_char_from, index_from, lemma_index_from, push_char, rfind_char,
    skip_leading, str_eq, strip_leading, trim, trim_ws, utf8_lossy,
};

verus! {

/// Width of one agent record.
pub const AGENT_SIZE: usize = 96;

/// Where the name blob starts inside an agent record.
pub const NAME_OFFSET: usize = 28;

/// Width of the name blob.
pub const NAME_SIZE: usize = 64;

#[derive(Debug, Clone)]
pub struct EVTCAgent {
    pub addr: u64,
    pub character: String,
    pub account: String,
}

/// What an agent is, as plain values.
pub ghost struct AgentModel {
    pub addr: u64,
    pub character: Seq<char>,
    pub account: Seq<char>,
}

impl View for EVTCAgent {
    type V = AgentModel;

    open spec fn view(&self) -> AgentModel {
        AgentModel { addr: self.addr, character: self.character@, account: self.account@ }
    }
}

/// Adds the segment gathered so far to the parts, once decoded and trimmed,
/// unless it or what is left of it is empty.
pub open spec fn flush(done: Seq<Seq<char>>, cur: Seq<u8>) -> Seq<Seq<char>> {
    if cur.len() == 0 {
        done
    } else {
        let t = trim_ws(utf8_lossy(cur));
        if t.len() == 0 {
            done
        } else {
            done.push(t)
        }
    }
}

/// The parts finished and the segment being gathered after the first `i` bytes.
pub open spec fn split_state(b: Seq<u8>, i: int) -> (Seq<Seq<char>>, Seq<u8>)
    decreases i,
{
    if i <= 0 {
        (Seq::empty(), Seq::empty())
    } else {
        let (d, c) = split_state(b, i - 1);
        if b[i - 1] == 0 {
            (flush(d, c), Seq::empty())
        } else {
            (d, c.push(b[i - 1]))
        }
    }
}

/// The non-empty trimmed texts between the zero bytes of a name blob.
pub open spec fn name_parts(b: Seq<u8>) -> Seq<Seq<char>> {
    let (d, c) = split_state(b, b.len() as int);
    flush(d, c)
}

/// Character name and account name from the parts of a name blob: a first part
/// with a colon is split at it; otherwise a second part, without its leading
/// colons, is the account.
pub open spec fn names_of(parts: Seq<Seq<char>>) -> (Seq<char>, Seq<char>) {
    if parts.len() == 0 {
        (Seq::empty(), Seq::empty())
    } else {
        let f = parts[0];
        let i = index_from(f, ':', 0);
        if i < f.len() {
            let j = index_from(f, ':', i + 1);
            (trim_ws(f.subrange(0, i)), trim_ws(f.subrange(i + 1, j)))
        } else {
            (
                trim_ws(f),
                if parts.len() > 1 {
                    trim_ws(skip_leading(parts[1], ':'))
                } else {
                    Seq::empty()
                },
            )
        }
    }
}

/// The agent described by the record at `o`.
pub open spec fn agent_at(s: Seq<u8>, o: int) -> AgentModel {
    let names = names_of(name_parts(s.subrange(o + 28, o + 92)));
    AgentModel { addr: le64(s, o) as u64, character: names.0, account: names.1 }
}

/// An account name of a player ends in a period and four digits.
pub open spec fn is_account_tag(a: Seq<char>) -> bool {
    a.len() >= 5 && a[a.len() - 5] == '.' && forall|j: int|
        a.len() - 4 <= j < a.len() ==> is_digit(#[trigger] a[j])
}

pub open spec fn is_prof_name(s: Seq<char>) -> bool {
    s == "Guardian"@ || s == "Warrior"@ || s == "Revenant"@ || s == "Engineer"@ || s
        == "Ranger"@ || s == "Thief"@ || s == "Elementalist"@ || s == "Mesmer"@ || s
        == "Necromancer"@ || s == "Dragonhunter"@ || s == "Firebrand"@ || s == "Willbender"@
        || s == "Berserker"@ || s == "Spellbreaker"@ || s == "Bladesworn"@ || s == "Herald"@
        || s == "Renegade"@ || s == "Vindicator"@ || s == "Scrapper"@ || s == "Holosmith"@ || s
        == "Mechanist"@ || s == "Druid"@ || s == "Soulbeast"@ || s == "Untamed"@ || s
        == "Daredevil"@ || s == "Deadeye"@ || s == "Specter"@ || s == "Tempest"@ || s
        == "Weaver"@ || s == "Catalyst"@ || s == "Chronomancer"@ || s == "Mirage"@ || s
        == "Virtuoso"@ || s == "Reaper"@ || s == "Scourge"@ || s == "Harbinger"@
}

/// A player whose character name is not a profession or specialization name.
pub open spec fn is_commander_candidate(a: AgentModel) -> bool {
    is_account_tag(a.account) && !is_prof_name(a.character)
}

pub open spec fn hex_digit(d: nat) -> char {
    if d == 0 { '0' } else if d == 1 { '1' } else if d == 2 { '2' } else if d == 3 { '3' }
    else if d == 4 { '4' } else if d == 5 { '5' } else if d == 6 { '6' } else if d == 7 { '7' }
    else if d == 8 { '8' } else if d == 9 { '9' } else if d == 10 { 'a' } else if d == 11 { 'b' }
    else if d == 12 { 'c' } else if d == 13 { 'd' } else if d == 14 { 'e' } else { 'f' }
}

/// Lower-case hexadecimal digits of `n`, without leading zeros.
pub open spec fn hex_of(n: nat) -> Seq<char>
    decreases n,
{
    if n < 16 {
        seq![hex_digit(n)]
    } else {
        hex_of(n / 16).push(hex_digit(n % 16))
    }
}

/// The character name, or the address in hexadecimal when there is none.
pub open spec fn display_of(a: AgentModel) -> Seq<char> {
    if a.character.len() > 0 {
        a.character
    } else {
        "0x"@ + hex_of(a.addr as nat)
    }
}

pub(crate) fn hex_digit_char(d: u64) -> (c: char)
    requires
        d < 16,
    ensures
        c == hex_digit(d as nat),
{
    match d {
        0 => '0',
        1 => '1',
        2 => '2',
        3 => '3',
        4 => '4',
        5 => '5',
        6 => '6',
        7 => '7',
        8 => '8',
        9 => '9',
        10 => 'a',
        11 => 'b',
        12 => 'c',
        13 => 'd',
        14 => 'e',
        _ => 'f',
    }
}

/// The lower-case hexadecimal rendering of `n`.
pub fn hex_string(n: u64) -> (r: String)
    ensures
        r@ == hex_of(n as nat),
    decreases n,
{
    if n < 16 {
        let mut s = String::new();
        push_char(&mut s, hex_digit_char(n));
        s
    } else {
        let mut s = hex_string(n / 16);
        push_char(&mut s, hex_digit_char(n % 16));
        s
    }
}

/// Whether `s` is one of the profession or specialization names.
fn is_prof_or_spec_name(s: &str) -> (r: bool)
    ensures
        r == is_prof_name(s@),
{
    str_eq(s, "Guardian") || str_eq(s, "Warrior") || str_eq(s, "Revenant") || str_eq(
        s,
        "Engineer",
    ) || str_eq(s, "Ranger") || str_eq(s, "Thief") || str_eq(s, "Elementalist") || str_eq(
        s,
        "Mesmer",
    ) || str_eq(s, "Necromancer") || str_eq(s, "Dragonhunter") || str_eq(s, "Firebrand")
        || str_eq(s, "Willbender") || str_eq(s, "Berserker") || str_eq(s, "Spellbreaker")
        || str_eq(s, "Bladesworn") || str_eq(s, "Herald") || str_eq(s, "Renegade") || str_eq(
        s,
        "Vindicator",
    ) || str_eq(s, "Scrapper") || str_eq(s, "Holosmith") || str_eq(s, "Mechanist") || str_eq(
        s,
        "Druid",
    ) || str_eq(s, "Soulbeast") || str_eq(s, "Untamed") || str_eq(s, "Daredevil") || str_eq(
        s,
        "Deadeye",
    ) || str_eq(s, "Specter") || str_eq(s, "Tempest") || str_eq(s, "Weaver") || str_eq(
        s,
        "Catalyst",
    ) || str_eq(s, "Chronomancer") || str_eq(s, "Mirage") || str_eq(s, "Virtuoso") || str_eq(
        s,
        "Reaper",
    ) || str_eq(s, "Scourge") || str_eq(s, "Harbinger")
}

pub open spec fn views(v: Seq<String>) -> Seq<Seq<char>> {
    v.map_values(|p: String| p@)
}

/// Decodes and trims `cur` and keeps it when something is left.
fn flush_segment(parts: &mut Vec<String>, cur: &Vec<u8>)
    ensures
        views(final(parts)@) == flush(views(old(parts)@), cur@),
{
    if cur.len() > 0 {
        let decoded = decode_lossy(cur.as_slice());
        let t = trim(decoded.as_str());
        if t.unicode_len() > 0 {
            parts.push(t);
            assert(views(parts@) =~= views(old(parts)@).push(t@));
        }
    }
}

/// Splits a name blob at its zero bytes into non-empty trimmed texts.
pub fn split_name_blob(blob: &[u8]) -> (r: Vec<String>)
    ensures
        views(r@) == name_parts(blob@),
{
    let mut parts: Vec<String> = Vec::new();
    let mut cur: Vec<u8> = Vec::new();
    let mut i: usize = 0;
    assert(views(parts@) =~= Seq::<Seq<char>>::empty());
    while i < blob.len()
        invariant
            i <= blob@.len(),
            (views(parts@), cur@) == split_state(blob@, i as int),
        decreases blob.len() - i,
    {
        let b = blob[i];
        if b == 0 {
            flush_segment(&mut parts, &cur);
            cur = Vec::new();
            assert(cur@ =~= Seq::<u8>::empty());
        } else {
            cur.push(b);
        }
        i = i + 1;
    }
    flush_segment(&mut parts, &cur);
    parts
}

/// Character and account names from the parts of a name blob.
fn names_from_parts(parts: &Vec<String>) -> (r: (String, String))
    ensures
        (r.0@, r.1@) == names_of(views(parts@)),
{
    if parts.len() == 0 {
        return (String::new(), String::new());
    }
    let first = parts[0].as_str();
    let n = first.unicode_len();
    assert(views(parts@)[0] == first@);
    let i = find_char_from(first, ':', 0);
    if i < n {
        proof {
            lemma_index_from(first@, ':', 0);
            lemma_index_from(first@, ':', i + 1);
        }
        let j = find_char_from(first, ':', i + 1);
        let character = trim(first.substring_char(0, i));
        let account = trim(first.substring_char(i + 1, j));
        (character, account)
    } else {
        let character = trim(first);
        let account = if parts.len() > 1 {
            assert(views(parts@)[1] == parts@[1]@);
            trim(strip_leading(parts[1].as_str(), ':'))
        } else {
            String::new()
        };
        (character, account)
    }
}

impl EVTCAgent {
    /// Parses the agent record at `offset`; `None` when it runs past the end.
    pub fn from_bytes(data: &[u8], offset: usize) -> (r: Option<EVTCAgent>)
        ensures
            r is Some <==> fits(data@.len() as int, offset as int, AGENT_SIZE as int),
            r matches Some(a) ==> a@ == agent_at(data@, offset as int),
    {
        if offset > data.len() || data.len() - offset < AGENT_SIZE {
            return None;
        }
        let addr = read_u64_le(data, offset).unwrap();
        let blob = vstd::slice::slice_subrange(data, offset + NAME_OFFSET, offset + NAME_OFFSET + NAME_SIZE);
        let parts = split_name_blob(blob);
        let (character, account) = names_from_parts(&parts);
        Some(EVTCAgent { addr, character, account })
    }

    /// Whether the account name ends in a period and exactly four ASCII digits.
    pub fn is_player(&self) -> (r: bool)
        ensures
            r == is_account_tag(self.account@),
    {
        let acc = self.account.as_str();
        let n = acc.unicode_len();
        if n == 0 {
            return false;
        }
        match rfind_char(acc, '.') {
            Some(k) => {
                if n - k - 1 != 4 {
                    if n >= 5 {
                        assert(acc@[n - 5] != '.' || !is_digit(acc@[n - 4]) || !is_digit(acc@[n - 3])
                            || !is_digit(acc@[n - 2]) || !is_digit(acc@[n - 1])) by {
                            if acc@[n - 5] == '.' {
                                assert(k >= n - 4);
                                assert(acc@[k as int] == '.');
                            }
                        }
                    }
                    return false;
                }
                let mut j: usize = k + 1;
                while j < n
                    invariant
                        k + 1 <= j <= n,
                        k + 5 == n,
                        n == acc@.len(),
                        acc@ == self.account@,
                        acc@[k as int] == '.',
                        forall|q: int| k + 1 <= q < j ==> is_digit(#[trigger] acc@[q]),
                    decreases n - j,
                {
                    let c = acc.get_char(j);
                    if !('0' <= c && c <= '9') {
                        assert(!is_account_tag(acc@)) by {
                            assert(acc@.len() - 4 <= j < acc@.len());
                            assert(!is_digit(acc@[j as int]));
                        }
                        return false;
                    }
                    j = j + 1;
                }
                true
            },
            None => {
                if n >= 5 {
                    assert(acc@[n - 5] != '.');
                }
                false
            },
        }
    }

    pub fn is_valid_commander_candidate(&self) -> (r: bool)
        ensures
            r == is_commander_candidate(self@),
    {
        self.is_player() && !is_prof_or_spec_name(self.character.as_str())
    }

    /// The character name, or `0x` and the address in hexadecimal when it is empty.
    pub fn display_name(&self) -> (r: String)
        ensures
            r@ == display_of(self@),
    {
        if self.character.unicode_len() > 0 {
            self.character.clone()
        } else {
            let mut s = String::from_str("0x");
            let h = hex_string(self.addr);
            s.append(h.as_str());
            s
        }
    }
}

} // verus!
