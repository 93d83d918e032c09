//! Partition-key policy: the mapping between calendar dates, monthly
//! partition keys, and the canonical six-digit partition identifiers used
//! to address physical partitions.

use crate::date::Date;
use vstd::prelude::*;

verus! {

/// The calendar month a record's date belongs to, kept as a date whose day
/// component is normalized to the first of the month. Every date maps to
/// exactly one key, and all records of one month share it.
#[derive(Clone, Copy, PartialEq, Eq, Structural, Debug)]
pub struct PartitionKey {
    pub year: u32,
    pub month: u32,
    pub day: u32,
}

impl PartitionKey {
    /// A key denotes a month of a four-digit year; its day is pinned to 1.
    pub open spec fn valid(self) -> bool {
        &&& 1 <= self.year <= 9999
        &&& 1 <= self.month <= 12
        &&& self.day == 1
    }

    /// The key seen as the first date of its month.
    pub open spec fn first_day(self) -> Date {
        Date { year: self.year, month: self.month, day: self.day }
    }

    /// Months elapsed since month 1 of year 0.
    pub open spec fn month_index(self) -> int {
        self.year * 12 + self.month - 1
    }
}

/// The partition key a date belongs to: same year and month, day normalized
/// to the first of the month.
pub open spec fn spec_key_of(d: Date) -> PartitionKey {
    PartitionKey { year: d.year, month: d.month, day: 1 }
}

/// The partition key a date belongs to: same year and month, day normalized
/// to the first of the month.
pub fn key_of(d: Date) -> (k: PartitionKey)
    ensures
        k == spec_key_of(d),
        k.day == 1,
        k.month == d.month,
        k.year == d.year,
        d.valid() ==> k.valid(),
{
    PartitionKey { year: d.year, month: d.month, day: 1 }
}

/// The character for one decimal digit.
pub open spec fn digit_char(d: int) -> char {
    if d == 0 {
        '0'
    } else if d == 1 {
        '1'
    } else if d == 2 {
        '2'
    } else if d == 3 {
        '3'
    } else if d == 4 {
        '4'
    } else if d == 5 {
        '5'
    } else if d == 6 {
        '6'
    } else if d == 7 {
        '7'
    } else if d == 8 {
        '8'
    } else {
        '9'
    }
}

/// The canonical identifier text of a key: four year digits then two month
/// digits, zero-padded.
pub open spec fn id_seq(k: PartitionKey) -> Seq<char> {
    seq![
        digit_char(k.year as int / 1000),
        digit_char((k.year as int / 100) % 10),
        digit_char((k.year as int / 10) % 10),
        digit_char(k.year as int % 10),
        digit_char(k.month as int / 10),
        digit_char(k.month as int % 10),
    ]
}

/// A one-character string for one decimal digit.
pub fn digit_str(d: u32) -> (s: &'static str)
    requires
        d < 10,
    ensures
        s@ == seq![digit_char(d as int)],
{
    let s: &'static str = if d == 0 {
        "0"
    } else if d == 1 {
        "1"
    } else if d == 2 {
        "2"
    } else if d == 3 {
        "3"
    } else if d == 4 {
        "4"
    } else if d == 5 {
        "5"
    } else if d == 6 {
        "6"
    } else if d == 7 {
        "7"
    } else if d == 8 {
        "8"
    } else {
        "9"
    };
    proof {
        reveal_strlit("0");
        reveal_strlit("1");
        reveal_strlit("2");
        reveal_strlit("3");
        reveal_strlit("4");
        reveal_strlit("5");
        reveal_strlit("6");
        reveal_strlit("7");
        reveal_strlit("8");
        reveal_strlit("9");
        assert(s@ =~= seq![digit_char(d as int)]);
    }
    s
}

/// Whether a character is a decimal digit.
pub open spec fn is_digit(c: char) -> bool {
    48 <= c as int <= 57
}

/// The numeric value of a decimal digit character.
pub open spec fn digit_val(c: char) -> int {
    c as int - 48
}

/// What parsing an identifier text yields: the denoted key for a well-formed
/// six-digit `YYYYMM` text with a real month and a non-zero year, nothing
/// otherwise.
pub open spec fn spec_parse(t: Seq<char>) -> Option<PartitionKey> {
    if t.len() == 6 && is_digit(t[0]) && is_digit(t[1]) && is_digit(t[2]) && is_digit(t[3])
        && is_digit(t[4]) && is_digit(t[5]) {
        let y = digit_val(t[0]) * 1000 + digit_val(t[1]) * 100 + digit_val(t[2]) * 10 + digit_val(
            t[3],
        );
        let m = digit_val(t[4]) * 10 + digit_val(t[5]);
        if 1 <= y && 1 <= m <= 12 {
            Some(PartitionKey { year: y as u32, month: m as u32, day: 1 })
        } else {
            None
        }
    } else {
        None
    }
}

/// Parse a canonical identifier back into its partition key. Malformed
/// input — wrong length, a non-digit, an impossible month, or year zero —
/// yields nothing, so callers can silently skip foreign entries.
pub fn parse_identifier(s: &str) -> (r: Option<PartitionKey>)
    ensures
        r == spec_parse(s@),
        r is Some ==> r->0.valid(),
{
    let n = s.unicode_len();
    if n != 6 {
        return None;
    }
    let v0 = s.get_char(0) as u32;
    let v1 = s.get_char(1) as u32;
    let v2 = s.get_char(2) as u32;
    let v3 = s.get_char(3) as u32;
    let v4 = s.get_char(4) as u32;
    let v5 = s.get_char(5) as u32;
    if v0 < 48 || v0 > 57 || v1 < 48 || v1 > 57 || v2 < 48 || v2 > 57 || v3 < 48 || v3 > 57 || v4
        < 48 || v4 > 57 || v5 < 48 || v5 > 57 {
        return None;
    }
    let year = (v0 - 48) * 1000 + (v1 - 48) * 100 + (v2 - 48) * 10 + (v3 - 48);
    let month = (v4 - 48) * 10 + (v5 - 48);
    if 1 <= year && 1 <= month && month <= 12 {
        Some(PartitionKey { year, month, day: 1 })
    } else {
        None
    }
}

/// Each digit character carries its own value and is recognized as a digit.
proof fn lemma_digit_char_val(d: int)
    requires
        0 <= d < 10,
    ensures
        is_digit(digit_char(d)),
        digit_val(digit_char(d)) == d,
{
}

/// `parse_identifier` is the inverse of `identifier_of`: the canonical text
/// of any valid partition key parses back to exactly that key.
#[verifier::rlimit(50)]
pub proof fn lemma_parse_identifier_inverse(k: PartitionKey)
    requires
        k.valid(),
    ensures
        spec_parse(id_seq(k)) == Some(k),
{
    let y = k.year as int;
    let m = k.month as int;
    lemma_digit_char_val(y / 1000);
    lemma_digit_char_val((y / 100) % 10);
    lemma_digit_char_val((y / 10) % 10);
    lemma_digit_char_val(y % 10);
    lemma_digit_char_val(m / 10);
    lemma_digit_char_val(m % 10);
    assert((y / 1000) * 1000 + ((y / 100) % 10) * 100 + ((y / 10) % 10) * 10 + y % 10 == y);
    assert((m / 10) * 10 + m % 10 == m);
}

/// A digit character is recovered from its value.
proof fn lemma_digit_char_of_val(c: char)
    requires
        is_digit(c),
    ensures
        digit_char(digit_val(c)) == c,
{
}

/// `identifier_of` is also the inverse of `parse_identifier`: a text that
/// parses to a key is that key's canonical identifier, so the canonical
/// form is unique.
pub proof fn lemma_identifier_canonical(t: Seq<char>, k: PartitionKey)
    requires
        spec_parse(t) == Some(k),
    ensures
        t == id_seq(k),
{
    let d0 = digit_val(t[0]);
    let d1 = digit_val(t[1]);
    let d2 = digit_val(t[2]);
    let d3 = digit_val(t[3]);
    let d4 = digit_val(t[4]);
    let d5 = digit_val(t[5]);
    let y = d0 * 1000 + d1 * 100 + d2 * 10 + d3;
    let m = d4 * 10 + d5;
    assert(k.year == y && k.month == m);
    assert(y / 1000 == d0 && (y / 100) % 10 == d1 && (y / 10) % 10 == d2 && y % 10 == d3);
    assert(m / 10 == d4 && m % 10 == d5);
    lemma_digit_char_of_val(t[0]);
    lemma_digit_char_of_val(t[1]);
    lemma_digit_char_of_val(t[2]);
    lemma_digit_char_of_val(t[3]);
    lemma_digit_char_of_val(t[4]);
    lemma_digit_char_of_val(t[5]);
    assert(t =~= id_seq(k));
}

/// A partition identifier: the only value ever interpolated into statement
/// text as a partition name. It can be constructed solely from a valid
/// partition key, so its text is always exactly six decimal digits.
pub struct PartitionId {
    text: String,
    key: Ghost<PartitionKey>,
}

impl PartitionId {
    /// The identifier text.
    pub closed spec fn view(self) -> Seq<char> {
        self.text@
    }

    /// The key this identifier denotes.
    pub closed spec fn key(self) -> PartitionKey {
        self.key@
    }

    /// An identifier always carries the six-digit text of a valid key.
    pub open spec fn wf(self) -> bool {
        &&& self.key().valid()
        &&& self@ == id_seq(self.key())
    }

    /// The identifier text as a string slice.
    pub fn as_str(&self) -> (s: &str)
        ensures
            s@ == self@,
    {
        self.text.as_str()
    }
}

/// The canonical identifier of a partition key: `YYYYMM`, digits only,
/// fixed width.
pub fn identifier_of(k: &PartitionKey) -> (id: PartitionId)
    requires
        k.valid(),
    ensures
        id.wf(),
        id.key() == *k,
        id@ == id_seq(*k),
{
    let mut text = String::new();
    text.append(digit_str(k.year / 1000));
    text.append(digit_str((k.year / 100) % 10));
    text.append(digit_str((k.year / 10) % 10));
    text.append(digit_str(k.year % 10));
    text.append(digit_str(k.month / 10));
    text.append(digit_str(k.month % 10));
    proof {
        assert(text@ =~= id_seq(*k));
    }
    PartitionId { text, key: Ghost(*k) }
}

} // verus!
