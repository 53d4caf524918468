use vstd::prelude::*;
use vstd::string::*;

verus! {

/// Why a report file yielded no reading.
#[derive(Clone, Copy, Debug, PartialEq, Eq, Structural)]
pub enum ReportError {
    /// The content nowhere matches the report grammar: the file is
    /// truncated, mid-write, garbage, or its validity marker is not `YES`.
    Malformed,
    /// A record was found, but its temperature lies outside the plausible
    /// device range of -100000..=100000 millidegrees Celsius.
    OutOfRange,
}

pub open spec fn is_hex_char(c: char) -> bool {
    ('0' <= c && c <= '9') || ('a' <= c && c <= 'f') || ('A' <= c && c <= 'F')
}

pub open spec fn is_digit_char(c: char) -> bool {
    '0' <= c && c <= '9'
}

/// `n` two-hex-digit byte values separated by single spaces, starting at
/// position `i` and occupying `3*n - 1` characters.
pub open spec fn hex_pairs_at(s: Seq<char>, i: int, n: int) -> bool
    decreases n,
{
    n <= 0 || (is_hex_char(s[i]) && is_hex_char(s[i + 1]) && (n == 1 || (s[i + 2] == ' '
        && hex_pairs_at(s, i + 3, n - 1))))
}

/// The literal validity marker ` : crc=XX YES` (13 characters) at `i`.
pub open spec fn crc_yes_at(s: Seq<char>, i: int) -> bool {
    &&& s[i] == ' '
    &&& s[i + 1] == ':'
    &&& s[i + 2] == ' '
    &&& s[i + 3] == 'c'
    &&& s[i + 4] == 'r'
    &&& s[i + 5] == 'c'
    &&& s[i + 6] == '='
    &&& is_hex_char(s[i + 7])
    &&& is_hex_char(s[i + 8])
    &&& s[i + 9] == ' '
    &&& s[i + 10] == 'Y'
    &&& s[i + 11] == 'E'
    &&& s[i + 12] == 'S'
}

/// The head of the second report line at `j`: eight space-separated hex
/// pairs, one further hex pair, then ` t=` (29 characters in all).
pub open spec fn line2_head_at(s: Seq<char>, j: int) -> bool {
    &&& hex_pairs_at(s, j, 8)
    &&& s[j + 23] == ' '
    &&& is_hex_char(s[j + 24])
    &&& is_hex_char(s[j + 25])
    &&& s[j + 26] == ' '
    &&& s[j + 27] == 't'
    &&& s[j + 28] == '='
}

/// End of the maximal run of decimal digits starting at `k`.
pub open spec fn digits_end(s: Seq<char>, k: int) -> int
    decreases s.len() - k,
{
    if k < s.len() && is_digit_char(s[k]) {
        digits_end(s, k + 1)
    } else {
        k
    }
}

/// Where the second report line starts, for a record starting at `i`: one
/// past the newline, which an optional carriage return may precede.
pub open spec fn line2_start(s: Seq<char>, i: int) -> int {
    if s[i + 39] == '\r' {
        i + 41
    } else {
        i + 40
    }
}

/// First character of the captured number (sign or first digit) of a
/// record starting at `i`.
pub open spec fn num_start(s: Seq<char>, i: int) -> int {
    line2_start(s, i) + 29
}

/// First digit of the captured number: one past an optional minus sign.
pub open spec fn num_digits_start(s: Seq<char>, k: int) -> int {
    if s[k] == '-' {
        k + 1
    } else {
        k
    }
}

/// A complete report record starts at position `i`: nine hex pairs, the
/// ` : crc=XX YES` marker, a newline (optionally preceded by a carriage
/// return), the second line's head, and at least one captured digit.
pub open spec fn report_at(s: Seq<char>, i: int) -> bool {
    let j = line2_start(s, i);
    let k = j + 29;
    let d = num_digits_start(s, k);
    &&& 0 <= i
    &&& i + 39 < s.len()
    &&& hex_pairs_at(s, i, 9)
    &&& crc_yes_at(s, i + 26)
    &&& (s[i + 39] == '\n' || (s[i + 39] == '\r' && i + 40 < s.len() && s[i + 40] == '\n'))
    &&& j + 29 <= s.len()
    &&& line2_head_at(s, j)
    &&& d < s.len()
    &&& is_digit_char(s[d])
}

/// Value of a sequence of decimal digit characters, most significant first.
pub open spec fn dec_val(ds: Seq<char>) -> int
    decreases ds.len(),
{
    if ds.len() == 0 {
        0
    } else {
        dec_val(ds.drop_last()) * 10 + (ds.last() as int - '0' as int)
    }
}

/// The signed millidegree value captured by the record starting at `i`.
pub open spec fn report_val_at(s: Seq<char>, i: int) -> int {
    let k = num_start(s, i);
    let d = num_digits_start(s, k);
    let v = dec_val(s.subrange(d, digits_end(s, d)));
    if s[k] == '-' {
        -v
    } else {
        v
    }
}

/// The embedded identifier field of the record starting at `i`: the eight
/// space-separated hex pairs that open its second line.
pub open spec fn embedded_id_at(s: Seq<char>, i: int) -> Seq<char> {
    s.subrange(line2_start(s, i), line2_start(s, i) + 23)
}

pub open spec fn has_report(s: Seq<char>) -> bool {
    exists|i: int| report_at(s, i)
}

/// `i` is the start of the last record in `s`.
pub open spec fn is_last_report_pos(s: Seq<char>, i: int) -> bool {
    report_at(s, i) && (forall|j: int| i < j ==> !report_at(s, j))
}

/// Start of the last record in `s` (meaningful only when `has_report(s)`).
pub open spec fn report_pos(s: Seq<char>) -> int {
    choose|i: int| is_last_report_pos(s, i)
}

/// The millidegree value the parser extracts: that of the last record.
pub open spec fn report_val(s: Seq<char>) -> int {
    report_val_at(s, report_pos(s))
}

/// The embedded identifier the tail strategy extracts: that of the last record.
pub open spec fn embedded_id(s: Seq<char>) -> Seq<char> {
    embedded_id_at(s, report_pos(s))
}

/// The window the tail strategy scans: the whole content when it has at
/// most 200 characters, else exactly the final 200.
pub open spec fn tail_spec(s: Seq<char>) -> Seq<char> {
    if s.len() <= 200 {
        s
    } else {
        s.subrange(s.len() - 200, s.len() as int)
    }
}

pub(crate) proof fn lemma_last_pos_agrees(s: Seq<char>, i: int)
    requires
        is_last_report_pos(s, i),
    ensures
        report_pos(s) == i,
{
    assert(exists|j: int| is_last_report_pos(s, j));
    let p = report_pos(s);
    assert(is_last_report_pos(s, p));
    if p < i {
        assert(!report_at(s, i));
    }
    if i < p {
        assert(!report_at(s, p));
    }
}

/// A content that nowhere carries the ` : crc=XX YES` validity marker —
/// one whose marker reads `NO`, or that has no marker at all — yields no
/// reading.
pub proof fn lemma_no_yes_marker_no_reading(s: Seq<char>)
    requires
        forall|i: int| !crc_yes_at(s, i),
    ensures
        !has_report(s),
{
    if has_report(s) {
        let i = choose|i: int| report_at(s, i);
        assert(crc_yes_at(s, i + 26));
    }
}

pub(crate) fn to_chars(s: &str) -> (r: Vec<char>)
    ensures
        r@ == s@,
{
    let n: usize = s.unicode_len();
    let mut r: Vec<char> = Vec::new();
    let mut i: usize = 0;
    while i < n
        invariant
            i <= n,
            n as int == s@.len(),
            r@ == s@.take(i as int),
        decreases n - i,
    {
        let c = s.get_char(i);
        r.push(c);
        i = i + 1;
        proof {
            assert(s@.take(i as int) =~= s@.take(i as int - 1).push(s@[i as int - 1]));
        }
    }
    proof {
        assert(s@.take(n as int) =~= s@);
    }
    r
}

pub(crate) fn is_hex(c: char) -> (b: bool)
    ensures
        b == is_hex_char(c),
{
    ('0' <= c && c <= '9') || ('a' <= c && c <= 'f') || ('A' <= c && c <= 'F')
}

fn is_dig(c: char) -> (b: bool)
    ensures
        b == is_digit_char(c),
{
    '0' <= c && c <= '9'
}

fn check_hex_pairs(s: &Vec<char>, i: usize, n: usize) -> (b: bool)
    requires
        n >= 1 ==> i + 3 * n - 1 <= s@.len(),
    ensures
        b == hex_pairs_at(s@, i as int, n as int),
    decreases n,
{
    // Binding the length tells the solver the index arithmetic below
    // stays within usize.
    let _len: usize = s.len();
    if n == 0 {
        true
    } else if !is_hex(s[i]) {
        false
    } else if !is_hex(s[i + 1]) {
        false
    } else if n == 1 {
        true
    } else if s[i + 2] != ' ' {
        false
    } else {
        check_hex_pairs(s, i + 3, n - 1)
    }
}

fn check_crc_yes(s: &Vec<char>, i: usize) -> (b: bool)
    requires
        i + 13 <= s@.len(),
    ensures
        b == crc_yes_at(s@, i as int),
{
    let _len: usize = s.len();
    s[i] == ' ' && s[i + 1] == ':' && s[i + 2] == ' ' && s[i + 3] == 'c' && s[i + 4] == 'r'
        && s[i + 5] == 'c' && s[i + 6] == '=' && is_hex(s[i + 7]) && is_hex(s[i + 8]) && s[i + 9]
        == ' ' && s[i + 10] == 'Y' && s[i + 11] == 'E' && s[i + 12] == 'S'
}

fn check_line2_head(s: &Vec<char>, j: usize) -> (b: bool)
    requires
        j + 29 <= s@.len(),
    ensures
        b == line2_head_at(s@, j as int),
{
    let _len: usize = s.len();
    check_hex_pairs(s, j, 8) && s[j + 23] == ' ' && is_hex(s[j + 24]) && is_hex(s[j + 25]) && s[j
        + 26] == ' ' && s[j + 27] == 't' && s[j + 28] == '='
}

fn check_report_at(s: &Vec<char>, i: usize) -> (b: bool)
    requires
        i <= s@.len(),
    ensures
        b == report_at(s@, i as int),
{
    let n = s.len();
    if n - i < 40 {
        return false;
    }
    if !check_hex_pairs(s, i, 9) {
        return false;
    }
    if !check_crc_yes(s, i + 26) {
        return false;
    }
    let c39 = s[i + 39];
    let j: usize;
    if c39 == '\n' {
        j = i + 40;
    } else if c39 == '\r' {
        if n - i < 41 {
            return false;
        }
        if s[i + 40] != '\n' {
            return false;
        }
        j = i + 41;
    } else {
        return false;
    }
    if n - j < 29 {
        return false;
    }
    if !check_line2_head(s, j) {
        return false;
    }
    let k = j + 29;
    if k >= n {
        return false;
    }
    let d: usize = if s[k] == '-' {
        k + 1
    } else {
        k
    };
    if d >= n {
        return false;
    }
    is_dig(s[d])
}

pub(crate) fn find_last_report(s: &Vec<char>) -> (r: Option<usize>)
    ensures
        match r {
            Some(i) => is_last_report_pos(s@, i as int),
            None => !has_report(s@),
        },
{
    let n = s.len();
    let mut i: usize = n;
    proof {
        assert forall|j: int| i as int <= j implies !report_at(s@, j) by {
            if report_at(s@, j) {
                assert(j + 39 < s@.len());
            }
        }
    }
    while i > 0
        invariant
            i <= n,
            n == s@.len(),
            forall|j: int| i as int <= j ==> !report_at(s@, j),
        decreases i,
    {
        i = i - 1;
        if check_report_at(s, i) {
            return Some(i);
        }
    }
    proof {
        assert forall|j: int| true implies !report_at(s@, j) by {
            if report_at(s@, j) {
                assert(j >= 0);
            }
        }
    }
    None
}

proof fn lemma_dec_val_push(q: Seq<char>, c: char)
    ensures
        dec_val(q.push(c)) == dec_val(q) * 10 + (c as int - '0' as int),
{
    assert(q.push(c).drop_last() =~= q);
    assert(q.push(c).last() == c);
}

proof fn lemma_dec_val_nonneg(q: Seq<char>)
    requires
        forall|m: int| 0 <= m < q.len() ==> is_digit_char(q[m]),
    ensures
        dec_val(q) >= 0,
    decreases q.len(),
{
    if q.len() > 0 {
        lemma_dec_val_nonneg(q.drop_last());
    }
}

pub(crate) fn report_value_at(s: &Vec<char>, i: usize) -> (v: i64)
    requires
        report_at(s@, i as int),
    ensures
        ({
            let val = report_val_at(s@, i as int);
            &&& (-100000 <= val <= 100000 ==> v == val)
            &&& (val > 100000 ==> v > 100000)
            &&& (val < -100000 ==> v < -100000)
        }),
{
    let n = s.len();
    let j: usize = if s[i + 39] == '\r' {
        i + 41
    } else {
        i + 40
    };
    let k: usize = j + 29;
    let neg: bool = s[k] == '-';
    let d: usize = if neg {
        k + 1
    } else {
        k
    };
    let ghost e = digits_end(s@, d as int);
    let mut p: usize = d;
    let mut acc: i64 = 0;
    while p < n && is_dig(s[p])
        invariant
            d <= p <= n,
            n == s@.len(),
            d < s@.len(),
            forall|m: int| d <= m < p ==> is_digit_char(s@[m]),
            digits_end(s@, p as int) == digits_end(s@, d as int),
            0 <= acc <= 1000009,
            dec_val(s@.subrange(d as int, p as int)) <= 100000 ==> acc == dec_val(
                s@.subrange(d as int, p as int),
            ),
            dec_val(s@.subrange(d as int, p as int)) > 100000 ==> acc > 100000,
        decreases n - p,
    {
        let c = s[p];
        let dv: i64 = (c as u32 as i64) - ('0' as u32 as i64);
        proof {
            let pref = s@.subrange(d as int, p as int);
            let pref2 = s@.subrange(d as int, p as int + 1);
            assert(pref2 =~= pref.push(s@[p as int]));
            lemma_dec_val_push(pref, s@[p as int]);
            assert(forall|m: int| 0 <= m < pref.len() ==> is_digit_char(pref[m]));
            lemma_dec_val_nonneg(pref);
        }
        if acc <= 100000 {
            acc = acc * 10 + dv;
        }
        p = p + 1;
    }
    proof {
        assert(digits_end(s@, p as int) == p as int);
        let ds = s@.subrange(d as int, e);
        assert(forall|m: int| 0 <= m < ds.len() ==> is_digit_char(ds[m]));
        lemma_dec_val_nonneg(ds);
    }
    if neg {
        -acc
    } else {
        acc
    }
}

pub(crate) fn line2_start_exec(s: &Vec<char>, i: usize) -> (j: usize)
    requires
        report_at(s@, i as int),
    ensures
        j as int == line2_start(s@, i as int),
        j + 23 <= s@.len(),
{
    let _len: usize = s.len();
    if s[i + 39] == '\r' {
        i + 41
    } else {
        i + 40
    }
}

/// Decode one report's content into its millidegree temperature.
///
/// Scans the content for the last well-formed record: one whose validity
/// marker reads `YES` and whose second line carries a `t=` field. Returns
/// its captured integer when it lies within the plausible device range,
/// `Malformed` when no record matches the grammar at all (which covers a
/// `NO` or missing marker), and `OutOfRange` when the captured value lies
/// outside -100000..=100000 millidegrees.
pub fn parse_report_millis(content: &str) -> (r: Result<i64, ReportError>)
    ensures
        match r {
            Ok(m) => has_report(content@) && -100000 <= m <= 100000 && m == report_val(content@),
            Err(ReportError::Malformed) => !has_report(content@),
            Err(ReportError::OutOfRange) => has_report(content@) && !(-100000 <= report_val(
                content@,
            ) <= 100000),
        },
{
    let chars = to_chars(content);
    match find_last_report(&chars) {
        None => Err(ReportError::Malformed),
        Some(i) => {
            proof {
                lemma_last_pos_agrees(chars@, i as int);
            }
            let v = report_value_at(&chars, i);
            if -100000 <= v && v <= 100000 {
                Ok(v)
            } else {
                Err(ReportError::OutOfRange)
            }
        },
    }
}

/// The window the tail-read strategy scans: the final 200 characters of
/// the content, or all of it when it is no longer than that.
pub fn tail_window(content: &str) -> (r: &str)
    ensures
        r@ == tail_spec(content@),
{
    let n: usize = content.unicode_len();
    if n <= 200 {
        content
    } else {
        content.substring_char(n - 200, n)
    }
}

/// Decode a report under the tail-read strategy: only the final 200
/// characters are scanned, so a record that lies wholly before them is
/// not found.
pub fn parse_report_tail(content: &str) -> (r: Result<i64, ReportError>)
    ensures
        match r {
            Ok(m) => has_report(tail_spec(content@)) && -100000 <= m <= 100000 && m == report_val(
                tail_spec(content@),
            ),
            Err(ReportError::Malformed) => !has_report(tail_spec(content@)),
            Err(ReportError::OutOfRange) => has_report(tail_spec(content@)) && !(-100000
                <= report_val(tail_spec(content@)) <= 100000),
        },
{
    let tail = tail_window(content);
    parse_report_millis(tail)
}

} // verus!
