//! Scanning and splitting of byte text.
//!
//! The files this crate reads are ASCII-delimited: every delimiter is a
//! single byte below 0x80, which never occurs inside a multi-byte UTF-8
//! sequence. Splitting on bytes therefore cuts valid UTF-8 into valid UTF-8.

use vstd::prelude::*;
use vstd::slice::*;

verus! {

/// Line feed.
pub const LF: u8 = 10;

/// Carriage return.
pub const CR: u8 = 13;

/// The classes of bytes that the scanners tell apart.
#[derive(Clone, Copy, Debug, PartialEq, Eq)]
pub enum ByteClass {
    /// ASCII white space: tab, line feed, vertical tab, form feed,
    /// carriage return and space.
    Blank,
    /// White space between fields: `Blank` without the vertical tab.
    Gap,
    /// Any byte that is no `Gap`.
    Field,
    /// A decimal digit.
    Digit,
    /// An ASCII byte that is neither a letter, a digit nor an underscore.
    Separator,
    /// Any byte but the given one.
    Until(u8),
}

impl ByteClass {
    /// Whether `b` belongs to the class.
    pub open spec fn holds(self, b: u8) -> bool {
        match self {
            ByteClass::Blank => (9 <= b <= 13) || b == 32,
            ByteClass::Gap => b == 9 || b == 10 || b == 12 || b == 13 || b == 32,
            ByteClass::Field => !(b == 9 || b == 10 || b == 12 || b == 13 || b == 32),
            ByteClass::Digit => 48 <= b <= 57,
            ByteClass::Separator => b < 128 && !(48 <= b <= 57) && !(65 <= b <= 90) && !(97 <= b
                <= 122) && b != 95,
            ByteClass::Until(stop) => b != stop,
        }
    }

    /// Tests one byte against the class.
    pub fn test(&self, b: u8) -> (r: bool)
        ensures
            r == self.holds(b),
    {
        match self {
            ByteClass::Blank => (9 <= b && b <= 13) || b == 32,
            ByteClass::Gap => b == 9 || b == 10 || b == 12 || b == 13 || b == 32,
            ByteClass::Field => !(b == 9 || b == 10 || b == 12 || b == 13 || b == 32),
            ByteClass::Digit => 48 <= b && b <= 57,
            ByteClass::Separator => b < 128 && !(48 <= b && b <= 57) && !(65 <= b && b <= 90) && !(
            97 <= b && b <= 122) && b != 95,
            ByteClass::Until(stop) => b != *stop,
        }
    }
}

/// Where the run of `class` bytes that starts at `from` ends: the first
/// index at or after `from` whose byte is outside the class, or the length
/// of `s`. Outside `s` there is no run, and the result is `from`.
pub open spec fn run_end(s: Seq<u8>, from: int, class: ByteClass) -> int
    decreases s.len() - from,
{
    if 0 <= from < s.len() && class.holds(s[from]) {
        run_end(s, from + 1, class)
    } else {
        from
    }
}

/// Where the run of `class` bytes that ends before `to` starts: the least
/// index such that every byte from there up to `to` is in the class.
pub open spec fn run_start(s: Seq<u8>, to: int, class: ByteClass) -> int
    decreases to,
{
    if 0 < to <= s.len() && class.holds(s[to - 1]) {
        run_start(s, to - 1, class)
    } else {
        to
    }
}

/// What `run_end` returns, said without recursion.
pub proof fn lemma_run_end(s: Seq<u8>, from: int, class: ByteClass)
    requires
        0 <= from <= s.len(),
    ensures
        from <= run_end(s, from, class) <= s.len(),
        forall|j: int| from <= j < run_end(s, from, class) ==> class.holds(#[trigger] s[j]),
        run_end(s, from, class) < s.len() ==> !class.holds(s[run_end(s, from, class)]),
    decreases s.len() - from,
{
    if from < s.len() && class.holds(s[from]) {
        lemma_run_end(s, from + 1, class);
    }
}

/// Scans forward from `from` over the bytes of `class`.
pub fn scan(s: &[u8], from: usize, class: ByteClass) -> (end: usize)
    ensures
        end == run_end(s@, from as int, class),
        from <= end,
        from <= s.len() ==> end <= s.len(),
{
    let mut i: usize = from;
    while i < s.len() && class.test(s[i])
        invariant
            from <= i,
            from <= s.len() ==> i <= s.len(),
            run_end(s@, from as int, class) == run_end(s@, i as int, class),
        decreases s.len() - i,
    {
        i += 1;
    }
    i
}

/// Scans backward from `to` over the bytes of `class`.
pub fn scan_back(s: &[u8], to: usize, class: ByteClass) -> (start: usize)
    ensures
        start == run_start(s@, to as int, class),
        start <= to,
{
    let mut i: usize = to;
    while 0 < i && i <= s.len() && class.test(s[i - 1])
        invariant
            i <= to,
            run_start(s@, to as int, class) == run_start(s@, i as int, class),
        decreases i,
    {
        i -= 1;
    }
    i
}

/// `s` without the white space at its two ends.
pub open spec fn trimmed(s: Seq<u8>) -> Seq<u8> {
    let start = run_end(s, 0, ByteClass::Blank);
    let end = run_start(s, s.len() as int, ByteClass::Blank);
    if start < end {
        s.subrange(start, end)
    } else {
        Seq::empty()
    }
}

/// Removes the white space at the two ends of `s`.
pub fn trim(s: &[u8]) -> (r: &[u8])
    ensures
        r@ == trimmed(s@),
{
    let start = scan(s, 0, ByteClass::Blank);
    let end = scan_back(s, s.len(), ByteClass::Blank);
    if start < end {
        slice_subrange(s, start, end)
    } else {
        slice_subrange(s, 0, 0)
    }
}

/// The parts of `s` before and after the first `b`, if there is one.
pub open spec fn split_at_first(s: Seq<u8>, b: u8) -> Option<(Seq<u8>, Seq<u8>)> {
    let at = run_end(s, 0, ByteClass::Until(b));
    if at < s.len() {
        Some((s.subrange(0, at), s.subrange(at + 1, s.len() as int)))
    } else {
        None
    }
}

/// Splits `s` at the first `b`, which goes to neither part.
pub fn split_once(s: &[u8], b: u8) -> (r: Option<(&[u8], &[u8])>)
    ensures
        match r {
            Some((head, tail)) => split_at_first(s@, b) == Some((head@, tail@)),
            None => split_at_first(s@, b).is_none(),
        },
{
    let at = scan(s, 0, ByteClass::Until(b));
    if at < s.len() {
        Some((slice_subrange(s, 0, at), slice_subrange(s, at + 1, s.len())))
    } else {
        None
    }
}

/// Whether `p` stands in `s` at index `at`.
pub open spec fn occurs_at(s: Seq<u8>, at: int, p: Seq<u8>) -> bool {
    0 <= at && at + p.len() <= s.len() && s.subrange(at, at + p.len()) == p
}

/// Whether `s` begins with `p`.
pub open spec fn has_prefix(s: Seq<u8>, p: Seq<u8>) -> bool {
    occurs_at(s, 0, p)
}

/// Whether `p` stands anywhere in `s`.
pub open spec fn occurs_in(s: Seq<u8>, p: Seq<u8>) -> bool {
    exists|at: int| occurs_at(s, at, p)
}

/// Compares the bytes of `s` from `at` on with `p`.
pub fn matches_at(s: &[u8], at: usize, p: &[u8]) -> (r: bool)
    ensures
        r == occurs_at(s@, at as int, p@),
{
    if at > s.len() || p.len() > s.len() - at {
        return false;
    }
    let mut k: usize = 0;
    while k < p.len()
        invariant
            k <= p.len(),
            at + p.len() <= s.len(),
            forall|j: int| 0 <= j < k ==> s@[at + j] == p@[j],
        decreases p.len() - k,
    {
        if s[at + k] != p[k] {
            assert(s@.subrange(at as int, at + p.len())[k as int] != p@[k as int]);
            return false;
        }
        k += 1;
    }
    assert(s@.subrange(at as int, at + p.len()) =~= p@);
    true
}

/// Whether `s` begins with `p`.
pub fn starts_with(s: &[u8], p: &[u8]) -> (r: bool)
    ensures
        r == has_prefix(s@, p@),
{
    matches_at(s, 0, p)
}

/// Whether `p` stands anywhere in `s`.
pub fn contains(s: &[u8], p: &[u8]) -> (r: bool)
    ensures
        r == occurs_in(s@, p@),
{
    let mut at: usize = 0;
    while at < s.len()
        invariant
            at <= s.len(),
            forall|j: int| 0 <= j < at ==> !occurs_at(s@, j, p@),
        decreases s.len() - at,
    {
        if matches_at(s, at, p) {
            return true;
        }
        at += 1;
    }
    matches_at(s, at, p)
}

/// The views of a list of owned byte strings.
pub open spec fn views(items: Seq<Vec<u8>>) -> Seq<Seq<u8>> {
    Seq::new(items.len(), |i: int| items[i]@)
}

/// The views of a list of borrowed byte strings.
pub open spec fn slice_views(items: Seq<&[u8]>) -> Seq<Seq<u8>> {
    Seq::new(items.len(), |i: int| items[i]@)
}

/// The line that runs from `from` to `end`, where `end` is its line feed
/// or the end of the text. A carriage return before the line feed belongs
/// to the line ending.
pub open spec fn line_body(s: Seq<u8>, from: int, end: int) -> Seq<u8> {
    if end < s.len() && from < end && s[end - 1] == CR {
        s.subrange(from, end - 1)
    } else {
        s.subrange(from, end)
    }
}

/// The lines of `s` from index `from` on.
pub open spec fn lines_from(s: Seq<u8>, from: int) -> Seq<Seq<u8>>
    decreases s.len() - from,
    via lines_from_terminates
{
    if 0 <= from < s.len() {
        let end = run_end(s, from, ByteClass::Until(LF));
        if end < s.len() {
            seq![line_body(s, from, end)] + lines_from(s, end + 1)
        } else {
            seq![line_body(s, from, end)]
        }
    } else {
        Seq::empty()
    }
}

#[via_fn]
proof fn lines_from_terminates(s: Seq<u8>, from: int) {
    if 0 <= from < s.len() {
        lemma_run_end(s, from, ByteClass::Until(LF));
    }
}

/// The lines of `s`. Each ends at a line feed or at the end of the text; the
/// line feed, and a carriage return just before it, are not part of the
/// line. A text that ends in a line feed has no empty last line.
pub open spec fn lines_of(s: Seq<u8>) -> Seq<Seq<u8>> {
    lines_from(s, 0)
}

/// Splits `s` into its lines.
pub fn lines(s: &[u8]) -> (out: Vec<&[u8]>)
    ensures
        slice_views(out@) == lines_of(s@),
{
    let mut out: Vec<&[u8]> = Vec::new();
    let mut i: usize = 0;
    while i < s.len()
        invariant
            i <= s.len(),
            slice_views(out@) + lines_from(s@, i as int) == lines_of(s@),
        decreases s.len() - i,
    {
        let end = scan(s, i, ByteClass::Until(LF));
        let stop: usize = if end < s.len() && i < end && s[end - 1] == CR {
            end - 1
        } else {
            end
        };
        let line = slice_subrange(s, i, stop);
        let next: usize = if end < s.len() {
            end + 1
        } else {
            end
        };
        proof {
            assert(line@ == line_body(s@, i as int, end as int));
            assert(end == s.len() ==> lines_from(s@, next as int) =~= Seq::empty());
            assert(slice_views(out@.push(line)) + lines_from(s@, next as int) =~= slice_views(
                out@,
            ) + lines_from(s@, i as int));
        }
        out.push(line);
        i = next;
    }
    assert(slice_views(out@) + lines_from(s@, i as int) =~= slice_views(out@));
    out
}

/// Appends the bytes of `s` to `out`.
pub fn append(out: &mut Vec<u8>, s: &[u8])
    ensures
        final(out)@ == old(out)@ + s@,
{
    out.extend_from_slice(s);
    assert(out@ =~= old(out)@ + s@);
}

/// The items of a list, with `sep` between each two.
pub open spec fn joined(items: Seq<Seq<u8>>, sep: Seq<u8>) -> Seq<u8>
    decreases items.len(),
{
    if items.len() == 0 {
        Seq::empty()
    } else if items.len() == 1 {
        items[0]
    } else {
        joined(items.drop_last(), sep) + sep + items.last()
    }
}

/// Joins the items of a list with `sep` between each two.
pub fn join(items: &Vec<Vec<u8>>, sep: &[u8]) -> (out: Vec<u8>)
    ensures
        out@ == joined(views(items@), sep@),
{
    let mut out: Vec<u8> = Vec::new();
    let mut i: usize = 0;
    while i < items.len()
        invariant
            i <= items.len(),
            out@ == joined(views(items@).take(i as int), sep@),
        decreases items.len() - i,
    {
        if i > 0 {
            append(&mut out, sep);
        }
        append(&mut out, items[i].as_slice());
        proof {
            let all = views(items@);
            assert(all.take(i + 1).drop_last() =~= all.take(i as int));
            assert(all.take(i + 1).last() == items[i as int]@);
        }
        i += 1;
    }
    assert(views(items@).take(i as int) =~= views(items@));
    out
}

/// The decimal digits of `n`, without leading zeros.
pub open spec fn decimal(n: nat) -> Seq<u8>
    decreases n,
{
    if n < 10 {
        seq![(48 + n) as u8]
    } else {
        decimal(n / 10).push((48 + n % 10) as u8)
    }
}

/// Appends the decimal digits of `n` to `out`.
pub fn push_decimal(out: &mut Vec<u8>, n: u64)
    ensures
        final(out)@ == old(out)@ + decimal(n as nat),
    decreases n,
{
    if n >= 10 {
        push_decimal(out, n / 10);
    }
    let digit: u8 = 48 + (n % 10) as u8;
    out.push(digit);
    assert(out@ =~= old(out)@ + decimal(n as nat));
}

/// Whether every byte of `s` is in `class`.
pub open spec fn all_in(s: Seq<u8>, class: ByteClass) -> bool {
    forall|i: int| 0 <= i < s.len() ==> class.holds(#[trigger] s[i])
}

/// The number that the decimal digits `s` write.
pub open spec fn digits_value(s: Seq<u8>) -> nat
    decreases s.len(),
{
    if s.len() == 0 {
        0
    } else {
        digits_value(s.drop_last()) * 10 + (s.last() - 48) as nat
    }
}

/// The number that `s` writes in decimal, where `s` is one digit or more
/// and the number fits 64 bits.
pub open spec fn parsed_decimal(s: Seq<u8>) -> Option<u64> {
    if s.len() > 0 && all_in(s, ByteClass::Digit) && digits_value(s) <= u64::MAX {
        Some(digits_value(s) as u64)
    } else {
        None
    }
}

/// A number never gets smaller by writing more digits behind it.
pub proof fn lemma_digits_value_grows(s: Seq<u8>, k: int)
    requires
        0 <= k <= s.len(),
    ensures
        digits_value(s.take(k)) <= digits_value(s),
    decreases s.len() - k,
{
    if k < s.len() {
        lemma_digits_value_grows(s, k + 1);
        assert(s.take(k + 1).drop_last() =~= s.take(k));
    } else {
        assert(s.take(k) =~= s);
    }
}

/// Reads a decimal number.
pub fn parse_decimal(s: &[u8]) -> (r: Option<u64>)
    ensures
        r == parsed_decimal(s@),
{
    if s.len() == 0 {
        return None;
    }
    let mut value: u64 = 0;
    let mut i: usize = 0;
    while i < s.len()
        invariant
            i <= s.len(),
            value == digits_value(s@.take(i as int)),
            all_in(s@.take(i as int), ByteClass::Digit),
        decreases s.len() - i,
    {
        let b = s[i];
        if !(48 <= b && b <= 57) {
            return None;
        }
        proof {
            assert(s@.take(i + 1).drop_last() =~= s@.take(i as int));
            lemma_digits_value_grows(s@, i + 1);
        }
        let scaled = match value.checked_mul(10) {
            Some(x) => x,
            None => { return None; },
        };
        value = match scaled.checked_add((b - 48) as u64) {
            Some(x) => x,
            None => { return None; },
        };
        i += 1;
    }
    assert(s@.take(i as int) =~= s@);
    Some(value)
}

/// The value of a hexadecimal digit, in either case.
pub open spec fn hex_digit(b: u8) -> Option<nat> {
    if 48 <= b <= 57 {
        Some((b - 48) as nat)
    } else if 97 <= b <= 102 {
        Some((b - 87) as nat)
    } else if 65 <= b <= 70 {
        Some((b - 55) as nat)
    } else {
        None
    }
}

/// Whether every byte of `s` is a hexadecimal digit.
pub open spec fn all_hex(s: Seq<u8>) -> bool {
    forall|i: int| 0 <= i < s.len() ==> hex_digit(#[trigger] s[i]) is Some
}

/// The number that the hexadecimal digits `s` write.
pub open spec fn hex_value(s: Seq<u8>) -> nat
    decreases s.len(),
{
    if s.len() == 0 {
        0
    } else {
        hex_value(s.drop_last()) * 16 + match hex_digit(s.last()) {
            Some(d) => d,
            None => 0,
        }
    }
}

/// The number that `s` writes in hexadecimal, where `s` is one digit or
/// more, with or without a plus sign before them, and the number fits 16
/// bits.
pub open spec fn parsed_hex_u16(s: Seq<u8>) -> Option<u16> {
    let digits = if s.len() > 0 && s[0] == 43 {
        s.subrange(1, s.len() as int)
    } else {
        s
    };
    if digits.len() > 0 && all_hex(digits) && hex_value(digits) <= u16::MAX {
        Some(hex_value(digits) as u16)
    } else {
        None
    }
}

/// A number never gets smaller by writing more digits behind it.
pub proof fn lemma_hex_value_grows(s: Seq<u8>, k: int)
    requires
        0 <= k <= s.len(),
    ensures
        hex_value(s.take(k)) <= hex_value(s),
    decreases s.len() - k,
{
    if k < s.len() {
        lemma_hex_value_grows(s, k + 1);
        assert(s.take(k + 1).drop_last() =~= s.take(k));
    } else {
        assert(s.take(k) =~= s);
    }
}

/// Reads the value of one hexadecimal digit.
pub fn read_hex_digit(b: u8) -> (r: Option<u8>)
    ensures
        match r {
            Some(d) => hex_digit(b) == Some(d as nat),
            None => hex_digit(b).is_none(),
        },
{
    if 48 <= b && b <= 57 {
        Some(b - 48)
    } else if 97 <= b && b <= 102 {
        Some(b - 87)
    } else if 65 <= b && b <= 70 {
        Some(b - 55)
    } else {
        None
    }
}

/// Reads a hexadecimal number of 16 bits.
pub fn parse_hex_u16(s: &[u8]) -> (r: Option<u16>)
    ensures
        r == parsed_hex_u16(s@),
{
    let digits = if s.len() > 0 && s[0] == 43 {
        slice_subrange(s, 1, s.len())
    } else {
        s
    };
    if digits.len() == 0 {
        return None;
    }
    let mut value: u32 = 0;
    let mut i: usize = 0;
    while i < digits.len()
        invariant
            i <= digits.len(),
            value == hex_value(digits@.take(i as int)),
            value <= u16::MAX,
            all_hex(digits@.take(i as int)),
            digits@.len() > 0,
            digits@ == if s@.len() > 0 && s@[0] == 43 {
                s@.subrange(1, s@.len() as int)
            } else {
                s@
            },
        decreases digits.len() - i,
    {
        let d = match read_hex_digit(digits[i]) {
            Some(d) => d,
            None => {
                assert(hex_digit(digits@[i as int]).is_none());
                return None;
            },
        };
        proof {
            assert(digits@.take(i + 1).drop_last() =~= digits@.take(i as int));
            lemma_hex_value_grows(digits@, i + 1);
        }
        value = value * 16 + d as u32;
        if value > 0xffff {
            return None;
        }
        i += 1;
    }
    assert(digits@.take(i as int) =~= digits@);
    Some(value as u16)
}

/// `s` from index `from` on, with `with` in place of each `pattern`. The
/// text is read from the left, and what has matched is not read again.
pub open spec fn replaced_from(s: Seq<u8>, from: int, pattern: Seq<u8>, with: Seq<u8>) -> Seq<u8>
    decreases s.len() - from,
{
    if from < 0 || from >= s.len() {
        Seq::empty()
    } else if pattern.len() > 0 && occurs_at(s, from, pattern) {
        with + replaced_from(s, from + pattern.len(), pattern, with)
    } else {
        seq![s[from]] + replaced_from(s, from + 1, pattern, with)
    }
}

/// `s` with `with` in place of each `pattern`.
pub open spec fn replaced(s: Seq<u8>, pattern: Seq<u8>, with: Seq<u8>) -> Seq<u8> {
    replaced_from(s, 0, pattern, with)
}

/// Writes `s` with `with` in place of each `pattern`. An empty pattern
/// matches nowhere.
pub fn replace(s: &[u8], pattern: &[u8], with: &[u8]) -> (out: Vec<u8>)
    ensures
        out@ == replaced(s@, pattern@, with@),
{
    let mut out: Vec<u8> = Vec::new();
    let mut i: usize = 0;
    while i < s.len()
        invariant
            i <= s.len(),
            out@ + replaced_from(s@, i as int, pattern@, with@) == replaced(s@, pattern@, with@),
        decreases s.len() - i,
    {
        let ghost before = out@;
        if pattern.len() > 0 && matches_at(s, i, pattern) {
            append(&mut out, with);
            assert(out@ + replaced_from(s@, i + pattern.len(), pattern@, with@) =~= before
                + replaced_from(s@, i as int, pattern@, with@));
            i += pattern.len();
        } else {
            out.push(s[i]);
            assert(out@ + replaced_from(s@, i + 1, pattern@, with@) =~= before + replaced_from(
                s@,
                i as int,
                pattern@,
                with@,
            ));
            i += 1;
        }
    }
    assert(out@ + replaced_from(s@, i as int, pattern@, with@) =~= out@);
    out
}

/// Whether two byte strings hold the same bytes.
pub fn same_bytes(a: &[u8], b: &[u8]) -> (r: bool)
    ensures
        r == (a@ == b@),
{
    if a.len() != b.len() {
        return false;
    }
    let r = matches_at(a, 0, b);
    assert(a@.subrange(0, a@.len() as int) =~= a@);
    r
}

/// The view of an owned byte string that may be absent.
pub open spec fn text_view(item: Option<Vec<u8>>) -> Option<Seq<u8>> {
    match item {
        Some(text) => Some(text@),
        None => None,
    }
}

/// The view of a borrowed byte string that may be absent.
pub open spec fn slice_view(item: Option<&[u8]>) -> Option<Seq<u8>> {
    match item {
        Some(text) => Some(text@),
        None => None,
    }
}

} // verus!
