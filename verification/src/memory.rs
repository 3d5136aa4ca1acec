//! Memory in use, from the memory descriptor.
//!
//! The descriptor names each counter on a line of its own, as a label, a
//! colon and a number of kilobytes. Two counters count: the memory in all
//! and the memory available.

use crate::text::append;
use crate::text::lemma_run_end;
use crate::text::matches_at;
use crate::text::occurs_at;
use crate::text::parse_decimal;
use crate::text::parsed_decimal;
use crate::text::run_end;
use crate::text::scan;
use crate::text::ByteClass;
use itertools::Itertools;
use vstd::prelude::*;
use vstd::slice::*;
use vstd::string::*;

verus! {

/// The two counters that are read.
#[derive(Clone, Copy, Debug, PartialEq, Eq)]
pub enum Counter {
    /// The memory in all, labelled `MemTotal:`.
    Total,
    /// The memory available, labelled `MemAvailable:`.
    Available,
}

/// One reading of a counter: the counter that the label names, and the
/// number of kilobytes after it, or `None` where no number stands there.
#[derive(Clone, Copy, Debug, PartialEq, Eq)]
pub struct Reading {
    /// The counter that the label names.
    pub counter: Counter,
    /// The number after the label.
    pub value: Option<u64>,
}

/// `Itertools::collect_tuple` into a pair: the two items of a list that has
/// exactly two, and nothing of any other list.
#[verifier::external_body]
fn collect_pair(items: Vec<Reading>) -> (pair: Option<(Reading, Reading)>)
    ensures
        pair == if items@.len() == 2 {
            Some((items@[0], items@[1]))
        } else {
            None
        },
{
    items.into_iter().collect_tuple()
}

/// The label of a counter.
pub open spec fn label_of(counter: Counter) -> Seq<u8> {
    match counter {
        Counter::Total => "MemTotal:".spec_bytes(),
        Counter::Available => "MemAvailable:".spec_bytes(),
    }
}

/// The counter whose label stands in `text` at `at`, if one does.
pub open spec fn counter_at(text: Seq<u8>, at: int) -> Option<Counter> {
    if occurs_at(text, at, label_of(Counter::Total)) {
        Some(Counter::Total)
    } else if occurs_at(text, at, label_of(Counter::Available)) {
        Some(Counter::Available)
    } else {
        None
    }
}

/// The length of the counter label that stands in `text` at `at`, or zero
/// where none of the two labels stands there.
pub open spec fn label_at(text: Seq<u8>, at: int) -> int {
    match counter_at(text, at) {
        Some(counter) => label_of(counter).len() as int,
        None => 0,
    }
}

/// The reading that the label at `at` opens: its counter, and the number
/// written by the digits that follow the label, with any separators in
/// between. The number is `None` where there are no digits or they do not
/// fit 64 bits.
pub open spec fn reading_at(text: Seq<u8>, at: int) -> Reading {
    let digits_start = run_end(text, at + label_at(text, at), ByteClass::Separator);
    let digits_end = run_end(text, digits_start, ByteClass::Digit);
    Reading {
        counter: match counter_at(text, at) {
            Some(counter) => counter,
            None => Counter::Total,
        },
        value: parsed_decimal(text.subrange(digits_start, digits_end)),
    }
}

/// Where the reading that the label at `at` opens ends.
pub open spec fn reading_end(text: Seq<u8>, at: int) -> int {
    run_end(
        text,
        run_end(text, at + label_at(text, at), ByteClass::Separator),
        ByteClass::Digit,
    )
}

/// The readings of the two counters in `text` from index `from` on, in the
/// order in which their labels stand.
pub open spec fn readings_from(text: Seq<u8>, from: int) -> Seq<Reading>
    decreases text.len() - from,
    via readings_from_terminates
{
    if from < 0 || from >= text.len() {
        Seq::empty()
    } else if label_at(text, from) > 0 {
        seq![reading_at(text, from)] + readings_from(text, reading_end(text, from))
    } else {
        readings_from(text, from + 1)
    }
}

#[via_fn]
proof fn readings_from_terminates(text: Seq<u8>, from: int) {
    if 0 <= from < text.len() && label_at(text, from) > 0 {
        let label = label_at(text, from);
        lemma_run_end(text, from + label, ByteClass::Separator);
        lemma_run_end(text, run_end(text, from + label, ByteClass::Separator), ByteClass::Digit);
    }
}

/// Memory in use and memory in all, in bytes.
#[derive(Clone, Copy, Debug, PartialEq, Eq)]
pub struct MemoryUsage {
    /// The bytes in use.
    pub used_bytes: u64,
    /// The bytes in all.
    pub total_bytes: u64,
}

/// The usage that two counters give, the memory in all and the memory
/// available, both in kilobytes. There is none where more is available
/// than there is in all, or where the bytes in all do not fit 64 bits.
pub open spec fn usage_from(total: u64, available: u64) -> Option<MemoryUsage> {
    if available <= total && total * 1024 <= u64::MAX {
        Some(
            MemoryUsage {
                used_bytes: ((total - available) * 1024) as u64,
                total_bytes: (total * 1024) as u64,
            },
        )
    } else {
        None
    }
}

/// The usage that two readings give: one must be of the memory in all and
/// the other of the memory available, in either order, and both must hold a
/// number.
pub open spec fn paired(first: Reading, second: Reading) -> Option<MemoryUsage> {
    match (first.counter, first.value, second.counter, second.value) {
        (Counter::Total, Some(total), Counter::Available, Some(available)) => usage_from(
            total,
            available,
        ),
        (Counter::Available, Some(available), Counter::Total, Some(total)) => usage_from(
            total,
            available,
        ),
        _ => None,
    }
}

/// The two counters are taken by their labels: the order in which the
/// readings stand makes no difference.
pub proof fn lemma_pairing_ignores_order(first: Reading, second: Reading)
    ensures
        paired(first, second) == paired(second, first),
{
}

/// The usage that a memory descriptor gives. Each of the two counters must
/// be read exactly once, and each is taken by its label, wherever it
/// stands.
pub open spec fn memory_of(text: Seq<u8>) -> Option<MemoryUsage> {
    let readings = readings_from(text, 0);
    if readings.len() == 2 {
        paired(readings[0], readings[1])
    } else {
        None
    }
}

/// Turns the two counters, in kilobytes, into bytes in use and bytes in
/// all.
pub fn usage_from_counters(total: u64, available: u64) -> (r: Option<MemoryUsage>)
    ensures
        r == usage_from(total, available),
{
    let used = match total.checked_sub(available) {
        Some(n) => n,
        None => { return None; },
    };
    let total_bytes = match total.checked_mul(1024) {
        Some(n) => n,
        None => { return None; },
    };
    Some(MemoryUsage { used_bytes: used * 1024, total_bytes })
}

/// Pairs two readings: the memory in all and the memory available are
/// taken by their labels.
pub fn pair_usage(first: Reading, second: Reading) -> (r: Option<MemoryUsage>)
    ensures
        r == paired(first, second),
{
    match (first.counter, first.value, second.counter, second.value) {
        (Counter::Total, Some(total), Counter::Available, Some(available)) => usage_from_counters(
            total,
            available,
        ),
        (Counter::Available, Some(available), Counter::Total, Some(total)) => usage_from_counters(
            total,
            available,
        ),
        _ => None,
    }
}

/// Reads the counters of a memory descriptor, in the order in which their
/// labels stand.
pub fn readings(text: &[u8]) -> (out: Vec<Reading>)
    ensures
        out@ == readings_from(text@, 0),
{
    let mut out: Vec<Reading> = Vec::new();
    let mut i: usize = 0;
    while i < text.len()
        invariant
            i <= text.len(),
            out@ + readings_from(text@, i as int) == readings_from(text@, 0),
        decreases text.len() - i,
    {
        let found: Option<(Counter, usize)> = if matches_at(text, i, "MemTotal:".as_bytes()) {
            Some((Counter::Total, "MemTotal:".as_bytes().len()))
        } else if matches_at(text, i, "MemAvailable:".as_bytes()) {
            Some((Counter::Available, "MemAvailable:".as_bytes().len()))
        } else {
            None
        };
        match found {
            Some((counter, label)) if label > 0 => {
                let digits_start = scan(text, i + label, ByteClass::Separator);
                let digits_end = scan(text, digits_start, ByteClass::Digit);
                let value = parse_decimal(slice_subrange(text, digits_start, digits_end));
                let ghost before = out@;
                out.push(Reading { counter, value });
                assert(out@ + readings_from(text@, digits_end as int) =~= before + readings_from(
                    text@,
                    i as int,
                ));
                i = digits_end;
            },
            _ => {
                i += 1;
            },
        }
    }
    assert(out@ + readings_from(text@, i as int) =~= out@);
    out
}

/// Reads a memory descriptor.
pub fn memory(text: &[u8]) -> (r: Option<MemoryUsage>)
    ensures
        r == memory_of(text@),
{
    match collect_pair(readings(text)) {
        Some((first, second)) => pair_usage(first, second),
        None => None,
    }
}

/// The text that shows a usage, from the two counts as they are printed.
pub open spec fn memory_text(used: Seq<u8>, total: Seq<u8>) -> Seq<u8> {
    used + " / ".spec_bytes() + total
}

/// Writes the text that shows a usage, from the two counts as `used` and
/// `total` print them.
pub fn render_memory(used: &[u8], total: &[u8]) -> (out: Vec<u8>)
    ensures
        out@ == memory_text(used@, total@),
{
    let mut out: Vec<u8> = Vec::new();
    append(&mut out, used);
    append(&mut out, " / ".as_bytes());
    append(&mut out, total);
    out
}

} // verus!
