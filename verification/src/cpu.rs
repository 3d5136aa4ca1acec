//! The processor, from the CPU descriptor.
//!
//! The descriptor is a text of lines `label : value`. Two labels count:
//! the model name, which ends in the clock rate after an `@`, and the
//! number of cores.

use crate::text::append;
use crate::text::has_prefix;
use crate::text::lines;
use crate::text::lines_of;
use crate::text::slice_views;
use crate::text::split_at_first;
use crate::text::split_once;
use crate::text::starts_with;
use crate::text::text_view;
use crate::text::trim;
use crate::text::trimmed;
use vstd::prelude::*;
use vstd::string::*;

verus! {

/// The byte `:`.
pub const COLON: u8 = 58;

/// The byte `@`.
pub const AT: u8 = 64;

/// The first of `lines`, from index `from` on, that begins with `label`.
pub open spec fn first_labelled(lines: Seq<Seq<u8>>, label: Seq<u8>, from: int) -> Option<Seq<u8>>
    decreases lines.len() - from,
{
    if from < 0 || from >= lines.len() {
        None
    } else if has_prefix(lines[from], label) {
        Some(lines[from])
    } else {
        first_labelled(lines, label, from + 1)
    }
}

/// The value of the field `label`: what follows the first colon on the
/// first line that begins with `label`, without the white space at its
/// ends. There is none where no line begins so, or where that line has no
/// colon.
pub open spec fn field_of(text: Seq<u8>, label: Seq<u8>) -> Option<Seq<u8>> {
    match first_labelled(lines_of(text), label, 0) {
        Some(line) => match split_at_first(line, COLON) {
            Some((name, value)) => Some(trimmed(value)),
            None => None,
        },
        None => None,
    }
}

/// Looks up the value of the field `label` in a descriptor.
pub fn field<'a>(text: &'a [u8], label: &[u8]) -> (r: Option<&'a [u8]>)
    ensures
        match r {
            Some(value) => field_of(text@, label@) == Some(value@),
            None => field_of(text@, label@).is_none(),
        },
{
    let all = lines(text);
    let mut i: usize = 0;
    while i < all.len()
        invariant
            i <= all.len(),
            slice_views(all@) == lines_of(text@),
            first_labelled(lines_of(text@), label@, 0) == first_labelled(
                lines_of(text@),
                label@,
                i as int,
            ),
        decreases all.len() - i,
    {
        assert(slice_views(all@)[i as int] == all[i as int]@);
        if starts_with(all[i], label) {
            return match split_once(all[i], COLON) {
                Some((_name, value)) => Some(trim(value)),
                None => None,
            };
        }
        i += 1;
    }
    None
}

/// The processor as it is shown, from its model name and its number of
/// cores: the name, the cores in brackets, an `@`, the clock rate, and a
/// closing bracket. Name and clock rate are the two sides of the first `@`
/// of the model, each without the white space at its ends. A model without
/// `@` is not shown.
pub open spec fn cpu_text(model: Seq<u8>, cores: Seq<u8>) -> Option<Seq<u8>> {
    match split_at_first(model, AT) {
        Some((name, clock)) => Some(
            trimmed(name) + " (".spec_bytes() + cores + ") @ ".spec_bytes() + trimmed(clock)
                + ")".spec_bytes(),
        ),
        None => None,
    }
}

/// The processor that a CPU descriptor names, as it is shown. There is none
/// where the descriptor lacks the model name or the number of cores.
pub open spec fn cpu_of(text: Seq<u8>) -> Option<Seq<u8>> {
    match (field_of(text, "model name".spec_bytes()), field_of(text, "cpu cores".spec_bytes())) {
        (Some(model), Some(cores)) => cpu_text(model, cores),
        _ => None,
    }
}

/// Writes the processor as it is shown, from its model name and its number
/// of cores. The text ends in a closing bracket that none opens: it is part
/// of the format.
pub fn render_cpu(model: &[u8], cores: &[u8]) -> (r: Option<Vec<u8>>)
    ensures
        text_view(r) == cpu_text(model@, cores@),
{
    match split_once(model, AT) {
        Some((name, clock)) => {
            let mut out: Vec<u8> = Vec::new();
            append(&mut out, trim(name));
            append(&mut out, " (".as_bytes());
            append(&mut out, cores);
            append(&mut out, ") @ ".as_bytes());
            append(&mut out, trim(clock));
            append(&mut out, ")".as_bytes());
            Some(out)
        },
        None => None,
    }
}

/// Reads a CPU descriptor and writes the processor as it is shown.
pub fn cpu(text: &[u8]) -> (r: Option<Vec<u8>>)
    ensures
        text_view(r) == cpu_of(text@),
{
    let model = match field(text, "model name".as_bytes()) {
        Some(model) => model,
        None => { return None; },
    };
    let cores = match field(text, "cpu cores".as_bytes()) {
        Some(cores) => cores,
        None => { return None; },
    };
    render_cpu(model, cores)
}

/// The processor as it is shown where the system names its brand and its
/// number of cores: the brand, and the cores in brackets.
pub open spec fn brand_text(brand: Seq<u8>, cores: Seq<u8>) -> Seq<u8> {
    brand + " (".spec_bytes() + cores + ")".spec_bytes()
}

/// Writes the processor as it is shown, from its brand and its number of
/// cores.
pub fn render_brand(brand: &[u8], cores: &[u8]) -> (out: Vec<u8>)
    ensures
        out@ == brand_text(brand@, cores@),
{
    let mut out: Vec<u8> = Vec::new();
    append(&mut out, brand);
    append(&mut out, " (".as_bytes());
    append(&mut out, cores);
    append(&mut out, ")".as_bytes());
    out
}

} // verus!
