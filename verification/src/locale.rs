//! The locale, from the environment.

use crate::text::slice_view;
use crate::text::text_view;
use vstd::prelude::*;
use vstd::slice::*;

verus! {

/// A value of the environment, unless it is unset or empty.
pub open spec fn set_value(value: Option<Seq<u8>>) -> Option<Seq<u8>> {
    match value {
        Some(text) => if text.len() > 0 {
            Some(text)
        } else {
            None
        },
        None => None,
    }
}

/// The locale that three variables of the environment give: the first of
/// `LANG`, `LC_ALL` and `LC_MESSAGES`, in that order, that is set and not
/// empty.
pub open spec fn locale_of(
    lang: Option<Seq<u8>>,
    lc_all: Option<Seq<u8>>,
    lc_messages: Option<Seq<u8>>,
) -> Option<Seq<u8>> {
    if set_value(lang) is Some {
        lang
    } else if set_value(lc_all) is Some {
        lc_all
    } else {
        set_value(lc_messages)
    }
}

fn pick(value: Option<&[u8]>) -> (r: Option<Vec<u8>>)
    ensures
        text_view(r) == set_value(slice_view(value)),
{
    match value {
        Some(text) => if text.len() > 0 {
            Some(slice_to_vec(text))
        } else {
            None
        },
        None => None,
    }
}

/// Picks the locale from the values of `LANG`, `LC_ALL` and `LC_MESSAGES`.
pub fn locale(lang: Option<&[u8]>, lc_all: Option<&[u8]>, lc_messages: Option<&[u8]>) -> (r: Option<
    Vec<u8>,
>)
    ensures
        text_view(r) == locale_of(slice_view(lang), slice_view(lc_all), slice_view(lc_messages)),
{
    match pick(lang) {
        Some(found) => Some(found),
        None => match pick(lc_all) {
            Some(found) => Some(found),
            None => pick(lc_messages),
        },
    }
}

} // verus!
