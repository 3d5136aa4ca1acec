//! Graphics cards and display modes, from the identifier files of the
//! device tree.
//!
//! Each card has a directory with a file for its vendor id and one for its
//! device id, each holding one number in hexadecimal after a two-byte
//! marker. Each connector has a file that lists its display modes, one on a
//! line.

use crate::text::append;
use crate::text::parse_hex_u16;
use crate::text::parsed_hex_u16;
use crate::text::replace;
use crate::text::replaced;
use crate::text::split_at_first;
use crate::text::split_once;
use crate::text::trim;
use crate::text::trimmed;
use crate::text::views;
use crate::text::LF;
use vstd::prelude::*;
use vstd::slice::*;
use vstd::string::*;

verus! {

/// The names under which the PCI id database of `pci_ids` knows the device
/// `device_id` of the vendor `vendor_id`: the vendor's name, then the
/// device's. `None` where the database has no such device. The database is
/// the one that the crate was built with.
pub uninterp spec fn pci_names(vendor_id: u16, device_id: u16) -> Option<(Seq<u8>, Seq<u8>)>;

/// The views of a pair of names that may be absent.
pub open spec fn names_view(names: Option<(Vec<u8>, Vec<u8>)>) -> Option<(Seq<u8>, Seq<u8>)> {
    match names {
        Some((vendor, device)) => Some((vendor@, device@)),
        None => None,
    }
}

/// `pci_ids::Device::from_vid_pid`, with the names of what it finds:
/// `Vendor::name` of the device's vendor and `Device::name`. The database is
/// compiled into the crate, so the answer depends on the two ids alone.
#[verifier::external_body]
fn pci_lookup(vendor_id: u16, device_id: u16) -> (names: Option<(Vec<u8>, Vec<u8>)>)
    ensures
        names_view(names) == pci_names(vendor_id, device_id),
{
    let device = pci_ids::Device::from_vid_pid(vendor_id, device_id)?;
    Some((device.vendor().name().as_bytes().to_vec(), device.name().as_bytes().to_vec()))
}

/// The id that an identifier file holds: the hexadecimal number that
/// follows the first two bytes of its content, white space at the ends
/// aside. The two bytes are the marker `0x`; they are not looked at.
pub open spec fn id_of(content: Seq<u8>) -> Option<u16> {
    let text = trimmed(content);
    if text.len() >= 2 {
        parsed_hex_u16(text.subrange(2, text.len() as int))
    } else {
        None
    }
}

/// Reads the id that an identifier file holds.
pub fn parse_id(content: &[u8]) -> (r: Option<u16>)
    ensures
        r == id_of(content@),
{
    let text = trim(content);
    if text.len() >= 2 {
        parse_hex_u16(slice_subrange(text, 2, text.len()))
    } else {
        None
    }
}

/// A vendor's name as it is shown: the two long names of the database are
/// cut short.
pub open spec fn vendor_shown(vendor: Seq<u8>) -> Seq<u8> {
    replaced(
        replaced(
            vendor,
            "Advanced Micro Devices, Inc. [AMD/ATI]".spec_bytes(),
            "AMD".spec_bytes(),
        ),
        "Intel Corporation".spec_bytes(),
        "Intel".spec_bytes(),
    )
}

/// The name under which a card is shown: the vendor as it is shown, a
/// space, and the device.
pub open spec fn gpu_label_of(vendor: Seq<u8>, device: Seq<u8>) -> Seq<u8> {
    vendor_shown(vendor) + " ".spec_bytes() + device
}

/// Writes the name under which a card is shown, from the names that the
/// database has for it.
pub fn gpu_label(vendor: &[u8], device: &[u8]) -> (out: Vec<u8>)
    ensures
        out@ == gpu_label_of(vendor@, device@),
{
    let amd = replace(
        vendor,
        "Advanced Micro Devices, Inc. [AMD/ATI]".as_bytes(),
        "AMD".as_bytes(),
    );
    let mut out = replace(amd.as_slice(), "Intel Corporation".as_bytes(), "Intel".as_bytes());
    append(&mut out, " ".as_bytes());
    append(&mut out, device);
    out
}

/// The two identifier files of one card, each with its content where the
/// file exists.
#[derive(Clone, Debug, PartialEq, Eq)]
pub struct CardFiles {
    /// The content of the vendor file.
    pub vendor: Option<Vec<u8>>,
    /// The content of the device file.
    pub device: Option<Vec<u8>>,
}

/// What the files of one card give.
pub enum CardReading {
    /// A file is missing: the card is passed over.
    Missing,
    /// A file holds no id, or the database does not know the device.
    Unreadable,
    /// The card is known, and shown under this name.
    Known(Seq<u8>),
}

/// The reading of the files of one card. The vendor file is read first.
pub open spec fn card_reading(card: CardFiles) -> CardReading {
    match card.vendor {
        None => CardReading::Missing,
        Some(vendor) => match id_of(vendor@) {
            None => CardReading::Unreadable,
            Some(vendor_id) => match card.device {
                None => CardReading::Missing,
                Some(device) => match id_of(device@) {
                    None => CardReading::Unreadable,
                    Some(device_id) => match pci_names(vendor_id, device_id) {
                        None => CardReading::Unreadable,
                        Some((vendor_name, device_name)) => CardReading::Known(
                            gpu_label_of(vendor_name, device_name),
                        ),
                    },
                },
            },
        },
    }
}

/// The names of the known cards among `cards`, in their order; `None` where
/// one of them is unreadable.
pub open spec fn gpu_labels(cards: Seq<CardFiles>) -> Option<Seq<Seq<u8>>>
    decreases cards.len(),
{
    if cards.len() == 0 {
        Some(Seq::empty())
    } else {
        match (gpu_labels(cards.drop_last()), card_reading(cards.last())) {
            (Some(names), CardReading::Known(name)) => Some(names.push(name)),
            (Some(names), CardReading::Missing) => Some(names),
            _ => None,
        }
    }
}

/// One unreadable card makes the whole list unreadable.
proof fn lemma_gpu_labels_fail(cards: Seq<CardFiles>, k: int)
    requires
        0 <= k <= cards.len(),
        gpu_labels(cards.take(k)) is None,
    ensures
        gpu_labels(cards) is None,
    decreases cards.len() - k,
{
    if k < cards.len() {
        assert(cards.take(k + 1).drop_last() =~= cards.take(k));
        lemma_gpu_labels_fail(cards, k + 1);
    } else {
        assert(cards.take(k) =~= cards);
    }
}

/// Reads the files of one card.
pub fn read_card(card: &CardFiles) -> (r: Option<Option<Vec<u8>>>)
    ensures
        match r {
            None => card_reading(*card) is Unreadable,
            Some(None) => card_reading(*card) is Missing,
            Some(Some(name)) => card_reading(*card) == CardReading::Known(name@),
        },
{
    let vendor_id = match &card.vendor {
        None => { return Some(None); },
        Some(vendor) => match parse_id(vendor.as_slice()) {
            None => { return None; },
            Some(id) => id,
        },
    };
    let device_id = match &card.device {
        None => { return Some(None); },
        Some(device) => match parse_id(device.as_slice()) {
            None => { return None; },
            Some(id) => id,
        },
    };
    match pci_lookup(vendor_id, device_id) {
        None => None,
        Some((vendor_name, device_name)) => Some(
            Some(gpu_label(vendor_name.as_slice(), device_name.as_slice())),
        ),
    }
}

/// The graphics cards, each under the name that the PCI id database has
/// for it. A card with a missing file is passed over. Where a file holds no
/// id, or the database does not know a device, the list is empty.
pub fn gpus(cards: &[CardFiles]) -> (out: Vec<Vec<u8>>)
    ensures
        views(out@) == match gpu_labels(cards@) {
            Some(names) => names,
            None => Seq::empty(),
        },
{
    let mut out: Vec<Vec<u8>> = Vec::new();
    let mut i: usize = 0;
    assert(cards@.take(0) =~= Seq::empty());
    while i < cards.len()
        invariant
            i <= cards.len(),
            gpu_labels(cards@.take(i as int)) == Some(views(out@)),
        decreases cards.len() - i,
    {
        proof {
            assert(cards@.take(i + 1).drop_last() =~= cards@.take(i as int));
        }
        let ghost before = out@;
        match read_card(&cards[i]) {
            None => {
                proof {
                    lemma_gpu_labels_fail(cards@, i + 1);
                }
                return Vec::new();
            },
            Some(None) => {},
            Some(Some(name)) => {
                out.push(name);
                assert(views(out@) =~= views(before).push(name@));
            },
        }
        i += 1;
    }
    assert(cards@.take(i as int) =~= cards@);
    out
}

/// The first mode that a modes file lists: its first line, where the
/// content has a line feed at all.
pub open spec fn first_mode(content: Seq<u8>) -> Option<Seq<u8>> {
    match split_at_first(content, LF) {
        Some((first, rest)) => Some(first),
        None => None,
    }
}

/// The first modes of a list of modes files, in their order. A file without
/// a line feed gives none.
pub open spec fn first_modes(contents: Seq<Seq<u8>>) -> Seq<Seq<u8>>
    decreases contents.len(),
{
    if contents.len() == 0 {
        Seq::empty()
    } else {
        match first_mode(contents.last()) {
            Some(mode) => first_modes(contents.drop_last()).push(mode),
            None => first_modes(contents.drop_last()),
        }
    }
}

/// The displays, each by the first mode that its connector lists. A
/// connector whose file has no line feed has no display.
pub fn displays(contents: &[Vec<u8>]) -> (out: Vec<Vec<u8>>)
    ensures
        views(out@) == first_modes(views(contents@)),
{
    let mut out: Vec<Vec<u8>> = Vec::new();
    let mut i: usize = 0;
    assert(views(contents@).take(0) =~= Seq::empty());
    while i < contents.len()
        invariant
            i <= contents.len(),
            views(out@) == first_modes(views(contents@).take(i as int)),
        decreases contents.len() - i,
    {
        proof {
            let seen = views(contents@).take(i + 1);
            assert(seen.drop_last() =~= views(contents@).take(i as int));
            assert(seen.last() == contents[i as int]@);
        }
        let ghost before = out@;
        match split_once(contents[i].as_slice(), LF) {
            Some((first, _rest)) => {
                out.push(slice_to_vec(first));
                assert(views(out@) =~= views(before).push(first@));
            },
            None => {},
        }
        i += 1;
    }
    assert(views(contents@).take(i as int) =~= views(contents@));
    out
}

} // verus!
