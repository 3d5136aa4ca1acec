//! The facts of a macOS host.
//!
//! `MacInfo` holds the release of the kernel and answers each question
//! from it and from the values that the question is about: the bytes of
//! the system-version property list, the names that the system gives its
//! processor, the interface list, the clock.

use crate::cpu::brand_text;
use crate::cpu::render_brand;
use crate::locale::locale;
use crate::locale::locale_of;
use crate::mounts::UsageResult;
use crate::net::ip;
use crate::net::ipv4_addresses;
use crate::net::ipv4_list_text;
use crate::net::FlagMasks;
use crate::net::InterfaceRecord;
use crate::text::append;
use crate::text::contains;
use crate::text::decimal;
use crate::text::has_prefix;
use crate::text::join;
use crate::text::joined;
use crate::text::occurs_in;
use crate::text::slice_view;
use crate::text::starts_with;
use crate::text::text_view;
use crate::text::views;
use vstd::prelude::*;
use vstd::slice::*;
use vstd::string::*;

verus! {

/// The longest property list that is read, in bytes.
pub const PLIST_LIMIT: usize = 4096;

/// Whether a property list is read at all. It must be of at most
/// `PLIST_LIMIT` bytes, must not begin with the magic bytes of the binary
/// encoding, and must hold the bytes `date` nowhere. The system-version
/// list is a short XML text without dates.
pub open spec fn is_readable(content: Seq<u8>) -> bool {
    &&& content.len() <= PLIST_LIMIT
    &&& !has_prefix(content, "bplist00".spec_bytes())
    &&& !occurs_in(content, "date".spec_bytes())
}

/// The string that the property list `content` holds under `key` in its
/// top dictionary, as `plist` reads it. `None` where `content` is no
/// property list, its top value is no dictionary, the dictionary lacks the
/// key, or the value under it is no string.
pub uninterp spec fn plist_string(content: Seq<u8>, key: Seq<char>) -> Option<Seq<u8>>;

/// `plist::Value::from_reader` on the bytes of a property list, then
/// `Value::as_dictionary`, `Dictionary::get` and `Value::as_string`. The
/// answer depends on the bytes and the key alone.
///
/// The `requires` leaves out what the reader does not survive. A `date`
/// element of an XML list may hold a time that leaves the range of dates
/// once it is moved to UTC, which panics; its tag stands in the text as the
/// bytes `date`. A binary list may name one object many times over, so that
/// a short list unfolds into a value beyond any memory. And a value is
/// dropped by recursion, one frame for each level of nesting, of which a
/// list within the limit has fewer than its bytes.
#[verifier::external_body]
fn plist_lookup(content: &[u8], key: &str) -> (value: Option<Vec<u8>>)
    requires
        is_readable(content@),
    ensures
        text_view(value) == plist_string(content@, key@),
{
    let root = plist::Value::from_reader(std::io::Cursor::new(content)).ok()?;
    Some(root.as_dictionary()?.get(key)?.as_string()?.as_bytes().to_vec())
}

/// Tests whether a property list is read at all.
pub fn check_readable(content: &[u8]) -> (r: bool)
    ensures
        r == is_readable(content@),
{
    content.len() <= PLIST_LIMIT && !starts_with(content, "bplist00".as_bytes()) && !contains(
        content,
        "date".as_bytes(),
    )
}

/// One unit of a duration as it is written: the count and the unit's
/// letter, or nothing where the count is zero.
pub open spec fn unit_text(count: nat, unit: Seq<u8>) -> Seq<u8> {
    if count == 0 {
        Seq::empty()
    } else {
        decimal(count) + unit
    }
}

/// A duration of whole seconds as it is written: days, hours, minutes and
/// seconds, each with its letter and those that are zero left out, after a
/// minus sign where the duration is negative. No time at all is `0s`.
pub open spec fn duration_text(seconds: i64) -> Seq<u8> {
    let span: nat = (if seconds < 0 {
        -seconds
    } else {
        seconds as int
    }) as nat;
    if seconds == 0 {
        "0s".spec_bytes()
    } else {
        (if seconds < 0 {
            "-".spec_bytes()
        } else {
            Seq::empty()
        }) + unit_text(span / 86400, "d".spec_bytes()) + unit_text(
            span / 3600 % 24,
            "h".spec_bytes(),
        ) + unit_text(span / 60 % 60, "m".spec_bytes()) + unit_text(span % 60, "s".spec_bytes())
    }
}

/// `time::Duration::seconds`, written by the duration's `Display`. For a
/// duration of whole seconds that writes a minus sign where it is negative,
/// then each of days, hours, minutes and seconds that is not zero as a
/// number and a letter, and `0s` for no time at all.
#[verifier::external_body]
fn duration_display(seconds: i64) -> (text: Vec<u8>)
    ensures
        text@ == duration_text(seconds),
{
    time::Duration::seconds(seconds).to_string().into_bytes()
}

/// The name of the system as it is shown: its product name, a space, and
/// its version. There is none unless both are known.
pub open spec fn system_text(name: Option<Seq<u8>>, version: Option<Seq<u8>>) -> Option<Seq<u8>> {
    match (name, version) {
        (Some(name), Some(version)) => Some(name + " ".spec_bytes() + version),
        _ => None,
    }
}

/// Writes the name of the system from its product name and its version.
pub fn render_system(name: Option<&[u8]>, version: Option<&[u8]>) -> (r: Option<Vec<u8>>)
    ensures
        text_view(r) == system_text(slice_view(name), slice_view(version)),
{
    match (name, version) {
        (Some(name), Some(version)) => {
            let mut out: Vec<u8> = slice_to_vec(name);
            append(&mut out, " ".as_bytes());
            append(&mut out, version);
            Some(out)
        },
        _ => None,
    }
}

/// The facts of a macOS host.
#[derive(Debug)]
pub struct MacInfo {
    release: Vec<u8>,
}

impl View for MacInfo {
    type V = Seq<u8>;

    closed spec fn view(&self) -> Seq<u8> {
        self.release@
    }
}

impl MacInfo {
    /// The facts of a host whose kernel has the given release.
    pub fn new(release: Vec<u8>) -> (info: MacInfo)
        ensures
            info@ == release@,
    {
        MacInfo { release }
    }

    /// The name of the system, from the bytes of the system-version
    /// property list: what it holds under `ProductName` and under
    /// `ProductVersion`. A list that is not read at all gives none.
    pub fn os(&self, system_version: &[u8]) -> (r: Option<Vec<u8>>)
        ensures
            text_view(r) == if is_readable(system_version@) {
                system_text(
                    plist_string(system_version@, "ProductName"@),
                    plist_string(system_version@, "ProductVersion"@),
                )
            } else {
                None
            },
    {
        if !check_readable(system_version) {
            return None;
        }
        let name = plist_lookup(system_version, "ProductName");
        let version = plist_lookup(system_version, "ProductVersion");
        render_system(
            match &name {
                Some(name) => Some(name.as_slice()),
                None => None,
            },
            match &version {
                Some(version) => Some(version.as_slice()),
                None => None,
            },
        )
    }

    /// The release of the kernel.
    pub fn kernel(&self) -> (r: Option<Vec<u8>>)
        ensures
            text_view(r) == Some(self@),
    {
        Some(slice_to_vec(self.release.as_slice()))
    }

    /// The processor, from the brand and the number of cores that the
    /// system names.
    pub fn cpu(&self, brand: &[u8], cores: &[u8]) -> (r: Option<Vec<u8>>)
        ensures
            text_view(r) == Some(brand_text(brand@, cores@)),
    {
        Some(render_brand(brand, cores))
    }

    /// The addresses of the running interfaces, from the interface list.
    pub fn ip(&self, records: &[InterfaceRecord], masks: &FlagMasks) -> (out: Vec<Vec<u8>>)
        ensures
            out.len() == 1,
            exists|order: Seq<u32>|
                order.no_duplicates() && order.to_set() == ipv4_addresses(records@, *masks)
                    && out[0]@ == #[trigger] ipv4_list_text(order),
    {
        ip(records, masks)
    }

    /// The charge of the batteries, from the charge of each as it is
    /// printed: the charges with a comma and a space between each two.
    pub fn battery(&self, charges: &Vec<Vec<u8>>) -> (r: Option<Vec<u8>>)
        ensures
            text_view(r) == Some(joined(views(charges@), ", ".spec_bytes())),
    {
        Some(join(charges, ", ".as_bytes()))
    }

    /// The locale, from the values of `LANG`, `LC_ALL` and `LC_MESSAGES`.
    pub fn locale(
        &self,
        lang: Option<&[u8]>,
        lc_all: Option<&[u8]>,
        lc_messages: Option<&[u8]>,
    ) -> (r: Option<Vec<u8>>)
        ensures
            text_view(r) == locale_of(
                slice_view(lang),
                slice_view(lc_all),
                slice_view(lc_messages),
            ),
    {
        locale(lang, lc_all, lc_messages)
    }

    /// The time since the system started, from the seconds that the
    /// monotonic clock counts.
    pub fn uptime(&self, seconds: i64) -> (r: Option<Vec<u8>>)
        ensures
            text_view(r) == Some(duration_text(seconds)),
    {
        Some(duration_display(seconds))
    }

    /// The short id of the system.
    pub fn id(&self) -> (r: Vec<u8>)
        ensures
            r@ == "macos".spec_bytes(),
    {
        slice_to_vec("macos".as_bytes())
    }

    /// The displays, which are not known here.
    pub fn displays(&self) -> (r: Vec<Vec<u8>>)
        ensures
            r@.len() == 0,
    {
        Vec::new()
    }

    /// The graphics cards, which are not known here.
    pub fn gpus(&self) -> (r: Vec<Vec<u8>>)
        ensures
            r@.len() == 0,
    {
        Vec::new()
    }

    /// The usage of the disks, which is not known here.
    pub fn disks(&self) -> (r: Vec<UsageResult>)
        ensures
            r@.len() == 0,
    {
        Vec::new()
    }

    /// The model of the machine, which is not known here.
    pub fn machine(&self) -> (r: Option<Vec<u8>>)
        ensures
            r is None,
    {
        None
    }

    /// The memory in use, which is not known here.
    pub fn memory(&self) -> (r: Option<Vec<u8>>)
        ensures
            r is None,
    {
        None
    }

    /// The theme of the desktop, which is not known here.
    pub fn theme(&self) -> (r: Option<Vec<u8>>)
        ensures
            r is None,
    {
        None
    }

    /// The window manager, which is not known here.
    pub fn wm(&self) -> (r: Option<Vec<u8>>)
        ensures
            r is None,
    {
        None
    }

    /// The desktop environment, which is not known here.
    pub fn de(&self) -> (r: Option<Vec<u8>>)
        ensures
            r is None,
    {
        None
    }

    /// The font of the system, which is not known here.
    pub fn sys_font(&self) -> (r: Option<Vec<u8>>)
        ensures
            r is None,
    {
        None
    }

    /// The cursor theme, which is not known here.
    pub fn cursor(&self) -> (r: Option<Vec<u8>>)
        ensures
            r is None,
    {
        None
    }

    /// The terminal, which is not known here.
    pub fn terminal(&self) -> (r: Option<Vec<u8>>)
        ensures
            r is None,
    {
        None
    }

    /// The font of the terminal, which is not known here.
    pub fn term_font(&self) -> (r: Option<Vec<u8>>)
        ensures
            r is None,
    {
        None
    }

    /// The icon theme, which is not known here.
    pub fn icons(&self) -> (r: Option<Vec<u8>>)
        ensures
            r is None,
    {
        None
    }
}

} // verus!
