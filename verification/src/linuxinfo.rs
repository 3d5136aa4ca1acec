//! The facts of a Linux host.
//!
//! `LinuxInfo` holds what is asked of the system once, the names that
//! `uname` reports and the release descriptor, and answers each question
//! from them and from the content of the file that the question is about.

use crate::cpu::cpu;
use crate::cpu::cpu_of;
use crate::hardware::displays;
use crate::hardware::first_modes;
use crate::hardware::gpu_labels;
use crate::hardware::gpus;
use crate::hardware::CardFiles;
use crate::locale::locale;
use crate::locale::locale_of;
use crate::memory::memory;
use crate::memory::memory_of;
use crate::memory::MemoryUsage;
use crate::mounts::disk_usages;
use crate::mounts::usage_views;
use crate::mounts::usages_of;
use crate::mounts::MountProbe;
use crate::mounts::UsageResult;
use crate::net::ip;
use crate::net::ipv4_addresses;
use crate::net::ipv4_list_text;
use crate::net::FlagMasks;
use crate::net::InterfaceRecord;
use crate::release::populated;
use crate::release::CacheState;
use crate::release::ReleaseCache;
use crate::text::append;
use crate::text::decimal;
use crate::text::push_decimal;
use crate::text::slice_view;
use crate::text::text_view;
use crate::text::trim;
use crate::text::trimmed;
use crate::text::views;
use vstd::prelude::*;
use vstd::slice::*;
use vstd::string::*;

verus! {

/// The names that `uname` reports, as far as they are used.
#[derive(Clone, Debug, PartialEq, Eq)]
pub struct Uname {
    /// The hardware, such as `x86_64`.
    pub machine: Vec<u8>,
    /// The name of the host on the network, where it is valid Unicode.
    pub nodename: Option<Vec<u8>>,
    /// The release of the kernel.
    pub release: Vec<u8>,
}

/// What a `LinuxInfo` holds, as a plain value.
pub struct LinuxState {
    /// The hardware.
    pub machine: Seq<u8>,
    /// The name of the host on the network.
    pub nodename: Option<Seq<u8>>,
    /// The release of the kernel.
    pub release: Seq<u8>,
    /// The release descriptor.
    pub os_release: CacheState,
}

/// The facts of a Linux host.
#[derive(Debug)]
pub struct LinuxInfo {
    uts: Uname,
    os_release: ReleaseCache,
}

impl View for LinuxInfo {
    type V = LinuxState;

    closed spec fn view(&self) -> LinuxState {
        LinuxState {
            machine: self.uts.machine@,
            nodename: text_view(self.uts.nodename),
            release: self.uts.release@,
            os_release: self.os_release@,
        }
    }
}

/// The name of the system as it is shown: the name of the distribution,
/// its version between two spaces where the descriptor has one, and the
/// hardware. There is none where the descriptor has no name.
pub open spec fn identity_of(release: Map<Seq<u8>, Seq<u8>>, machine: Seq<u8>) -> Option<Seq<u8>> {
    if release.contains_key("NAME".spec_bytes()) {
        let version = if release.contains_key("VERSION".spec_bytes()) {
            " ".spec_bytes() + release["VERSION".spec_bytes()] + " ".spec_bytes()
        } else {
            Seq::empty()
        };
        Some(release["NAME".spec_bytes()] + version + machine)
    } else {
        None
    }
}

/// The short id of the distribution: the value of `ID` in the descriptor.
pub open spec fn id_of(release: Map<Seq<u8>, Seq<u8>>) -> Option<Seq<u8>> {
    if release.contains_key("ID".spec_bytes()) {
        Some(release["ID".spec_bytes()])
    } else {
        None
    }
}

/// The path of the file that names the command of the process `pid`.
pub open spec fn comm_path_of(pid: u32) -> Seq<u8> {
    "/proc/".spec_bytes() + decimal(pid as nat) + "/comm".spec_bytes()
}

/// Writes the path of the file that names the command of the process
/// `pid`.
pub fn comm_path(pid: u32) -> (path: Vec<u8>)
    ensures
        path@ == comm_path_of(pid),
{
    let mut path: Vec<u8> = Vec::new();
    append(&mut path, "/proc/".as_bytes());
    push_decimal(&mut path, pid as u64);
    append(&mut path, "/comm".as_bytes());
    path
}

impl LinuxInfo {
    /// The facts of a host with the given names, whose release descriptor
    /// is still to be read.
    pub fn new(uts: Uname) -> (info: LinuxInfo)
        ensures
            info@.machine == uts.machine@,
            info@.nodename == text_view(uts.nodename),
            info@.release == uts.release@,
            !info@.os_release.attempted,
            info@.os_release.map == Map::<Seq<u8>, Seq<u8>>::empty(),
    {
        LinuxInfo { uts, os_release: ReleaseCache::new() }
    }

    /// Whether the release descriptor is still to be read. It is read at
    /// most once; until then every answer that rests on it is absent.
    pub fn needs_os_release(&self) -> (r: bool)
        ensures
            r == !self@.os_release.attempted,
    {
        self.os_release.needs_population()
    }

    /// Takes the text of the release descriptor, or nothing where it could
    /// not be read. Only the first call counts.
    pub fn load_os_release(&mut self, content: Option<&[u8]>)
        ensures
            final(self)@.os_release == populated(old(self)@.os_release, slice_view(content)),
            final(self)@.machine == old(self)@.machine,
            final(self)@.nodename == old(self)@.nodename,
            final(self)@.release == old(self)@.release,
    {
        self.os_release.populate(content);
    }

    /// The name of the system: distribution, version and hardware.
    pub fn os(&self) -> (r: Option<Vec<u8>>)
        ensures
            text_view(r) == identity_of(self@.os_release.map, self@.machine),
    {
        let name = match self.os_release.get("NAME".as_bytes()) {
            Some(name) => name,
            None => { return None; },
        };
        let mut out: Vec<u8> = slice_to_vec(name);
        match self.os_release.get("VERSION".as_bytes()) {
            Some(version) => {
                append(&mut out, " ".as_bytes());
                append(&mut out, version);
                append(&mut out, " ".as_bytes());
            },
            None => {},
        }
        append(&mut out, self.uts.machine.as_slice());
        assert(Some(out@) =~= identity_of(self@.os_release.map, self@.machine));
        Some(out)
    }

    /// The short id of the distribution.
    pub fn id(&self) -> (r: Option<Vec<u8>>)
        ensures
            text_view(r) == id_of(self@.os_release.map),
    {
        match self.os_release.get("ID".as_bytes()) {
            Some(id) => Some(slice_to_vec(id)),
            None => None,
        }
    }

    /// The name of the host on the network.
    pub fn hostname(&self) -> (r: Option<Vec<u8>>)
        ensures
            text_view(r) == self@.nodename,
    {
        match &self.uts.nodename {
            Some(name) => Some(slice_to_vec(name.as_slice())),
            None => None,
        }
    }

    /// The release of the kernel.
    pub fn kernel(&self) -> (r: Option<Vec<u8>>)
        ensures
            text_view(r) == Some(self@.release),
    {
        Some(slice_to_vec(self.uts.release.as_slice()))
    }

    /// The model of the machine, from the content of its product-name file:
    /// the content without the white space at its ends.
    pub fn machine(&self, product_name: &[u8]) -> (r: Option<Vec<u8>>)
        ensures
            text_view(r) == Some(trimmed(product_name@)),
    {
        Some(slice_to_vec(trim(product_name)))
    }

    /// The shell, from the content of the file that names the command of
    /// the parent process: the content without the white space at its ends.
    pub fn shell(&self, comm: &[u8]) -> (r: Option<Vec<u8>>)
        ensures
            text_view(r) == Some(trimmed(comm@)),
    {
        Some(slice_to_vec(trim(comm)))
    }

    /// The processor, from the text of the CPU descriptor.
    pub fn cpu(&self, descriptor: &[u8]) -> (r: Option<Vec<u8>>)
        ensures
            text_view(r) == cpu_of(descriptor@),
    {
        cpu(descriptor)
    }

    /// The memory in use and in all, from the text of the memory
    /// descriptor.
    pub fn memory(&self, descriptor: &[u8]) -> (r: Option<MemoryUsage>)
        ensures
            r == memory_of(descriptor@),
    {
        memory(descriptor)
    }

    /// The addresses of the running interfaces, from the interface list.
    pub fn ip(&self, records: &[InterfaceRecord], masks: &FlagMasks) -> (out: Vec<Vec<u8>>)
        ensures
            out.len() == 1,
            exists|order: Seq<u32>|
                order.no_duplicates() && order.to_set() == ipv4_addresses(records@, *masks)
                    && out[0]@ == #[trigger] ipv4_list_text(order),
    {
        ip(records, masks)
    }

    /// The usage of the mounted file systems, from the candidates of the
    /// mount table and what the system reports of each.
    pub fn disks(&self, probes: &[MountProbe]) -> (out: Vec<UsageResult>)
        ensures
            usage_views(out@) == usages_of(probes@),
    {
        disk_usages(probes)
    }

    /// The graphics cards, from the identifier files of each.
    pub fn gpus(&self, cards: &[CardFiles]) -> (out: Vec<Vec<u8>>)
        ensures
            views(out@) == match gpu_labels(cards@) {
                Some(names) => names,
                None => Seq::empty(),
            },
    {
        gpus(cards)
    }

    /// The displays, from the modes file of each connector.
    pub fn displays(&self, modes: &[Vec<u8>]) -> (out: Vec<Vec<u8>>)
        ensures
            views(out@) == first_modes(views(modes@)),
    {
        displays(modes)
    }

    /// The locale, from the values of `LANG`, `LC_ALL` and `LC_MESSAGES`.
    pub fn locale(
        &self,
        lang: Option<&[u8]>,
        lc_all: Option<&[u8]>,
        lc_messages: Option<&[u8]>,
    ) -> (r: Option<Vec<u8>>)
        ensures
            text_view(r) == locale_of(
                slice_view(lang),
                slice_view(lc_all),
                slice_view(lc_messages),
            ),
    {
        locale(lang, lc_all, lc_messages)
    }

    /// The theme of the desktop, which is not known here.
    pub fn theme(&self) -> (r: Option<Vec<u8>>)
        ensures
            r is None,
    {
        None
    }

    /// The window manager, which is not known here.
    pub fn wm(&self) -> (r: Option<Vec<u8>>)
        ensures
            r is None,
    {
        None
    }

    /// The desktop environment, which is not known here.
    pub fn de(&self) -> (r: Option<Vec<u8>>)
        ensures
            r is None,
    {
        None
    }

    /// The font of the system, which is not known here.
    pub fn sys_font(&self) -> (r: Option<Vec<u8>>)
        ensures
            r is None,
    {
        None
    }

    /// The cursor theme, which is not known here.
    pub fn cursor(&self) -> (r: Option<Vec<u8>>)
        ensures
            r is None,
    {
        None
    }

    /// The terminal, which is not known here.
    pub fn terminal(&self) -> (r: Option<Vec<u8>>)
        ensures
            r is None,
    {
        None
    }

    /// The font of the terminal, which is not known here.
    pub fn term_font(&self) -> (r: Option<Vec<u8>>)
        ensures
            r is None,
    {
        None
    }

    /// The charge of the battery, which is not known here.
    pub fn battery(&self) -> (r: Option<Vec<u8>>)
        ensures
            r is None,
    {
        None
    }

    /// The time since the system started, which is not known here.
    pub fn uptime(&self) -> (r: Option<Vec<u8>>)
        ensures
            r is None,
    {
        None
    }

    /// The icon theme, which is not known here.
    pub fn icons(&self) -> (r: Option<Vec<u8>>)
        ensures
            r is None,
    {
        None
    }
}

} // verus!
