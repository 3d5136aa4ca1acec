//! Disk usage of the mounted file systems.
//!
//! The mount table names, on each line, a device, the path where it is
//! mounted and the type of its file system. This module picks the lines
//! that stand for real storage, and turns the block counters that the
//! operating system reports for a mount path into bytes used and bytes in
//! all.

use crate::text::append;
use crate::text::contains;
use crate::text::has_prefix;
use crate::text::lemma_run_end;
use crate::text::lines;
use crate::text::lines_of;
use crate::text::occurs_at;
use crate::text::occurs_in;
use crate::text::run_end;
use crate::text::scan;
use crate::text::slice_views;
use crate::text::starts_with;
use crate::text::ByteClass;
use vstd::prelude::*;
use vstd::slice::*;
use vstd::string::*;

verus! {

/// The first three fields of a mount-table line, as a plain value.
pub struct MountFields {
    /// The device.
    pub device_path: Seq<u8>,
    /// Where the device is mounted.
    pub mount_path: Seq<u8>,
    /// The type of the file system.
    pub filesystem_type: Seq<u8>,
}

/// A line of the mount table that stands for real storage.
#[derive(Clone, Debug, PartialEq, Eq)]
pub struct MountCandidate {
    /// The device.
    pub device_path: Vec<u8>,
    /// Where the device is mounted.
    pub mount_path: Vec<u8>,
    /// The type of the file system.
    pub filesystem_type: Vec<u8>,
}

impl View for MountCandidate {
    type V = MountFields;

    open spec fn view(&self) -> MountFields {
        MountFields {
            device_path: self.device_path@,
            mount_path: self.mount_path@,
            filesystem_type: self.filesystem_type@,
        }
    }
}

/// The first three fields of `line`, where it has three. Fields are the
/// runs of bytes between white space.
pub open spec fn mount_fields(line: Seq<u8>) -> Option<MountFields> {
    let device_start = run_end(line, 0, ByteClass::Gap);
    let device_end = run_end(line, device_start, ByteClass::Field);
    let mount_start = run_end(line, device_end, ByteClass::Gap);
    let mount_end = run_end(line, mount_start, ByteClass::Field);
    let type_start = run_end(line, mount_end, ByteClass::Gap);
    let type_end = run_end(line, type_start, ByteClass::Field);
    if device_start < device_end && mount_start < mount_end && type_start < type_end {
        Some(
            MountFields {
                device_path: line.subrange(device_start, device_end),
                mount_path: line.subrange(mount_start, mount_end),
                filesystem_type: line.subrange(type_start, type_end),
            },
        )
    } else {
        None
    }
}

/// Whether a mount path begins like that of a storage pool or of a
/// passed-through host drive. Such a mount is kept whatever its device.
pub open spec fn has_pool_prefix(mount_path: Seq<u8>) -> bool {
    has_prefix(mount_path, "/rpool/".spec_bytes()) || has_prefix(mount_path, "drvfs".spec_bytes())
}

/// Whether a device is a loop device, a RAM disk or a floppy drive.
pub open spec fn is_pseudo_device(device_path: Seq<u8>) -> bool {
    has_prefix(device_path, "/dev/loop".spec_bytes()) || has_prefix(
        device_path,
        "/dev/ram".spec_bytes(),
    ) || has_prefix(device_path, "/dev/fd".spec_bytes())
}

/// Whether a line is that of a pseudo-mount: its device is a pseudo-device,
/// or the line names the directory of the snap packages.
pub open spec fn is_pseudo_mount(line: Seq<u8>, device_path: Seq<u8>) -> bool {
    is_pseudo_device(device_path) || occurs_in(line, "/var/snap".spec_bytes())
}

/// Whether a line with the given fields is kept. A mount under a pool prefix
/// is. Any other is kept where it is no pseudo-mount and its device is a
/// device file.
pub open spec fn is_kept(line: Seq<u8>, fields: MountFields) -> bool {
    has_pool_prefix(fields.mount_path) || (!is_pseudo_mount(line, fields.device_path)
        && has_prefix(fields.device_path, "/dev/".spec_bytes()))
}

/// The candidate that `line` stands for, if it is kept.
pub open spec fn mount_candidate(line: Seq<u8>) -> Option<MountFields> {
    match mount_fields(line) {
        Some(fields) => if is_kept(line, fields) {
            Some(fields)
        } else {
            None
        },
        None => None,
    }
}

/// The candidates of a list of lines, in the order of the lines.
pub open spec fn candidates_of(lines: Seq<Seq<u8>>) -> Seq<MountFields>
    decreases lines.len(),
{
    if lines.len() == 0 {
        Seq::empty()
    } else {
        match mount_candidate(lines.last()) {
            Some(fields) => candidates_of(lines.drop_last()).push(fields),
            None => candidates_of(lines.drop_last()),
        }
    }
}

/// The views of a list of candidates.
pub open spec fn candidate_views(items: Seq<MountCandidate>) -> Seq<MountFields> {
    Seq::new(items.len(), |i: int| items[i]@)
}

/// The view of a candidate that may be absent.
pub open spec fn candidate_view(item: Option<MountCandidate>) -> Option<MountFields> {
    match item {
        Some(candidate) => Some(candidate@),
        None => None,
    }
}

/// Reads one line of the mount table. The result is the candidate that the
/// line stands for, or nothing where the line has fewer than three fields
/// or is dropped by the exclusion rule.
pub fn parse_mount_line(line: &[u8]) -> (r: Option<MountCandidate>)
    ensures
        candidate_view(r) == mount_candidate(line@),
{
    let device_start = scan(line, 0, ByteClass::Gap);
    let device_end = scan(line, device_start, ByteClass::Field);
    let mount_start = scan(line, device_end, ByteClass::Gap);
    let mount_end = scan(line, mount_start, ByteClass::Field);
    let type_start = scan(line, mount_end, ByteClass::Gap);
    let type_end = scan(line, type_start, ByteClass::Field);
    if !(device_start < device_end && mount_start < mount_end && type_start < type_end) {
        return None;
    }
    let device = slice_subrange(line, device_start, device_end);
    let mount = slice_subrange(line, mount_start, mount_end);
    let kind = slice_subrange(line, type_start, type_end);
    let pool = starts_with(mount, "/rpool/".as_bytes()) || starts_with(mount, "drvfs".as_bytes());
    if !pool {
        let pseudo = starts_with(device, "/dev/loop".as_bytes()) || starts_with(
            device,
            "/dev/ram".as_bytes(),
        ) || starts_with(device, "/dev/fd".as_bytes()) || contains(line, "/var/snap".as_bytes());
        if pseudo || !starts_with(device, "/dev/".as_bytes()) {
            return None;
        }
    }
    Some(
        MountCandidate {
            device_path: slice_to_vec(device),
            mount_path: slice_to_vec(mount),
            filesystem_type: slice_to_vec(kind),
        },
    )
}

/// Reads the mount table and returns the lines that stand for real
/// storage, in the order of the table.
pub fn mount_candidates(table: &[u8]) -> (out: Vec<MountCandidate>)
    ensures
        candidate_views(out@) == candidates_of(lines_of(table@)),
{
    let all = lines(table);
    let mut out: Vec<MountCandidate> = Vec::new();
    let mut i: usize = 0;
    assert(slice_views(all@).take(0) =~= Seq::empty());
    while i < all.len()
        invariant
            i <= all.len(),
            candidate_views(out@) == candidates_of(slice_views(all@).take(i as int)),
        decreases all.len() - i,
    {
        proof {
            let seen = slice_views(all@).take(i + 1);
            assert(seen.drop_last() =~= slice_views(all@).take(i as int));
            assert(seen.last() == all[i as int]@);
        }
        let ghost before = out@;
        match parse_mount_line(all[i]) {
            Some(candidate) => {
                out.push(candidate);
                assert(candidate_views(out@) =~= candidate_views(before).push(candidate@));
            },
            None => {},
        }
        i += 1;
    }
    assert(slice_views(all@).take(i as int) =~= slice_views(all@));
    out
}

/// A pseudo-mount is dropped unless it is mounted under a pool prefix: a
/// line whose device is a loop device, a RAM disk or a floppy drive, or
/// whose mount path lies under the directory of the snap packages, gives no
/// candidate.
pub proof fn lemma_pseudo_mounts_are_dropped(line: Seq<u8>)
    requires
        mount_fields(line) is Some,
        !has_pool_prefix(mount_fields(line).unwrap().mount_path),
        is_pseudo_device(mount_fields(line).unwrap().device_path) || has_prefix(
            mount_fields(line).unwrap().mount_path,
            "/var/snap".spec_bytes(),
        ),
    ensures
        mount_candidate(line) is None,
{
    let fields = mount_fields(line).unwrap();
    let snap = "/var/snap".spec_bytes();
    if has_prefix(fields.mount_path, snap) {
        let device_start = run_end(line, 0, ByteClass::Gap);
        lemma_run_end(line, 0, ByteClass::Gap);
        let device_end = run_end(line, device_start, ByteClass::Field);
        lemma_run_end(line, device_start, ByteClass::Field);
        let mount_start = run_end(line, device_end, ByteClass::Gap);
        lemma_run_end(line, device_end, ByteClass::Gap);
        let mount_end = run_end(line, mount_start, ByteClass::Field);
        lemma_run_end(line, mount_start, ByteClass::Field);
        assert(line.subrange(mount_start, mount_start + snap.len()) =~= fields.mount_path.subrange(
            0,
            snap.len() as int,
        ));
        assert(occurs_at(line, mount_start, snap));
    }
}

/// Outside the pool prefixes only device files are kept: a line whose
/// device does not begin with `/dev/` gives no candidate.
pub proof fn lemma_other_devices_are_dropped(line: Seq<u8>)
    requires
        mount_fields(line) is Some,
        !has_pool_prefix(mount_fields(line).unwrap().mount_path),
        !has_prefix(mount_fields(line).unwrap().device_path, "/dev/".spec_bytes()),
    ensures
        mount_candidate(line) is None,
{
}

/// A line under a pool prefix is kept whatever its device.
pub proof fn lemma_pool_mounts_are_kept(line: Seq<u8>)
    requires
        mount_fields(line) is Some,
        has_pool_prefix(mount_fields(line).unwrap().mount_path),
    ensures
        mount_candidate(line) == mount_fields(line),
{
}

/// What the operating system reports of a mounted file system.
#[derive(Clone, Copy, Debug, PartialEq, Eq)]
pub struct FsStats {
    /// The number of blocks in all.
    pub total_blocks: u64,
    /// The number of blocks that an unprivileged user may still fill.
    pub available_blocks: u64,
    /// The size of a block, in bytes.
    pub block_size: u64,
}

/// The usage of a file system, as a plain value.
pub struct Usage {
    /// Where the file system is mounted.
    pub mount_path: Seq<u8>,
    /// The bytes in use.
    pub used_bytes: nat,
    /// The bytes in all.
    pub total_bytes: nat,
}

/// The usage of a file system. There are never more bytes in use than bytes
/// in all.
#[derive(Debug, PartialEq, Eq)]
pub struct UsageResult {
    mount_path: Vec<u8>,
    used_bytes: u64,
    total_bytes: u64,
}

impl View for UsageResult {
    type V = Usage;

    closed spec fn view(&self) -> Usage {
        Usage {
            mount_path: self.mount_path@,
            used_bytes: self.used_bytes as nat,
            total_bytes: self.total_bytes as nat,
        }
    }
}

/// The usage that the counters `stats` give for the file system at
/// `mount_path`. There is none where more blocks are available than exist,
/// where no block is in use, or where a count of bytes does not fit 64 bits.
pub open spec fn usage_of(mount_path: Seq<u8>, stats: FsStats) -> Option<Usage> {
    let used_blocks = stats.total_blocks - stats.available_blocks;
    if used_blocks <= 0 {
        None
    } else if used_blocks * stats.block_size > u64::MAX || stats.total_blocks * stats.block_size
        > u64::MAX {
        None
    } else {
        Some(
            Usage {
                mount_path,
                used_bytes: (used_blocks * stats.block_size) as nat,
                total_bytes: (stats.total_blocks * stats.block_size) as nat,
            },
        )
    }
}

/// A usage is reported only of blocks in use, and never shows more bytes in
/// use than bytes in all; both counts are multiples of the block size.
pub proof fn lemma_usage_is_sound(mount_path: Seq<u8>, stats: FsStats)
    ensures
        stats.total_blocks <= stats.available_blocks ==> usage_of(mount_path, stats) is None,
        usage_of(mount_path, stats) matches Some(usage) ==> {
            &&& usage.mount_path == mount_path
            &&& usage.used_bytes <= usage.total_bytes <= u64::MAX
            &&& usage.used_bytes == (stats.total_blocks - stats.available_blocks) * stats.block_size
            &&& usage.total_bytes == stats.total_blocks * stats.block_size
        },
{
    if stats.total_blocks > stats.available_blocks {
        let used_blocks = stats.total_blocks - stats.available_blocks;
        assert(used_blocks * stats.block_size <= stats.total_blocks * stats.block_size)
            by (nonlinear_arith)
            requires
                0 <= used_blocks <= stats.total_blocks,
                stats.block_size >= 0,
        ;
        assert(0 <= used_blocks * stats.block_size) by (nonlinear_arith)
            requires
                0 <= used_blocks,
                stats.block_size >= 0,
        ;
    }
}

/// The view of a usage that may be absent.
pub open spec fn usage_view(item: Option<UsageResult>) -> Option<Usage> {
    match item {
        Some(usage) => Some(usage@),
        None => None,
    }
}

impl UsageResult {
    #[verifier::type_invariant]
    spec fn well_formed(self) -> bool {
        self.used_bytes <= self.total_bytes
    }

    /// Where the file system is mounted.
    pub fn mount_path(&self) -> (r: &[u8])
        ensures
            r@ == self@.mount_path,
    {
        self.mount_path.as_slice()
    }

    /// The bytes in use, which are never more than the bytes in all.
    pub fn used_bytes(&self) -> (r: u64)
        ensures
            r == self@.used_bytes,
            r <= self@.total_bytes,
    {
        proof {
            use_type_invariant(self);
        }
        self.used_bytes
    }

    /// The bytes in all.
    pub fn total_bytes(&self) -> (r: u64)
        ensures
            r == self@.total_bytes,
            r >= self@.used_bytes,
    {
        proof {
            use_type_invariant(self);
        }
        self.total_bytes
    }
}

/// Turns the counters of a file system into its usage. Nothing is reported
/// where the count of used blocks would be negative or is zero, nor where a
/// count of bytes would overflow.
pub fn usage(mount_path: &[u8], stats: &FsStats) -> (r: Option<UsageResult>)
    ensures
        usage_view(r) == usage_of(mount_path@, *stats),
        stats.total_blocks <= stats.available_blocks ==> r is None,
        r matches Some(u) ==> u@.used_bytes <= u@.total_bytes,
{
    let used_blocks = match stats.total_blocks.checked_sub(stats.available_blocks) {
        Some(n) => n,
        None => { return None; },
    };
    if used_blocks == 0 {
        return None;
    }
    let used_bytes = match used_blocks.checked_mul(stats.block_size) {
        Some(n) => n,
        None => { return None; },
    };
    let total_bytes = match stats.total_blocks.checked_mul(stats.block_size) {
        Some(n) => n,
        None => { return None; },
    };
    proof {
        lemma_usage_is_sound(mount_path@, *stats);
    }
    Some(UsageResult { mount_path: slice_to_vec(mount_path), used_bytes, total_bytes })
}

/// The label under which the usage of a mount is shown.
pub open spec fn disk_label(mount_path: Seq<u8>) -> Seq<u8> {
    "Disk (".spec_bytes() + mount_path + ")".spec_bytes()
}

/// The text that shows a usage, from the two counts as they are printed.
pub open spec fn usage_text(used: Seq<u8>, total: Seq<u8>) -> Seq<u8> {
    used + "/ ".spec_bytes() + total
}

/// The pair that is shown for a mount: its label, and its usage written
/// from the two counts as `used` and `total` print them.
pub fn disk_entry(mount_path: &[u8], used: &[u8], total: &[u8]) -> (r: (Vec<u8>, Vec<u8>))
    ensures
        r.0@ == disk_label(mount_path@),
        r.1@ == usage_text(used@, total@),
{
    let mut label: Vec<u8> = Vec::new();
    append(&mut label, "Disk (".as_bytes());
    append(&mut label, mount_path);
    append(&mut label, ")".as_bytes());
    let mut text: Vec<u8> = Vec::new();
    append(&mut text, used);
    append(&mut text, "/ ".as_bytes());
    append(&mut text, total);
    assert(label@ =~= disk_label(mount_path@));
    assert(text@ =~= usage_text(used@, total@));
    (label, text)
}

/// A candidate with what the operating system reports of its mount path,
/// or with nothing where it reports nothing.
#[derive(Clone, Debug, PartialEq, Eq)]
pub struct MountProbe {
    /// The candidate.
    pub candidate: MountCandidate,
    /// The counters of the file system at its mount path.
    pub stats: Option<FsStats>,
}

/// The usage that a probe gives, if any.
pub open spec fn probe_usage(probe: MountProbe) -> Option<Usage> {
    match probe.stats {
        Some(stats) => usage_of(probe.candidate.mount_path@, stats),
        None => None,
    }
}

/// The usages that a list of probes gives, in the order of the probes.
pub open spec fn usages_of(probes: Seq<MountProbe>) -> Seq<Usage>
    decreases probes.len(),
{
    if probes.len() == 0 {
        Seq::empty()
    } else {
        match probe_usage(probes.last()) {
            Some(usage) => usages_of(probes.drop_last()).push(usage),
            None => usages_of(probes.drop_last()),
        }
    }
}

/// The views of a list of usages.
pub open spec fn usage_views(items: Seq<UsageResult>) -> Seq<Usage> {
    Seq::new(items.len(), |i: int| items[i]@)
}

/// The usage of each probed mount that has one, in the order of the
/// probes.
pub fn disk_usages(probes: &[MountProbe]) -> (out: Vec<UsageResult>)
    ensures
        usage_views(out@) == usages_of(probes@),
{
    let mut out: Vec<UsageResult> = Vec::new();
    let mut i: usize = 0;
    assert(probes@.take(0) =~= Seq::empty());
    while i < probes.len()
        invariant
            i <= probes.len(),
            usage_views(out@) == usages_of(probes@.take(i as int)),
        decreases probes.len() - i,
    {
        proof {
            assert(probes@.take(i + 1).drop_last() =~= probes@.take(i as int));
        }
        let ghost before = out@;
        let probe = &probes[i];
        if let Some(stats) = &probe.stats {
            if let Some(found) = usage(probe.candidate.mount_path.as_slice(), stats) {
                out.push(found);
                assert(usage_views(out@) =~= usage_views(before).push(found@));
            }
        }
        i += 1;
    }
    assert(probes@.take(i as int) =~= probes@);
    out
}

} // verus!
