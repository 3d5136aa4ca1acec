use hostfacts::mounts::disk_entry;
use hostfacts::mounts::disk_usages;
use hostfacts::mounts::mount_candidates;
use hostfacts::mounts::parse_mount_line;
use hostfacts::mounts::usage;
use hostfacts::mounts::FsStats;
use hostfacts::mounts::MountCandidate;
use hostfacts::mounts::MountProbe;

fn candidate(device: &str, mount: &str, kind: &str) -> MountCandidate {
    MountCandidate {
        device_path: device.as_bytes().to_vec(),
        mount_path: mount.as_bytes().to_vec(),
        filesystem_type: kind.as_bytes().to_vec(),
    }
}

fn stats(total_blocks: u64, available_blocks: u64, block_size: u64) -> FsStats {
    FsStats { total_blocks, available_blocks, block_size }
}

#[test]
fn a_device_line_is_kept_with_its_first_three_fields() {
    assert_eq!(
        parse_mount_line(b"/dev/sda1 / ext4 rw,relatime 0 0"),
        Some(candidate("/dev/sda1", "/", "ext4"))
    );
    assert_eq!(
        parse_mount_line(b"  /dev/nvme0n1p2\t/home   btrfs"),
        Some(candidate("/dev/nvme0n1p2", "/home", "btrfs"))
    );
}

#[test]
fn a_line_with_fewer_than_three_fields_is_dropped() {
    assert_eq!(parse_mount_line(b""), None);
    assert_eq!(parse_mount_line(b"   "), None);
    assert_eq!(parse_mount_line(b"/dev/sda1"), None);
    assert_eq!(parse_mount_line(b"/dev/sda1 /"), None);
    assert_eq!(parse_mount_line(b"/dev/sda1 / "), None);
}

#[test]
fn pseudo_devices_are_dropped() {
    assert_eq!(parse_mount_line(b"/dev/loop0 /mnt/image squashfs ro 0 0"), None);
    assert_eq!(parse_mount_line(b"/dev/loop12 /snap/core/1 squashfs ro 0 0"), None);
    assert_eq!(parse_mount_line(b"/dev/ram0 /mnt/ram ext2 rw 0 0"), None);
    assert_eq!(parse_mount_line(b"/dev/fd0 /mnt/floppy vfat rw 0 0"), None);
    assert_eq!(parse_mount_line(b" /dev/loop0 /mnt/image squashfs"), None);
}

#[test]
fn snap_mounts_are_dropped() {
    assert_eq!(parse_mount_line(b"/dev/sda3 /var/snap/firefox/common ext4 rw 0 0"), None);
    assert_eq!(parse_mount_line(b"/dev/sda3 /var/snap ext4 rw 0 0"), None);
    assert_eq!(parse_mount_line(b"/dev/sda3 /mnt ext4 rw,bind=/var/snap/x 0 0"), None);
}

#[test]
fn other_devices_are_dropped() {
    assert_eq!(parse_mount_line(b"proc /proc proc rw,nosuid 0 0"), None);
    assert_eq!(parse_mount_line(b"tmpfs /run tmpfs rw 0 0"), None);
    assert_eq!(parse_mount_line(b"sysfs /sys sysfs rw 0 0"), None);
    assert_eq!(parse_mount_line(b"/de /mnt ext4 rw 0 0"), None);
    assert_eq!(parse_mount_line(b"rpool/ROOT / zfs rw 0 0"), None);
}

#[test]
fn pool_mounts_are_kept_whatever_their_device() {
    assert_eq!(
        parse_mount_line(b"rpool/data /rpool/data zfs rw 0 0"),
        Some(candidate("rpool/data", "/rpool/data", "zfs"))
    );
    assert_eq!(
        parse_mount_line(b"C: drvfs/c 9p rw 0 0"),
        Some(candidate("C:", "drvfs/c", "9p"))
    );
    assert_eq!(
        parse_mount_line(b"/dev/loop3 /rpool/image squashfs ro 0 0"),
        Some(candidate("/dev/loop3", "/rpool/image", "squashfs"))
    );
    assert_eq!(
        parse_mount_line(b"/dev/ram1 /rpool/x ext2 rw,from=/var/snap 0 0"),
        Some(candidate("/dev/ram1", "/rpool/x", "ext2"))
    );
    assert_eq!(parse_mount_line(b"rpool/data /rpool zfs rw 0 0"), None);
}

#[test]
fn the_table_gives_its_candidates_in_order() {
    let table = b"sysfs /sys sysfs rw 0 0\n\
/dev/sda2 / ext4 rw 0 0\n\
/dev/loop0 /snap/core/1 squashfs ro 0 0\n\
\n\
/dev/sda1 /boot/efi vfat rw 0 0\r\n\
tank /rpool/tank zfs rw 0 0\n\
/dev/sdb1 /var/snap/x ext4 rw 0 0\n\
/dev/sdc1 /data xfs rw 0 0";
    assert_eq!(
        mount_candidates(table),
        vec![
            candidate("/dev/sda2", "/", "ext4"),
            candidate("/dev/sda1", "/boot/efi", "vfat"),
            candidate("tank", "/rpool/tank", "zfs"),
            candidate("/dev/sdc1", "/data", "xfs"),
        ]
    );
    assert_eq!(mount_candidates(b""), vec![]);
}

#[test]
fn usage_is_blocks_times_block_size() {
    let found = usage(b"/", &stats(1000, 400, 4096)).unwrap();
    assert_eq!(found.mount_path(), b"/");
    assert_eq!(found.used_bytes(), 600 * 4096);
    assert_eq!(found.total_bytes(), 1000 * 4096);
    assert!(found.used_bytes() <= found.total_bytes());
    assert_eq!(found.used_bytes() % 4096, 0);
    assert_eq!(found.total_bytes() % 4096, 0);
}

#[test]
fn usage_is_not_reported_without_used_blocks() {
    assert_eq!(usage(b"/", &stats(1000, 1000, 4096)), None);
    assert_eq!(usage(b"/", &stats(0, 0, 4096)), None);
    assert_eq!(usage(b"/", &stats(0, 0, 0)), None);
}

#[test]
fn usage_is_not_reported_where_the_subtraction_would_underflow() {
    assert_eq!(usage(b"/", &stats(1000, 1001, 4096)), None);
    assert_eq!(usage(b"/", &stats(0, 1, 4096)), None);
    assert_eq!(usage(b"/", &stats(0, u64::MAX, 1)), None);
}

#[test]
fn usage_is_not_reported_where_a_product_would_overflow() {
    assert_eq!(usage(b"/", &stats(u64::MAX, 0, 2)), None);
    assert_eq!(usage(b"/", &stats(1 << 40, 1, 1 << 24)), None);
    assert_eq!(usage(b"/", &stats(1 << 40, (1 << 40) - 1, 1 << 24)), None);
    let edge = usage(b"/", &stats(u64::MAX, 0, 1)).unwrap();
    assert_eq!(edge.used_bytes(), u64::MAX);
    assert_eq!(edge.total_bytes(), u64::MAX);
    let big = usage(b"/", &stats(1 << 39, 1, 1 << 24)).unwrap();
    assert_eq!(big.total_bytes(), 1 << 63);
    assert_eq!(big.used_bytes(), ((1u64 << 39) - 1) << 24);
}

#[test]
fn usage_with_a_block_size_of_zero_is_zero_bytes() {
    let found = usage(b"/x", &stats(10, 4, 0)).unwrap();
    assert_eq!(found.used_bytes(), 0);
    assert_eq!(found.total_bytes(), 0);
}

#[test]
fn probes_without_a_usage_are_left_out() {
    let probes = vec![
        MountProbe { candidate: candidate("/dev/sda2", "/", "ext4"), stats: Some(stats(100, 25, 512)) },
        MountProbe { candidate: candidate("/dev/sda1", "/boot", "vfat"), stats: None },
        MountProbe { candidate: candidate("/dev/sdb1", "/empty", "ext4"), stats: Some(stats(100, 100, 512)) },
        MountProbe { candidate: candidate("/dev/sdc1", "/odd", "ext4"), stats: Some(stats(1, 2, 512)) },
        MountProbe { candidate: candidate("/dev/sdd1", "/data", "xfs"), stats: Some(stats(8, 0, 1024)) },
    ];
    let found = disk_usages(&probes);
    assert_eq!(found.len(), 2);
    assert_eq!(found[0].mount_path(), b"/");
    assert_eq!(found[0].used_bytes(), 75 * 512);
    assert_eq!(found[0].total_bytes(), 100 * 512);
    assert_eq!(found[1].mount_path(), b"/data");
    assert_eq!(found[1].used_bytes(), 8192);
    assert_eq!(found[1].total_bytes(), 8192);
    assert!(disk_usages(&[]).is_empty());
}

#[test]
fn a_disk_is_shown_by_label_and_counts() {
    let (label, text) = disk_entry(b"/home", b"1.2 GB", b"4 GB");
    assert_eq!(label, b"Disk (/home)");
    assert_eq!(text, b"1.2 GB/ 4 GB");
    let (label, text) = disk_entry(b"", b"", b"");
    assert_eq!(label, b"Disk ()");
    assert_eq!(text, b"/ ");
}
