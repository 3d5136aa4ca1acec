use hostfacts::macinfo::check_readable;
use hostfacts::macinfo::render_system;
use hostfacts::macinfo::PLIST_LIMIT;
use hostfacts::macinfo::MacInfo;
use hostfacts::net::FlagMasks;
use hostfacts::net::InterfaceRecord;
use hostfacts::net::RawAddress;

fn mac() -> MacInfo {
    MacInfo::new(b"23.1.0".to_vec())
}

fn version_list(name: &str, version: &str) -> Vec<u8> {
    format!(
        "<?xml version=\"1.0\" encoding=\"UTF-8\"?>\n\
<!DOCTYPE plist PUBLIC \"-//Apple//DTD PLIST 1.0//EN\" \"http://www.apple.com/DTDs/PropertyList-1.0.dtd\">\n\
<plist version=\"1.0\">\n<dict>\n\
\t<key>ProductBuildVersion</key>\n\t<string>23B81</string>\n\
\t<key>ProductName</key>\n\t<string>{name}</string>\n\
\t<key>ProductVersion</key>\n\t<string>{version}</string>\n\
</dict>\n</plist>\n"
    )
    .into_bytes()
}

fn written(seconds: i64) -> String {
    if seconds == 0 {
        return "0s".to_string();
    }
    let span = seconds.unsigned_abs();
    let mut out = String::new();
    if seconds < 0 {
        out.push('-');
    }
    for (count, unit) in [(span / 86400, "d"), (span / 3600 % 24, "h"), (span / 60 % 60, "m"), (span % 60, "s")] {
        if count != 0 {
            out.push_str(&format!("{count}{unit}"));
        }
    }
    out
}

#[test]
fn system_name_is_read_from_the_property_list() {
    let content = version_list("macOS", "14.1.1");
    assert_eq!(mac().os(&content), Some(b"macOS 14.1.1".to_vec()));
    let content = version_list("Mac OS X", "10.15.7");
    assert_eq!(mac().os(&content), Some(b"Mac OS X 10.15.7".to_vec()));
}

#[test]
fn a_binary_property_list_is_not_read() {
    let mut dict = plist::Dictionary::new();
    dict.insert("ProductName".to_string(), plist::Value::String("macOS".to_string()));
    dict.insert("ProductVersion".to_string(), plist::Value::String("13.6".to_string()));
    let mut content: Vec<u8> = Vec::new();
    plist::Value::Dictionary(dict).to_writer_binary(&mut content).unwrap();
    assert!(content.starts_with(b"bplist00"));
    assert!(!check_readable(&content));
    assert_eq!(mac().os(&content), None);
}

#[test]
fn a_property_list_with_a_date_is_not_read() {
    let late = b"<?xml version=\"1.0\" encoding=\"UTF-8\"?><plist version=\"1.0\"><dict>\
<key>ProductName</key><string>macOS</string>\
<key>ProductVersion</key><string>14.0</string>\
<key>Built</key><date>9999-12-31T23:59:59-01:00</date></dict></plist>";
    assert!(!check_readable(late));
    assert_eq!(mac().os(late), None);
    let early = b"<?xml version=\"1.0\" encoding=\"UTF-8\"?><plist version=\"1.0\"><dict>\
<key>ProductName</key><string>macOS</string>\
<key>ProductVersion</key><string>14.0</string>\
<key>Built</key><date>2023-10-01T00:00:00Z</date></dict></plist>";
    assert_eq!(mac().os(early), None);
    let named = version_list("update", "14.0");
    assert!(!check_readable(&named));
    assert_eq!(mac().os(&named), None);
}

#[test]
fn a_property_list_over_the_limit_is_not_read() {
    let mut content = version_list("macOS", "14.1.1");
    assert!(check_readable(&content));
    let room = PLIST_LIMIT - content.len();
    content.extend(std::iter::repeat(b'\n').take(room));
    assert_eq!(content.len(), PLIST_LIMIT);
    assert!(check_readable(&content));
    assert_eq!(mac().os(&content), Some(b"macOS 14.1.1".to_vec()));
    content.push(b'\n');
    assert!(!check_readable(&content));
    assert_eq!(mac().os(&content), None);
}

#[test]
fn a_deeply_nested_property_list_is_survived() {
    let open = vec![b'('; PLIST_LIMIT];
    assert!(check_readable(&open));
    assert_eq!(mac().os(&open), None);
    let mut closed = vec![b'('; PLIST_LIMIT / 2];
    closed.extend(vec![b')'; PLIST_LIMIT / 2]);
    assert_eq!(mac().os(&closed), None);
    let mut tags = Vec::new();
    while tags.len() + 7 <= PLIST_LIMIT {
        tags.extend_from_slice(b"<array>");
    }
    assert_eq!(mac().os(&tags), None);
    let mut braces = vec![b'{'; PLIST_LIMIT / 2];
    braces.extend(vec![b'}'; PLIST_LIMIT / 2]);
    assert_eq!(mac().os(&braces), None);
}

#[test]
fn system_name_is_absent_where_the_list_lacks_it() {
    assert_eq!(mac().os(b""), None);
    assert_eq!(mac().os(b"not a property list"), None);
    let no_version = b"<?xml version=\"1.0\" encoding=\"UTF-8\"?><plist version=\"1.0\"><dict>\
<key>ProductName</key><string>macOS</string></dict></plist>";
    assert_eq!(mac().os(no_version), None);
    let no_dictionary = b"<?xml version=\"1.0\" encoding=\"UTF-8\"?><plist version=\"1.0\">\
<string>macOS</string></plist>";
    assert_eq!(mac().os(no_dictionary), None);
    let no_string = b"<?xml version=\"1.0\" encoding=\"UTF-8\"?><plist version=\"1.0\"><dict>\
<key>ProductName</key><string>macOS</string><key>ProductVersion</key><integer>14</integer></dict></plist>";
    assert_eq!(mac().os(no_string), None);
}

#[test]
fn system_name_needs_both_parts() {
    assert_eq!(render_system(Some(b"macOS"), Some(b"14.0")), Some(b"macOS 14.0".to_vec()));
    assert_eq!(render_system(Some(b""), Some(b"")), Some(b" ".to_vec()));
    assert_eq!(render_system(None, Some(b"14.0")), None);
    assert_eq!(render_system(Some(b"macOS"), None), None);
    assert_eq!(render_system(None, None), None);
}

#[test]
fn uptime_is_written_in_days_hours_minutes_and_seconds() {
    assert_eq!(mac().uptime(0), Some(b"0s".to_vec()));
    assert_eq!(mac().uptime(1), Some(b"1s".to_vec()));
    assert_eq!(mac().uptime(59), Some(b"59s".to_vec()));
    assert_eq!(mac().uptime(60), Some(b"1m".to_vec()));
    assert_eq!(mac().uptime(3600), Some(b"1h".to_vec()));
    assert_eq!(mac().uptime(3661), Some(b"1h1m1s".to_vec()));
    assert_eq!(mac().uptime(86400), Some(b"1d".to_vec()));
    assert_eq!(mac().uptime(86400 + 5), Some(b"1d5s".to_vec()));
    assert_eq!(mac().uptime(90061), Some(b"1d1h1m1s".to_vec()));
    assert_eq!(mac().uptime(1234567), Some(b"14d6h56m7s".to_vec()));
    assert_eq!(mac().uptime(-5), Some(b"-5s".to_vec()));
    assert_eq!(mac().uptime(-3600), Some(b"-1h".to_vec()));
}

#[test]
fn uptime_is_written_the_same_way_for_any_count() {
    let mut seconds: i64 = 1;
    while seconds < i64::MAX / 7 {
        assert_eq!(mac().uptime(seconds), Some(written(seconds).into_bytes()));
        assert_eq!(mac().uptime(-seconds), Some(written(-seconds).into_bytes()));
        seconds = seconds * 7 + 3;
    }
    for seconds in [i64::MAX, i64::MIN, i64::MIN + 1, 86399, 86401, 23 * 3600, 24 * 3600 - 1] {
        assert_eq!(mac().uptime(seconds), Some(written(seconds).into_bytes()));
    }
}

#[test]
fn mac_answers_from_plain_values() {
    let info = mac();
    assert_eq!(info.kernel(), Some(b"23.1.0".to_vec()));
    assert_eq!(info.cpu(b"Apple M2 Pro", b"12"), Some(b"Apple M2 Pro (12)".to_vec()));
    assert_eq!(info.id(), b"macos");
    assert_eq!(info.battery(&vec![b"87%".to_vec(), b"100%".to_vec()]), Some(b"87%, 100%".to_vec()));
    assert_eq!(info.battery(&vec![b"5%".to_vec()]), Some(b"5%".to_vec()));
    assert_eq!(info.battery(&vec![]), Some(b"".to_vec()));
    assert_eq!(info.locale(None, Some(b"fr_FR.UTF-8"), None), Some(b"fr_FR.UTF-8".to_vec()));
    assert_eq!(info.locale(Some(b""), None, None), None);
}

#[test]
fn mac_shows_a_deprecated_address() {
    let masks = FlagMasks { running: 0x40, loopback: 0x8, deprecated: None };
    let records = vec![
        InterfaceRecord { flags: 0x40 | 0x20, address: Some(RawAddress::V4([10, 0, 0, 4])) },
        InterfaceRecord { flags: 0x40 | 0x8, address: Some(RawAddress::V4([127, 0, 0, 1])) },
    ];
    assert_eq!(mac().ip(&records, &masks), vec![b"10.0.0.4".to_vec()]);
}

#[test]
fn mac_leaves_the_unknown_fields_absent() {
    let info = mac();
    assert!(info.displays().is_empty());
    assert!(info.gpus().is_empty());
    assert!(info.disks().is_empty());
    assert_eq!(info.machine(), None);
    assert_eq!(info.memory(), None);
    assert_eq!(info.theme(), None);
    assert_eq!(info.wm(), None);
    assert_eq!(info.de(), None);
    assert_eq!(info.sys_font(), None);
    assert_eq!(info.cursor(), None);
    assert_eq!(info.terminal(), None);
    assert_eq!(info.term_font(), None);
    assert_eq!(info.icons(), None);
}
