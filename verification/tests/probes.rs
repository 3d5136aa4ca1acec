use hostfacts::cpu::cpu;
use hostfacts::cpu::field;
use hostfacts::cpu::render_brand;
use hostfacts::cpu::render_cpu;
use hostfacts::locale::locale;
use hostfacts::memory::memory;
use hostfacts::memory::pair_usage;
use hostfacts::memory::readings;
use hostfacts::memory::render_memory;
use hostfacts::memory::usage_from_counters;
use hostfacts::memory::Counter;
use hostfacts::memory::MemoryUsage;
use hostfacts::memory::Reading;

#[test]
fn cpu_renders_model_cores_and_clock() {
    let text = b"processor : 0\nmodel name : Example CPU @ 3.00GHz\ncpu cores : 8\n";
    assert_eq!(cpu(text), Some(b"Example CPU (8) @ 3.00GHz)".to_vec()));
}

#[test]
fn cpu_reads_the_first_line_of_each_label() {
    let text = b"processor\t: 0\n\
vendor_id\t: GenuineIntel\n\
model\t\t: 142\n\
model name\t: Intel(R) Core(TM) i7-8550U CPU @ 1.80GHz\n\
cpu cores\t: 4\n\
processor\t: 1\n\
model name\t: Other CPU @ 9.99GHz\n\
cpu cores\t: 16\n";
    assert_eq!(cpu(text), Some(b"Intel(R) Core(TM) i7-8550U CPU (4) @ 1.80GHz)".to_vec()));
}

#[test]
fn cpu_is_absent_without_model_cores_colon_or_clock() {
    assert_eq!(cpu(b""), None);
    assert_eq!(cpu(b"cpu cores : 8\n"), None);
    assert_eq!(cpu(b"model name : Example CPU @ 3.00GHz\n"), None);
    assert_eq!(cpu(b"model name : Example CPU\ncpu cores : 8\n"), None);
    assert_eq!(cpu(b"model name Example CPU @ 3.00GHz\ncpu cores : 8\n"), None);
    assert_eq!(cpu(b"model name : Example CPU @ 3.00GHz\ncpu cores 8\n"), None);
    assert_eq!(cpu(b" model name : Example CPU @ 3.00GHz\ncpu cores : 8\n"), None);
}

#[test]
fn cpu_splits_the_model_at_its_first_at_sign() {
    assert_eq!(render_cpu(b"A @ B @ C", b"2"), Some(b"A (2) @ B @ C)".to_vec()));
    assert_eq!(render_cpu(b"A@B", b"2"), Some(b"A (2) @ B)".to_vec()));
    assert_eq!(render_cpu(b"@", b""), Some(b" () @ )".to_vec()));
    assert_eq!(render_cpu(b"no clock", b"2"), None);
}

#[test]
fn field_values_follow_the_first_colon() {
    let text = b"a : 1\nab: x:y \r\nabc\n";
    assert_eq!(field(text, b"a"), Some(&b"1"[..]));
    assert_eq!(field(text, b"ab"), Some(&b"x:y"[..]));
    assert_eq!(field(text, b"abc"), None);
    assert_eq!(field(text, b"b"), None);
    assert_eq!(field(b"x:", b"x"), Some(&b""[..]));
}

#[test]
fn brand_renders_with_cores_in_brackets() {
    assert_eq!(render_brand(b"Apple M1", b"8"), b"Apple M1 (8)");
    assert_eq!(render_brand(b"", b""), b" ()");
}

#[test]
fn memory_is_total_less_available_in_bytes() {
    let text = b"MemTotal: 16384000 kB\nMemAvailable: 8000000 kB\n";
    assert_eq!(
        memory(text),
        Some(MemoryUsage {
            used_bytes: (16384000 - 8000000) * 1024,
            total_bytes: 16384000 * 1024,
        })
    );
}

#[test]
fn memory_reads_the_two_counters_among_others() {
    let text = b"MemTotal:       32658508 kB\n\
MemFree:         1873076 kB\n\
MemAvailable:   21474836 kB\n\
Buffers:         1523396 kB\n\
SwapTotal:       8388604 kB\n";
    assert_eq!(
        memory(text),
        Some(MemoryUsage { used_bytes: 11183672 * 1024, total_bytes: 32658508 * 1024 })
    );
}

#[test]
fn memory_takes_each_counter_by_its_label() {
    let usual = b"MemTotal: 16384000 kB\nMemAvailable: 8000000 kB\n";
    let turned = b"MemAvailable: 8000000 kB\nMemTotal: 16384000 kB\n";
    let expected = Some(MemoryUsage { used_bytes: 8585216000, total_bytes: 16777216000 });
    assert_eq!(memory(usual), expected);
    assert_eq!(memory(turned), expected);
    assert_eq!(
        memory(b"MemAvailable: 4\nMemFree: 1\nMemTotal: 9\n"),
        Some(MemoryUsage { used_bytes: 5 * 1024, total_bytes: 9 * 1024 })
    );
    assert_eq!(
        memory(b"xxMemTotal:\n\t 12kBMemAvailable:2"),
        Some(MemoryUsage { used_bytes: 10 * 1024, total_bytes: 12 * 1024 })
    );
    assert_eq!(memory(b"MemAvailable: 9\nMemTotal: 4\n"), None);
}

#[test]
fn memory_needs_each_counter_exactly_once() {
    assert_eq!(memory(b"MemTotal:7MemTotal:7"), None);
    assert_eq!(memory(b"MemAvailable: 1\nMemAvailable: 1\n"), None);
    assert_eq!(memory(b"MemTotal: 7\nMemAvailable: 1\nMemTotal: 7\n"), None);
    assert_eq!(memory(b"MemAvailable: 1\n"), None);
}

#[test]
fn readings_keep_their_labels_and_their_order() {
    let total = |value| Reading { counter: Counter::Total, value };
    let available = |value| Reading { counter: Counter::Available, value };
    assert_eq!(
        readings(b"MemAvailable: 3 kB\nMemTotal: x\nMemTotal:5MemFree: 1\nMemAvailable:"),
        vec![available(Some(3)), total(None), total(Some(5)), available(None)]
    );
    assert!(readings(b"").is_empty());
    assert!(readings(b"memtotal: 5").is_empty());
    assert_eq!(readings(b"MemTotal:99999999999999999999"), vec![total(None)]);
    assert_eq!(
        pair_usage(total(Some(8)), available(Some(2))),
        Some(MemoryUsage { used_bytes: 6144, total_bytes: 8192 })
    );
    assert_eq!(
        pair_usage(available(Some(2)), total(Some(8))),
        Some(MemoryUsage { used_bytes: 6144, total_bytes: 8192 })
    );
    assert_eq!(pair_usage(total(Some(8)), total(Some(2))), None);
    assert_eq!(pair_usage(available(Some(8)), available(Some(2))), None);
    assert_eq!(pair_usage(total(None), available(Some(2))), None);
    assert_eq!(pair_usage(total(Some(8)), available(None)), None);
    assert_eq!(pair_usage(total(Some(2)), available(Some(8))), None);
}

#[test]
fn memory_is_absent_where_a_reading_is_no_number() {
    assert_eq!(memory(b"MemTotal: kB\nMemAvailable: 2 kB\n"), None);
    assert_eq!(memory(b"MemTotal: 3 kB\nMemAvailable:"), None);
    assert_eq!(memory(b"MemTotal: x3 kB\nMemAvailable: 2 kB\n"), None);
    assert_eq!(memory(b"MemTotal: 99999999999999999999 kB\nMemAvailable: 2 kB\n"), None);
    assert_eq!(memory(b"MemTotal: 3\nMemAvailable: 2\nMemTotal: none\n"), None);
}

#[test]
fn memory_is_absent_where_the_arithmetic_has_no_result() {
    assert_eq!(memory(b"MemTotal: 2 kB\nMemAvailable: 3 kB\n"), None);
    assert_eq!(memory(b"MemTotal: 18014398509481984 kB\nMemAvailable: 0 kB\n"), None);
    assert_eq!(usage_from_counters(2, 3), None);
    assert_eq!(usage_from_counters(1 << 54, 0), None);
    assert_eq!(
        usage_from_counters((1 << 54) - 1, 0),
        Some(MemoryUsage { used_bytes: u64::MAX - 1023, total_bytes: u64::MAX - 1023 })
    );
    assert_eq!(usage_from_counters(0, 0), Some(MemoryUsage { used_bytes: 0, total_bytes: 0 }));
}

#[test]
fn memory_is_shown_as_used_of_total() {
    assert_eq!(render_memory(b"8.00 GiB", b"15.63 GiB"), b"8.00 GiB / 15.63 GiB");
    assert_eq!(render_memory(b"", b""), b" / ");
}

#[test]
fn locale_is_the_first_variable_that_is_set_and_not_empty() {
    let a = Some(&b"en_US.UTF-8"[..]);
    let b = Some(&b"de_DE.UTF-8"[..]);
    let c = Some(&b"C"[..]);
    let empty = Some(&b""[..]);
    assert_eq!(locale(a, b, c), Some(b"en_US.UTF-8".to_vec()));
    assert_eq!(locale(None, b, c), Some(b"de_DE.UTF-8".to_vec()));
    assert_eq!(locale(empty, b, c), Some(b"de_DE.UTF-8".to_vec()));
    assert_eq!(locale(None, None, c), Some(b"C".to_vec()));
    assert_eq!(locale(empty, empty, c), Some(b"C".to_vec()));
    assert_eq!(locale(None, empty, None), None);
    assert_eq!(locale(None, None, None), None);
    assert_eq!(locale(empty, empty, empty), None);
}
