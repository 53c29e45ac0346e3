use geyser_discovery::human_size::{decimal_string, to_human_size};

fn reference(bytes: usize) -> String {
    let kilobytes = bytes as f64 / 1024.0;
    if kilobytes < 1024.0 {
        format!("{kilobytes:.1} KB")
    } else {
        format!("{:.2} MB", kilobytes / 1024.0)
    }
}

#[test]
fn human_size_small_values() {
    assert_eq!(to_human_size(0), "0.0 KB");
    assert_eq!(to_human_size(1024), "1.0 KB");
    assert_eq!(to_human_size(1536), "1.5 KB");
    assert_eq!(to_human_size(1_048_575), "1024.0 KB");
    assert_eq!(to_human_size(1_048_576), "1.00 MB");
    assert_eq!(to_human_size(4 * 1024 * 1024), "4.00 MB");
}

#[test]
fn human_size_ties_round_to_even() {
    // 256 bytes is exactly 0.25 KB, 768 bytes exactly 0.75 KB
    assert_eq!(to_human_size(256), "0.2 KB");
    assert_eq!(to_human_size(768), "0.8 KB");
    assert_eq!(to_human_size(256), reference(256));
    assert_eq!(to_human_size(768), reference(768));
}

#[test]
fn human_size_matches_float_formatting_below_a_few_mebibytes() {
    let mut bytes: usize = 0;
    while bytes < 6 * 1024 * 1024 {
        assert_eq!(to_human_size(bytes), reference(bytes), "bytes = {bytes}");
        bytes += 37;
    }
    for bytes in [1_048_575usize, 1_048_576, 1_048_577, 5_242_880, 5_243_000, 104_857, 52_480] {
        assert_eq!(to_human_size(bytes), reference(bytes), "bytes = {bytes}");
    }
}

#[test]
fn human_size_matches_float_formatting_on_large_values() {
    let exact_bound: usize = 1 << 53;
    let samples = [
        exact_bound - 1,
        exact_bound,
        exact_bound + 1,
        exact_bound + 2,
        exact_bound + 3,
        (1 << 54) + 1,
        (1 << 54) + 2,
        (1 << 54) + 6,
        usize::MAX,
        usize::MAX - 1024,
        usize::MAX / 3,
        123_456_789_012_345_678,
        1 << 63,
        (1 << 63) + (1 << 10),
    ];
    for bytes in samples {
        assert_eq!(to_human_size(bytes), reference(bytes), "bytes = {bytes}");
    }
    let mut bytes: usize = 1 << 40;
    for _ in 0..2000 {
        assert_eq!(to_human_size(bytes), reference(bytes), "bytes = {bytes}");
        bytes = bytes.wrapping_mul(3).wrapping_add(12_345_677) % (usize::MAX / 2);
    }
}

#[test]
fn decimal_string_writes_numbers() {
    assert_eq!(decimal_string(0), "0");
    assert_eq!(decimal_string(7), "7");
    assert_eq!(decimal_string(10), "10");
    assert_eq!(decimal_string(1_234_567_890), "1234567890");
    assert_eq!(decimal_string(u64::MAX), u64::MAX.to_string());
}

fn shown_bytes(text: &str) -> f64 {
    let (number, unit) = text.split_once(' ').unwrap();
    let value: f64 = number.parse().unwrap();
    match unit {
        "KB" => value * 1024.0,
        "MB" => value * 1_048_576.0,
        _ => panic!("unexpected unit {unit}"),
    }
}

#[test]
fn shown_size_never_decreases() {
    let mut previous = shown_bytes(&to_human_size(0));
    let mut bytes: usize = 1;
    while bytes < 3 * 1024 * 1024 {
        let shown = shown_bytes(&to_human_size(bytes));
        assert!(shown >= previous, "bytes = {bytes}");
        previous = shown;
        bytes += 61;
    }
    assert!(shown_bytes(&to_human_size(1_048_575)) <= shown_bytes(&to_human_size(1_048_576)));
}
