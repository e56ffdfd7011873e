use dir_browser::size::{add_file_size, format_size};

/// The text that dividing in double precision and formatting with two places
/// gives.
fn by_floats(size: i64) -> String {
    if size < 1024 {
        format!("{} bytes", size)
    } else if size < 1024 * 1024 {
        format!("{:.2} KB", size as f64 / 1024.0)
    } else if size < 1024 * 1024 * 1024 {
        format!("{:.2} MB", size as f64 / (1024.0 * 1024.0))
    } else {
        format!("{:.2} GB", size as f64 / (1024.0 * 1024.0 * 1024.0))
    }
}

#[test]
fn boundary_values() {
    assert_eq!(format_size(1023), "1023 bytes");
    assert_eq!(format_size(1024), "1.00 KB");
    assert_eq!(format_size(1048576), "1.00 MB");
    assert_eq!(format_size(1073741824), "1.00 GB");
}

#[test]
fn below_each_threshold() {
    assert_eq!(format_size(1048575), "1024.00 KB");
    assert_eq!(format_size(1073741823), "1024.00 MB");
}

#[test]
fn small_counts_are_plain() {
    assert_eq!(format_size(0), "0 bytes");
    assert_eq!(format_size(1), "1 bytes");
    assert_eq!(format_size(9), "9 bytes");
    assert_eq!(format_size(10), "10 bytes");
    assert_eq!(format_size(512), "512 bytes");
}

#[test]
fn negative_counts_are_plain() {
    assert_eq!(format_size(-1), "-1 bytes");
    assert_eq!(format_size(-1024), "-1024 bytes");
    assert_eq!(format_size(-5000000), "-5000000 bytes");
    assert_eq!(format_size(i64::MIN), "-9223372036854775808 bytes");
}

#[test]
fn two_places_are_exact() {
    assert_eq!(format_size(1536), "1.50 KB");
    assert_eq!(format_size(2000), "1.95 KB");
    assert_eq!(format_size(123456789), "117.74 MB");
    assert_eq!(format_size(5 * 1073741824 + 268435456), "5.25 GB");
    assert_eq!(format_size(1099511627776), "1024.00 GB");
}

#[test]
fn a_tie_goes_to_the_even_hundredth() {
    // 1152 / 1024 is 1.125 and 1408 / 1024 is 1.375, both exactly.
    assert_eq!(format_size(1152), "1.12 KB");
    assert_eq!(format_size(1408), "1.38 KB");
    assert_eq!(format_size(1152), by_floats(1152));
    assert_eq!(format_size(1408), by_floats(1408));
}

#[test]
fn the_largest_count() {
    assert_eq!(format_size(i64::MAX), "8589934592.00 GB");
    assert_eq!(format_size(i64::MAX), by_floats(i64::MAX));
}

#[test]
fn agrees_with_floats_on_every_small_count() {
    let mut size: i64 = -2000;
    while size <= 300_000 {
        assert_eq!(format_size(size), by_floats(size), "size {}", size);
        size += 1;
    }
}

#[test]
fn agrees_with_floats_around_the_thresholds() {
    for centre in [1i64 << 10, 1 << 20, 1 << 30, 1 << 40, 1 << 50, 1 << 53, 1 << 54, 1 << 60, 1 << 62] {
        let mut size = centre - 3000;
        while size <= centre + 3000 {
            assert_eq!(format_size(size), by_floats(size), "size {}", size);
            size += 1;
        }
    }
    let mut size = i64::MAX - 5000;
    loop {
        assert_eq!(format_size(size), by_floats(size), "size {}", size);
        if size == i64::MAX {
            break;
        }
        size += 1;
    }
}

#[test]
fn agrees_with_floats_on_scattered_counts() {
    let mut state: u64 = 0x9e37_79b9_7f4a_7c15;
    let mut rounds = 0;
    while rounds < 200_000 {
        state = state.wrapping_mul(6364136223846793005).wrapping_add(1442695040888963407);
        let bits = (state >> 58) as u32;
        let size = ((state >> 1) >> (bits % 63)) as i64;
        assert_eq!(format_size(size), by_floats(size), "size {}", size);
        rounds += 1;
    }
}

#[test]
fn agrees_with_floats_where_doubles_round() {
    // Above 2^53 a double holds every second whole number, then every fourth,
    // and so on; counts half way between two doubles go to the even one.
    for shift in 53..63 {
        let base: i64 = 1 << shift;
        let step: i64 = 1 << (shift - 52);
        let mut k: i64 = 0;
        while k < 64 {
            let size = base + k * step / 2;
            assert_eq!(format_size(size), by_floats(size), "size {}", size);
            assert_eq!(format_size(size + 1), by_floats(size + 1), "size {}", size + 1);
            assert_eq!(format_size(size - 1), by_floats(size - 1), "size {}", size - 1);
            k += 1;
        }
    }
}

#[test]
fn file_sizes_add_up() {
    assert_eq!(add_file_size(0, 0), Some(0));
    assert_eq!(add_file_size(0, 1024), Some(1024));
    assert_eq!(add_file_size(1024, 512), Some(1536));
    assert_eq!(add_file_size(-10, 4), Some(-6));
    assert_eq!(add_file_size(i64::MIN, u64::MAX), Some(i64::MAX));
}

#[test]
fn a_total_beyond_the_largest_count_is_none() {
    assert_eq!(add_file_size(i64::MAX, 0), Some(i64::MAX));
    assert_eq!(add_file_size(i64::MAX, 1), None);
    assert_eq!(add_file_size(1, i64::MAX as u64), None);
    assert_eq!(add_file_size(0, i64::MAX as u64), Some(i64::MAX));
    assert_eq!(add_file_size(0, i64::MAX as u64 + 1), None);
    assert_eq!(add_file_size(0, u64::MAX), None);
    assert_eq!(add_file_size(-1, i64::MAX as u64 + 1), Some(i64::MAX));
}
