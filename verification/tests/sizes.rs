use nono_sessions::sizes::{
    calculate_dir_size, format_bytes, total_rollback_storage_bytes, TreeEntry,
};

#[test]
fn format_bytes_display() {
    assert_eq!(format_bytes(500), "500 B");
    assert_eq!(format_bytes(1024), "1.0 KB");
    assert_eq!(format_bytes(1536), "1.5 KB");
    assert_eq!(format_bytes(1024 * 1024), "1.0 MB");
    assert_eq!(format_bytes(1024 * 1024 * 1024), "1.0 GB");
}

#[test]
fn halfway_values_go_to_the_even_digit() {
    assert_eq!(format_bytes(1024 + 256), "1.2 KB");
    assert_eq!(format_bytes(1024 + 768), "1.8 KB");
    assert_eq!(format_bytes(0), "0 B");
    assert_eq!(format_bytes(1023), "1023 B");
    assert_eq!(format_bytes(1024 * 1024 - 1), "1024.0 KB");
    assert_eq!(format_bytes(u64::MAX), "17179869184.0 GB");
}

fn shown_by_floats(bytes: u64) -> String {
    const KB: u64 = 1024;
    const MB: u64 = 1024 * KB;
    const GB: u64 = 1024 * MB;
    if bytes >= GB {
        format!("{:.1} GB", bytes as f64 / GB as f64)
    } else if bytes >= MB {
        format!("{:.1} MB", bytes as f64 / MB as f64)
    } else if bytes >= KB {
        format!("{:.1} KB", bytes as f64 / KB as f64)
    } else {
        format!("{bytes} B")
    }
}

#[test]
fn format_bytes_agrees_with_floating_point() {
    for n in 0..20_000u64 {
        assert_eq!(format_bytes(n), shown_by_floats(n), "{n}");
    }
    for shift in 0..64u32 {
        let base = 1u64 << shift;
        for quarter in 0..8u64 {
            let about = base.saturating_add((base / 8).saturating_mul(quarter));
            for off in 0..6u64 {
                for n in [about.saturating_sub(off), about.saturating_add(off)] {
                    assert_eq!(format_bytes(n), shown_by_floats(n), "{n}");
                }
            }
        }
    }
    // halfway points between tenths of a gibibyte, where the spacing of
    // doubles is wider than one
    let eighth = 1u64 << 28;
    for start in [1u64 << 53, 1 << 54, 1 << 60, 3 << 62] {
        for k in 0..40u64 {
            let tie = start + eighth * (2 * k + 1);
            for off in 0..2100u64 {
                assert_eq!(format_bytes(tie - off), shown_by_floats(tie - off));
                assert_eq!(format_bytes(tie + off), shown_by_floats(tie + off));
            }
        }
    }
    let mut x: u64 = 0x9e37_79b9_7f4a_7c15;
    for _ in 0..50_000 {
        x ^= x << 13;
        x ^= x >> 7;
        x ^= x << 17;
        let n = x >> (x % 60);
        assert_eq!(format_bytes(n), shown_by_floats(n), "{n}");
    }
}

#[test]
fn discover_sessions_empty_dir() {
    let size = calculate_dir_size(&vec![TreeEntry::NotFile]);
    assert_eq!(size, Some(0));
}

#[test]
fn calculate_dir_size_works() {
    let size = calculate_dir_size(&vec![
        TreeEntry::NotFile,
        TreeEntry::File(b"hello".len() as u64),
        TreeEntry::File(b"world!".len() as u64),
    ]);
    assert_eq!(size, Some(11)); // 5 + 6
}

#[test]
fn unreadable_entries_take_no_space() {
    let entries = vec![
        TreeEntry::Unreadable,
        TreeEntry::File(7),
        TreeEntry::NotFile,
    ];
    assert_eq!(calculate_dir_size(&entries), Some(7));
    assert_eq!(calculate_dir_size(&vec![]), Some(0));
    let too_much = vec![TreeEntry::File(u64::MAX), TreeEntry::File(1)];
    assert_eq!(calculate_dir_size(&too_much), None);
}

#[test]
fn a_missing_root_takes_no_space() {
    assert_eq!(total_rollback_storage_bytes(None), Some(0));
    assert_eq!(
        total_rollback_storage_bytes(Some(&vec![TreeEntry::File(3), TreeEntry::File(4)])),
        Some(7)
    );
}

#[test]
fn larger_sizes_are_not_shown_as_less() {
    let shown = |bytes: u64| -> f64 {
        let text = format_bytes(bytes);
        let (number, unit) = text.split_once(' ').unwrap();
        let scale = match unit {
            "GB" => 1073741824.0,
            "MB" => 1048576.0,
            "KB" => 1024.0,
            _ => 1.0,
        };
        number.parse::<f64>().unwrap() * scale
    };
    let sizes = [
        0, 1, 1023, 1024, 1075, 1076, 1048575, 1048576, 1073741823, 1073741824,
        9007199254740991, 9007199254740992, 9007199254740993, u64::MAX - 1, u64::MAX,
    ];
    assert!(sizes.windows(2).all(|pair| shown(pair[0]) <= shown(pair[1])));
    assert_eq!(format_bytes(1048575), "1024.0 KB");
}

#[test]
fn the_total_is_the_sum_of_the_sessions() {
    let first = vec![TreeEntry::NotFile, TreeEntry::File(5)];
    let second = vec![TreeEntry::NotFile, TreeEntry::File(6), TreeEntry::Unreadable];
    let mut all = vec![TreeEntry::NotFile];
    all.extend(first.iter().copied());
    all.extend(second.iter().copied());
    let sum = calculate_dir_size(&first).unwrap() + calculate_dir_size(&second).unwrap();
    assert_eq!(total_rollback_storage_bytes(Some(&all)), Some(sum));
}
