use stressor::log_name::{
    begin_log_name, cpu_stress_log_name, parse_cpu_stress_filename,
    parse_selectable_stress_filename, parse_storage_stress_filename, plain_selectable_log_name,
    push_tagged, selectable_size_tag, sized_selectable_log_name, split_name,
    storage_stress_log_name, tagged_number,
};
use stressor::timestamp::{format_display, Timestamp};

fn fields(
    shown: &str,
    date: &str,
    label: &str,
    first: Option<u32>,
    second: Option<u32>,
) -> Option<(String, String, String, Option<u32>, Option<u32>)> {
    Some((shown.to_string(), date.to_string(), label.to_string(), first, second))
}

#[test]
fn storage_name_with_parameters_is_read() {
    assert_eq!(
        parse_storage_stress_filename("storage_stress_1234_20240101_120000_buf8_dur20.csv"),
        fields("January 1, 2024: 12:00:00", "20240101_120000", "1234", Some(8), Some(20))
    );
}

#[test]
fn storage_name_without_parameters_is_read() {
    assert_eq!(
        parse_storage_stress_filename("storage_stress_4821_20231231_235959.csv"),
        fields("December 31, 2023: 23:59:59", "20231231_235959", "4821", None, None)
    );
}

#[test]
fn cpu_name_is_read() {
    assert_eq!(
        parse_cpu_stress_filename("cpu_stress_9998_20240309_070500_int10000_dur10.csv"),
        fields("March 9, 2024: 07:05:00", "20240309_070500", "9998", Some(10000), Some(10))
    );
}

#[test]
fn selectable_name_gives_kind_size_and_duration() {
    assert_eq!(
        parse_selectable_stress_filename(
            "selectable_matrix_20240101_120000_size64_threads4_dur10.csv"
        ),
        fields("January 1, 2024: 12:00:00", "20240101_120000", "matrix", Some(64), Some(10))
    );
    assert_eq!(
        parse_selectable_stress_filename(
            "selectable_compression_20240615_101112_block65536_threads2_dur12.csv"
        ),
        fields("June 15, 2024: 10:11:12", "20240615_101112", "compression", Some(65536), Some(12))
    );
    assert_eq!(
        parse_selectable_stress_filename(
            "selectable_ram_20240615_101112_buf1048576_threads6_dur11.csv"
        ),
        fields("June 15, 2024: 10:11:12", "20240615_101112", "ram", Some(1048576), Some(11))
    );
    assert_eq!(
        parse_selectable_stress_filename("selectable_tightloop_20240615_101112_threads8_dur13.csv"),
        fields("June 15, 2024: 10:11:12", "20240615_101112", "tightloop", None, Some(13))
    );
}

#[test]
fn each_kind_reads_its_size_under_its_own_tag() {
    let read = |name: &str| {
        let parsed = parse_selectable_stress_filename(name).unwrap();
        (parsed.3, parsed.4)
    };
    assert_eq!(read("selectable_matrix_20240101_120000_block5_buf6_dur1.csv"), (None, Some(1)));
    assert_eq!(read("selectable_ram_20240101_120000_size5_buf6.csv"), (Some(6), None));
    assert_eq!(read("selectable_compression_20240101_120000_block7.csv"), (Some(7), None));
    assert_eq!(read("selectable_tightloop_20240101_120000_size5_buf6_block7.csv"), (None, None));
    assert_eq!(read("selectable_other_20240101_120000_size5_dur9.csv"), (None, Some(9)));
    assert_eq!(read("selectable_Matrix_20240101_120000_size5_dur9.csv"), (None, Some(9)));
    assert_eq!(
        read("selectable_matrix_20240101_120000_size4294967296_threads1_dur4294967295.csv"),
        (None, Some(u32::MAX))
    );
    assert_eq!(selectable_size_tag("matrix"), Some("size"));
    assert_eq!(selectable_size_tag("compression"), Some("block"));
    assert_eq!(selectable_size_tag("ram"), Some("buf"));
    assert_eq!(selectable_size_tag("tightloop"), None);
    assert_eq!(selectable_size_tag(""), None);
}

#[test]
fn every_month_is_named() {
    let names = [
        "January", "February", "March", "April", "May", "June", "July", "August", "September",
        "October", "November", "December",
    ];
    for (i, name) in names.iter().enumerate() {
        let file = format!("cpu_stress_1000_2024{:02}01_000000.csv", i + 1);
        let parsed = parse_cpu_stress_filename(&file).unwrap();
        assert_eq!(parsed.0, format!("{} 1, 2024: 00:00:00", name));
    }
}

#[test]
fn names_of_another_shape_are_not_read() {
    assert_eq!(parse_storage_stress_filename("cpu_stress_1234_20240101_120000.csv"), None);
    assert_eq!(parse_storage_stress_filename("storage_stress_1234_20240101_120000.txt"), None);
    assert_eq!(parse_storage_stress_filename("storage_stress_1234_20240101.csv"), None);
    assert_eq!(parse_storage_stress_filename("storage_stress_.csv"), None);
    assert_eq!(parse_storage_stress_filename(""), None);
    assert_eq!(parse_cpu_stress_filename("cpu_stress_1234_20241301_120000.csv"), None);
    assert_eq!(parse_cpu_stress_filename("cpu_stress_1234_20240101_250000.csv"), None);
    assert_eq!(parse_cpu_stress_filename("cpu_stress_1234_2024010_120000.csv"), None);
    assert_eq!(parse_selectable_stress_filename("selectable_ram_today_noon.csv"), None);
}

#[test]
fn the_label_may_be_any_text() {
    assert_eq!(
        parse_storage_stress_filename("storage_stress_é-x_20240101_120000.csv"),
        fields("January 1, 2024: 12:00:00", "20240101_120000", "é-x", None, None)
    );
    assert_eq!(
        parse_storage_stress_filename("storage_stress__20240101_120000.csv"),
        fields("January 1, 2024: 12:00:00", "20240101_120000", "", None, None)
    );
}

#[test]
fn the_last_token_of_a_tag_decides() {
    let parsed =
        parse_storage_stress_filename("storage_stress_1_20240101_120000_buf8_buf16_dur5.csv");
    assert_eq!(parsed.unwrap().3, Some(16));
    let parsed = parse_storage_stress_filename("storage_stress_1_20240101_120000_buf8_bufx.csv");
    assert_eq!(parsed.unwrap().3, None);
    let parsed = parse_storage_stress_filename("storage_stress_1_20240101_120000_buf.csv");
    assert_eq!(parsed.unwrap().3, None);
}

#[test]
fn numbers_are_read_as_the_standard_library_reads_them() {
    for token in ["8", "+8", "008", "4294967295", "4294967296", "-8", "", "+", "8 ", "٨", "8a"] {
        let file = format!("storage_stress_1_20240101_120000_buf{}.csv", token);
        let parsed = parse_storage_stress_filename(&file).unwrap();
        assert_eq!(parsed.3, token.parse::<u32>().ok(), "token {:?}", token);
    }
}

#[test]
fn tokens_in_any_order_are_read() {
    assert_eq!(
        parse_cpu_stress_filename("cpu_stress_7_20240101_120000_dur3_extra_int9.csv"),
        fields("January 1, 2024: 12:00:00", "20240101_120000", "7", Some(9), Some(3))
    );
}

#[test]
fn storage_name_is_made() {
    assert_eq!(
        storage_stress_log_name(1234, "20240101_120000", 8, 20),
        "storage_stress_1234_20240101_120000_buf8_dur20.csv"
    );
}

#[test]
fn cpu_name_is_made() {
    assert_eq!(
        cpu_stress_log_name(9998, "20240309_070500", 10000, 10),
        "cpu_stress_9998_20240309_070500_int10000_dur10.csv"
    );
    assert_eq!(
        cpu_stress_log_name(0, "d", 0, u32::MAX),
        "cpu_stress_0_d_int0_dur4294967295.csv"
    );
}

#[test]
fn selectable_names_are_made() {
    assert_eq!(
        sized_selectable_log_name("matrix", "20240615_101112", "size", 64, 4, 10),
        "selectable_matrix_20240615_101112_size64_threads4_dur10.csv"
    );
    assert_eq!(
        plain_selectable_log_name("tightloop", "20240615_101112", 2, 1),
        "selectable_tightloop_20240615_101112_threads2_dur1.csv"
    );
}

#[test]
fn a_storage_name_gives_back_what_it_was_made_from() {
    let name = storage_stress_log_name(4242, "20250704_081530", 8, 20);
    assert!(name.contains("buf8"));
    assert!(name.contains("dur20"));
    let parsed = parse_storage_stress_filename(&name).unwrap();
    assert_eq!(parsed.1, "20250704_081530");
    assert_eq!(parsed.2, "4242");
    assert_eq!(parsed.3, Some(8));
    assert_eq!(parsed.4, Some(20));
}

#[test]
fn a_cpu_name_gives_back_what_it_was_made_from() {
    for (intensity, duration) in [(1u32, 1u32), (10000, 60), (100000, 10), (u32::MAX, 0)] {
        let name = cpu_stress_log_name(1000, "19991231_235959", intensity, duration);
        let parsed = parse_cpu_stress_filename(&name).unwrap();
        assert_eq!(parsed.0, "December 31, 1999: 23:59:59");
        assert_eq!(parsed.3, Some(intensity));
        assert_eq!(parsed.4, Some(duration));
    }
}

#[test]
fn a_moment_is_shown_with_two_digits_for_the_time() {
    let ts = Timestamp {
        year: 2024,
        month: 3,
        day: 9,
        hour: 7,
        minute: 5,
        second: 0,
        nanosecond: 0,
    };
    assert_eq!(format_display(&ts), "March 9, 2024: 07:05:00");
    let ts = Timestamp {
        year: -44,
        month: 12,
        day: 31,
        hour: 23,
        minute: 59,
        second: 59,
        nanosecond: 0,
    };
    assert_eq!(format_display(&ts), "December 31, -44: 23:59:59");
}

#[test]
fn later_moments_are_told_apart_field_by_field() {
    let base = Timestamp {
        year: 2024,
        month: 6,
        day: 15,
        hour: 10,
        minute: 30,
        second: 20,
        nanosecond: 0,
    };
    assert!(!base.is_later_than(&base));
    assert!(Timestamp { year: 2025, month: 1, day: 1, hour: 0, minute: 0, second: 0, ..base }
        .is_later_than(&base));
    assert!(Timestamp { month: 7, day: 1, ..base }.is_later_than(&base));
    assert!(Timestamp { day: 16, hour: 0, ..base }.is_later_than(&base));
    assert!(Timestamp { hour: 11, minute: 0, ..base }.is_later_than(&base));
    assert!(Timestamp { minute: 31, second: 0, ..base }.is_later_than(&base));
    assert!(Timestamp { second: 21, ..base }.is_later_than(&base));
    assert!(Timestamp { nanosecond: 1, ..base }.is_later_than(&base));
    assert!(!Timestamp { year: 2023, month: 12, ..base }.is_later_than(&base));
}

#[test]
fn a_leap_second_is_read_as_second_fifty_nine() {
    let parsed = parse_cpu_stress_filename("cpu_stress_1_20161231_235960.csv").unwrap();
    assert_eq!(parsed.0, "December 31, 2016: 23:59:59");
}

#[test]
fn a_month_outside_the_calendar_has_no_name() {
    let ts = Timestamp {
        year: 2024,
        month: 13,
        day: 1,
        hour: 100,
        minute: 0,
        second: 7,
        nanosecond: 0,
    };
    assert_eq!(format_display(&ts), " 1, 2024: 100:00:07");
    assert_eq!(format_display(&Timestamp { month: 257, ..ts }), " 1, 2024: 100:00:07");
    assert_eq!(format_display(&Timestamp { month: 0, ..ts }), " 1, 2024: 100:00:07");
}

#[test]
fn a_name_is_cut_between_prefix_and_extension() {
    let chars: Vec<char> = "cpu_stress_12_a_b_int5.csv".chars().collect();
    assert_eq!(
        split_name(&chars, "cpu_stress_"),
        Some(vec![(11, 13), (14, 15), (16, 17), (18, 22)])
    );
    assert_eq!(split_name(&chars, "storage_stress_"), None);
    let chars: Vec<char> = "cpu_stress_.csv".chars().collect();
    assert_eq!(split_name(&chars, "cpu_stress_"), Some(vec![(11, 11)]));
    let chars: Vec<char> = "cpu_stress_csv".chars().collect();
    assert_eq!(split_name(&chars, "cpu_stress_"), None);
    let chars: Vec<char> = ".csv".chars().collect();
    assert_eq!(split_name(&chars, ""), Some(vec![(0, 0)]));
}

#[test]
fn a_tagged_number_is_found_after_the_date() {
    let chars: Vec<char> = "x_int1_int2_int3_dur9_int.csv".chars().collect();
    let ranges = vec![(0, 1), (2, 6), (7, 11), (12, 16), (17, 21), (22, 25)];
    assert_eq!(tagged_number(&chars, &ranges, "dur"), Some(9));
    assert_eq!(tagged_number(&chars, &ranges, "int"), None);
    assert_eq!(tagged_number(&chars, &ranges[..5].to_vec(), "int"), Some(3));
    assert_eq!(tagged_number(&chars, &ranges[..3].to_vec(), "int"), None);
    assert_eq!(tagged_number(&chars, &ranges, "buf"), None);
    assert_eq!(tagged_number(&chars, &ranges, ""), None);
}

#[test]
fn a_name_is_built_piece_by_piece() {
    let mut name = begin_log_name("family_", "label", "date");
    assert_eq!(name, "family_label_date");
    push_tagged(&mut name, "n", 0);
    push_tagged(&mut name, "max", u64::MAX);
    assert_eq!(name, "family_label_date_n0_max18446744073709551615");
}
