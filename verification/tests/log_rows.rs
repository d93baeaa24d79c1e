use stressor::log_rows::{
    analyze_cpu_stress_csv, analyze_selectable_stress_csv, analyze_storage_stress_csv, cpu_header,
    cpu_row, group_by_thread, read_cpu_row, read_storage_row, read_summary_row, storage_header,
    storage_row, summary_header, summary_row, summary_rows, StorageOp,
};

fn lines(text: &[&str]) -> Vec<Option<String>> {
    text.iter().map(|l| Some(l.to_string())).collect()
}

#[test]
fn storage_rows_are_sorted_by_phase() {
    let log = lines(&[
        "timestamp,operation,mbps",
        "2024-01-01T12:00:00+00:00,write,100.5",
        "2024-01-01T12:00:01+00:00,write,110",
        "2024-01-01T12:00:02+00:00,read,200.25",
        "garbage",
        "a,erase,5",
        "a,write,7,extra",
        "b,read,nonsense",
    ]);
    let (writes, reads) = analyze_storage_stress_csv(&log);
    assert_eq!(writes, vec!["100.5", "110"]);
    assert_eq!(reads, vec!["200.25", "nonsense"]);
}

#[test]
fn the_first_line_of_a_log_is_its_header() {
    let (writes, reads) = analyze_storage_stress_csv(&lines(&["x,write,1", "x,write,2"]));
    assert_eq!(writes, vec!["2"]);
    assert!(reads.is_empty());
    let (writes, reads) = analyze_storage_stress_csv(&Vec::new());
    assert!(writes.is_empty() && reads.is_empty());
    let (writes, reads) = analyze_storage_stress_csv(&lines(&["timestamp,operation,mbps"]));
    assert!(writes.is_empty() && reads.is_empty());
}

#[test]
fn lines_that_could_not_be_read_are_passed_over() {
    let log = vec![
        None,
        Some("t,write,1".to_string()),
        None,
        Some("t,read,2".to_string()),
    ];
    let (writes, reads) = analyze_storage_stress_csv(&log);
    assert_eq!(writes, vec!["1"]);
    assert_eq!(reads, vec!["2"]);
    assert_eq!(analyze_cpu_stress_csv(&vec![None, None, Some("t,3,9".to_string())]).len(), 1);
}

#[test]
fn one_storage_row_is_read() {
    assert_eq!(read_storage_row("t,write,12.5"), Some((StorageOp::Write, "12.5".to_string())));
    assert_eq!(read_storage_row("t,read,"), Some((StorageOp::Read, String::new())));
    assert_eq!(read_storage_row("t,Write,12.5"), None);
    assert_eq!(read_storage_row("t,write"), None);
    assert_eq!(read_storage_row(""), None);
}

#[test]
fn cpu_rows_are_read_in_order() {
    let log = lines(&[
        "timestamp,thread,iterations_per_sec",
        "t,0,1000.5",
        "t,1,900",
        "t,x,900",
        "t,0,1100",
        "t,2",
        "t,-1,5",
    ]);
    let rows = analyze_cpu_stress_csv(&log);
    assert_eq!(
        rows,
        vec![(0, "1000.5".to_string()), (1, "900".to_string()), (0, "1100".to_string())]
    );
}

#[test]
fn one_cpu_row_is_read() {
    assert_eq!(read_cpu_row("t,12,3.5"), Some((12, "3.5".to_string())));
    assert_eq!(read_cpu_row("t,+12,3.5"), Some((12, "3.5".to_string())));
    assert_eq!(read_cpu_row("t,,3.5"), None);
    assert_eq!(read_cpu_row("t,1,2,3"), None);
    let largest = format!("t,{},1", usize::MAX - 1);
    assert_eq!(read_cpu_row(&largest), Some((usize::MAX - 1, "1".to_string())));
    let beyond = format!("t,{},1", usize::MAX);
    assert_eq!(read_cpu_row(&beyond), None);
}

#[test]
fn values_are_grouped_by_thread() {
    let rows = vec![(2usize, 1.5f64), (0, 2.5), (2, 3.5), (0, 4.5)];
    let groups = group_by_thread(rows);
    assert_eq!(groups, vec![vec![2.5, 4.5], vec![], vec![1.5, 3.5]]);
    let none: Vec<Vec<u8>> = group_by_thread(Vec::new());
    assert!(none.is_empty());
}

#[test]
fn a_summary_log_is_read() {
    let log = lines(&[
        "timestamp,workload,params,total_ops,thread,thread_ops",
        "20240101_120000,Tight Loop,p,300,0,100",
        "20240101_120000,Tight Loop,p,300,1,200",
        "short,row",
    ]);
    assert_eq!(
        analyze_selectable_stress_csv(&log),
        Some(("Tight Loop".to_string(), "p".to_string(), 300, vec![(0, 100), (1, 200)]))
    );
}

#[test]
fn a_summary_log_without_rows_is_empty() {
    let log = lines(&["timestamp,workload,params,total_ops,thread,thread_ops"]);
    assert_eq!(
        analyze_selectable_stress_csv(&log),
        Some((String::new(), String::new(), 0, Vec::new()))
    );
    assert_eq!(
        analyze_selectable_stress_csv(&Vec::new()),
        Some((String::new(), String::new(), 0, Vec::new()))
    );
}

#[test]
fn a_summary_log_with_an_unreadable_line_fails() {
    let mut log = lines(&["header", "d,w,p,3,0,3"]);
    log.push(None);
    assert_eq!(analyze_selectable_stress_csv(&log), None);
    assert_eq!(analyze_selectable_stress_csv(&vec![None]), None);
}

#[test]
fn the_total_of_a_summary_log_is_exact_beyond_sixty_four_bits() {
    let big = format!("d,w,p,0,0,{}", u64::MAX);
    let log = lines(&["header", &big, "d,w,p,0,1,1"]);
    assert_eq!(analyze_selectable_stress_csv(&log).unwrap().2, 1u128 << 64);
    let log = lines(&["header", &big, "d,w,p,0,1,0"]);
    assert_eq!(analyze_selectable_stress_csv(&log).unwrap().2, u64::MAX as u128);
    let row = summary_row("d", "w", "p", u128::MAX, 0, u64::MAX);
    assert_eq!(row, format!("d,w,p,{},0,{}", u128::MAX, u64::MAX));
}

#[test]
fn fields_that_are_no_numbers_count_as_zero() {
    assert_eq!(
        read_summary_row("d,w,p,t,x,y"),
        Some(("w".to_string(), "p".to_string(), 0, 0))
    );
    assert_eq!(read_summary_row("d,w,p,t,4"), None);
    assert_eq!(read_summary_row(""), None);
}

#[test]
fn the_parameters_of_a_row_may_hold_commas() {
    assert_eq!(
        read_summary_row("d,w,p,t,4,5"),
        Some(("w".to_string(), "p".to_string(), 4, 5))
    );
    assert_eq!(
        read_summary_row("d,w,a=1,b=2,t,4,5"),
        Some(("w".to_string(), "a=1,b=2".to_string(), 4, 5))
    );
    assert_eq!(
        read_summary_row("d,w,,,,t,4,5"),
        Some(("w".to_string(), ",,".to_string(), 4, 5))
    );
    assert_eq!(
        read_summary_row("d,w,p,t,4,5,6,7"),
        Some(("w".to_string(), "p,t,4".to_string(), 6, 7))
    );
}

#[test]
fn a_written_row_reads_back() {
    let row = summary_row("20240101_120000", "Tight Loop", "threads=2,dur=1", 1500, 1, 800);
    assert_eq!(row, "20240101_120000,Tight Loop,threads=2,dur=1,1500,1,800");
    assert_eq!(
        read_summary_row(&row),
        Some(("Tight Loop".to_string(), "threads=2,dur=1".to_string(), 1, 800))
    );
    let row = summary_row("d", "Matrix Multiplication", "size=64,threads=4,dur=10", 7, 3, 7);
    assert_eq!(
        read_summary_row(&row),
        Some(("Matrix Multiplication".to_string(), "size=64,threads=4,dur=10".to_string(), 3, 7))
    );
}

#[test]
fn a_written_summary_log_reads_back() {
    let log = lines(&[
        "timestamp,workload,params,total_ops,thread,thread_ops",
        "20240101_120000,Tight Loop,threads=2,dur=1,1500,0,700",
        "20240101_120000,Tight Loop,threads=2,dur=1,1500,1,800",
    ]);
    assert_eq!(
        analyze_selectable_stress_csv(&log),
        Some(("Tight Loop".to_string(), "threads=2,dur=1".to_string(), 1500, vec![(0, 700), (1, 800)]))
    );
    let counts = vec![5u64, 0, 17, 1];
    let mut written = vec![Some(summary_header().to_string())];
    for row in summary_rows("20240101_120000", "Compression", "block=9,threads=4,dur=2", 23, &counts)
    {
        written.push(Some(row));
    }
    assert_eq!(
        analyze_selectable_stress_csv(&written),
        Some((
            "Compression".to_string(),
            "block=9,threads=4,dur=2".to_string(),
            23,
            vec![(0, 5), (1, 0), (2, 17), (3, 1)]
        ))
    );
}

#[test]
fn headers_are_fixed() {
    assert_eq!(storage_header(), "timestamp,operation,mbps");
    assert_eq!(cpu_header(), "timestamp,thread,iterations_per_sec");
    assert_eq!(summary_header(), "timestamp,workload,params,total_ops,thread,thread_ops");
}

#[test]
fn rows_are_written() {
    assert_eq!(storage_row("t0", StorageOp::Write, "12.5"), "t0,write,12.5");
    assert_eq!(storage_row("t0", StorageOp::Read, "7"), "t0,read,7");
    assert_eq!(cpu_row("t1", 3, "1000.25"), "t1,3,1000.25");
    assert_eq!(StorageOp::Write.word(), "write");
    assert_eq!(StorageOp::Read.word(), "read");
}

#[test]
fn one_summary_row_is_written_per_thread() {
    let rows = summary_rows("d", "Compression", "p", 30, &vec![10, 20]);
    assert_eq!(rows, vec!["d,Compression,p,30,0,10", "d,Compression,p,30,1,20"]);
    assert!(summary_rows("d", "l", "p", 0, &Vec::new()).is_empty());
}

#[test]
fn written_rows_read_back() {
    for op in [StorageOp::Write, StorageOp::Read] {
        let row = storage_row("2024-01-01T12:00:00+00:00", op, "123.456");
        assert_eq!(read_storage_row(&row), Some((op, "123.456".to_string())));
    }
    for thread in [0usize, 7, 4096] {
        let row = cpu_row("2024-01-01T12:00:00+00:00", thread, "5e3");
        assert_eq!(read_cpu_row(&row), Some((thread, "5e3".to_string())));
    }
}

#[test]
fn reading_a_log_twice_gives_the_same() {
    let log = lines(&["h", "t,write,1.5", "t,read,2.5", "t,write,3.5"]);
    assert_eq!(analyze_storage_stress_csv(&log), analyze_storage_stress_csv(&log));
    let log = lines(&["h", "t,0,1.5", "t,1,2.5"]);
    assert_eq!(analyze_cpu_stress_csv(&log), analyze_cpu_stress_csv(&log));
    let log = lines(&["h", "d,w,p,3,0,1", "d,w,p,3,1,2"]);
    assert_eq!(analyze_selectable_stress_csv(&log), analyze_selectable_stress_csv(&log));
}
