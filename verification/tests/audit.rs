use elf_audit::classify::classify_package;
use elf_audit::classify::have_binary;
use elf_audit::classify::is_binary;
use elf_audit::classify::list_binary;
use elf_audit::classify::FileHead;
use elf_audit::plan::partition_tiers;
use elf_audit::plan::render_commands;
use elf_audit::plan::tier_of;
use elf_audit::plan::DurationTier;
use elf_audit::record::sort_records;
use elf_audit::record::AuditRecord;
use elf_audit::report::audit_output;
use elf_audit::report::print_time;
use elf_audit::report::render_report;
use elf_audit::text::parse_u64;
use elf_audit::text::render_decimal;
use elf_audit::text::split_lines;
use elf_audit::text::split_tokens;
use elf_audit::tool::average_duration;
use elf_audit::tool::enumerate;
use elf_audit::tool::parse_file_list;
use elf_audit::tool::AuditError;

fn head(bytes: &[u8]) -> Vec<u8> {
    bytes.to_vec()
}

fn entry(path: &str, bytes: &[u8]) -> FileHead {
    FileHead { path: String::from(path), head: head(bytes) }
}

fn record(pkg: &str, duration: u64) -> AuditRecord {
    AuditRecord { pkg: String::from(pkg), files: Vec::new(), duration }
}

#[test]
fn elf_magic_classifies_as_binary() {
    assert!(is_binary(&[0x7f, b'E', b'L', b'F']));
    assert!(is_binary(&[0x7f, b'E', b'L', b'F', 0x02, 0x01]));
}

#[test]
fn non_magic_and_short_heads_are_not_binary() {
    assert!(!is_binary(&[]));
    assert!(!is_binary(&[0x7f]));
    assert!(!is_binary(&[0x7f, b'E', b'L']));
    assert!(!is_binary(&[b'E', b'L', b'F', 0x7f]));
    assert!(!is_binary(&[b'#', b'!', b'/', b'b']));
    assert!(!is_binary(&[0x7f, b'E', b'L', b'f']));
}

#[test]
fn zero_owned_files_means_no_binary() {
    let entries: Vec<FileHead> = Vec::new();
    assert!(!have_binary(&entries));
    assert!(list_binary(entries).is_empty());
    assert!(classify_package(Vec::new(), true).is_none());
    assert!(classify_package(Vec::new(), false).is_none());
}

#[test]
fn qualification_is_independent_of_flags() {
    let mk = || vec![entry("/usr/bin/tool", &[0x7f, b'E', b'L', b'F'])];
    assert!(classify_package(mk(), true).is_some());
    assert!(classify_package(mk(), false).is_some());
    let text = || vec![entry("/usr/share/doc", b"text")];
    assert!(classify_package(text(), true).is_none());
    assert!(classify_package(text(), false).is_none());
}

#[test]
fn list_binary_keeps_only_elf_paths() {
    let entries = vec![
        entry("/usr/bin/b", &[0x7f, b'E', b'L', b'F', 0]),
        entry("/usr/share/a", b"none"),
        entry("/usr/bin/a", &[0x7f, b'E', b'L', b'F']),
    ];
    let listed = list_binary(entries);
    assert_eq!(listed, vec![String::from("/usr/bin/b"), String::from("/usr/bin/a")]);
}

#[test]
fn classify_package_sorts_the_listing() {
    let entries = vec![
        entry("/usr/bin/zzz", &[0x7f, b'E', b'L', b'F']),
        entry("/usr/bin/mmm", &[0x7f, b'E', b'L', b'F']),
        entry("/usr/bin/aaa", &[0x7f, b'E', b'L', b'F']),
    ];
    let files = classify_package(entries, true).unwrap();
    assert_eq!(
        files,
        vec![
            String::from("/usr/bin/aaa"),
            String::from("/usr/bin/mmm"),
            String::from("/usr/bin/zzz"),
        ]
    );
}

#[test]
fn classify_package_without_listing_returns_empty_list() {
    let entries = vec![entry("/usr/bin/a", &[0x7f, b'E', b'L', b'F'])];
    let files = classify_package(entries, false).unwrap();
    assert!(files.is_empty());
}

#[test]
fn tier_boundaries_sit_at_sixty_and_nine_hundred() {
    assert_eq!(tier_of(0), DurationTier::Fast);
    assert_eq!(tier_of(59), DurationTier::Fast);
    assert_eq!(tier_of(60), DurationTier::Medium);
    assert_eq!(tier_of(899), DurationTier::Medium);
    assert_eq!(tier_of(900), DurationTier::Slow);
    assert_eq!(tier_of(u64::MAX), DurationTier::Slow);
}

#[test]
fn duration_formatting_matches_the_report_format() {
    assert_eq!(print_time(0), "0s");
    assert_eq!(print_time(59), "59s");
    assert_eq!(print_time(60), "1\u{2032}0\u{2033}");
    assert_eq!(print_time(125), "2\u{2032}5\u{2033}");
}

#[test]
fn decimal_rendering_has_no_leading_zeros() {
    assert_eq!(render_decimal(0), "0");
    assert_eq!(render_decimal(7), "7");
    assert_eq!(render_decimal(1200), "1200");
    assert_eq!(render_decimal(u64::MAX), "18446744073709551615");
}

#[test]
fn enumerate_splits_identifier_lines() {
    let r = enumerate(true, Some(0), String::from("cat/a\ncat/b\n"), String::new());
    assert_eq!(r.unwrap(), vec![String::from("cat/a"), String::from("cat/b")]);
}

#[test]
fn enumerate_empty_output_is_no_packages() {
    let r = enumerate(true, Some(0), String::new(), String::new());
    assert!(r.unwrap().is_empty());
}

#[test]
fn enumerate_exit_one_is_benign_empty() {
    let r = enumerate(false, Some(1), String::new(), String::from("no matches"));
    assert!(r.unwrap().is_empty());
}

#[test]
fn enumerate_other_failures_are_fatal() {
    let r = enumerate(false, Some(2), String::from("out"), String::from("err"));
    match r {
        Err(AuditError::ToolFailure { stdout, stderr }) => {
            assert_eq!(stdout, "out");
            assert_eq!(stderr, "err");
        }
        _ => panic!("expected a tool failure"),
    }
}

#[test]
fn file_list_failure_is_always_fatal() {
    let r = parse_file_list(false, String::new(), String::from("denied"));
    assert!(matches!(r, Err(AuditError::ToolFailure { .. })));
}

#[test]
fn file_list_success_keeps_every_line() {
    let r = parse_file_list(true, String::from("/usr/bin/a\n/usr/share/a\n"), String::new());
    assert_eq!(r.unwrap(), vec![String::from("/usr/bin/a"), String::from("/usr/share/a")]);
}

#[test]
fn average_duration_reads_the_second_token() {
    let r = average_duration(true, String::from("cat/a 30 merges"), String::new());
    assert_eq!(r.unwrap(), 30);
}

#[test]
fn average_duration_missing_token_means_instant() {
    let r = average_duration(true, String::from("cat/a"), String::new());
    assert_eq!(r.unwrap(), 0);
    let r = average_duration(true, String::new(), String::new());
    assert_eq!(r.unwrap(), 0);
}

#[test]
fn average_duration_bad_token_is_fatal() {
    let r = average_duration(true, String::from("cat/a 3x"), String::new());
    match r {
        Err(AuditError::BadDuration { token }) => assert_eq!(token, "3x"),
        _ => panic!("expected a malformed duration"),
    }
}

#[test]
fn average_duration_overflowing_token_is_fatal() {
    let r = average_duration(true, String::from("cat/a 99999999999999999999"), String::new());
    assert!(matches!(r, Err(AuditError::BadDuration { .. })));
}

#[test]
fn average_duration_tool_failure_is_fatal() {
    let r = average_duration(false, String::new(), String::from("boom"));
    assert!(matches!(r, Err(AuditError::ToolFailure { .. })));
}

#[test]
fn parse_u64_accepts_digits_only() {
    assert_eq!(parse_u64("0"), Some(0));
    assert_eq!(parse_u64("18446744073709551615"), Some(u64::MAX));
    assert_eq!(parse_u64("18446744073709551616"), None);
    assert_eq!(parse_u64(""), None);
    assert_eq!(parse_u64("+5"), None);
    assert_eq!(parse_u64("5 "), None);
}

#[test]
fn split_lines_terminates_on_trailing_newline() {
    assert!(split_lines("").is_empty());
    assert_eq!(split_lines("a"), vec![String::from("a")]);
    assert_eq!(split_lines("a\n"), vec![String::from("a")]);
    assert_eq!(split_lines("a\n\nb"), vec![String::from("a"), String::new(), String::from("b")]);
    assert_eq!(split_lines("\n"), vec![String::new()]);
}

#[test]
fn split_tokens_collapses_whitespace_runs() {
    assert!(split_tokens("").is_empty());
    assert!(split_tokens(" \t ").is_empty());
    assert_eq!(
        split_tokens("  cat/a \t 30\n"),
        vec![String::from("cat/a"), String::from("30")]
    );
}

#[test]
fn report_sorts_ascending_by_duration() {
    let records = vec![record("slowest", 1200), record("quick", 3), record("middle", 70)];
    let sorted = sort_records(records);
    let names: Vec<&str> = sorted.iter().map(|r| r.pkg.as_str()).collect();
    assert_eq!(names, vec!["quick", "middle", "slowest"]);
}

#[test]
fn sorting_keeps_equal_durations_in_input_order() {
    let records = vec![
        record("x", 5),
        record("y", 5),
        record("z", 0),
        record("w", 5),
    ];
    let sorted = sort_records(records);
    let names: Vec<&str> = sorted.iter().map(|r| r.pkg.as_str()).collect();
    assert_eq!(names, vec!["z", "x", "y", "w"]);
}

#[test]
fn report_lines_carry_duration_and_files() {
    let rec = AuditRecord {
        pkg: String::from("cat/a"),
        files: vec![String::from("/usr/bin/a"), String::from("/usr/bin/b")],
        duration: 61,
    };
    let lines = render_report(&vec![rec], true, true);
    assert_eq!(
        lines,
        vec![
            String::from("cat/a: 1\u{2032}1\u{2033}"),
            String::from("/usr/bin/a"),
            String::from("/usr/bin/b"),
        ]
    );
}

#[test]
fn partition_is_stable_per_tier() {
    let records = vec![
        record("f2", 59),
        record("s1", 900),
        record("f1", 0),
        record("m1", 60),
        record("m2", 899),
    ];
    let (fast, medium, slow) = partition_tiers(&records);
    assert_eq!(fast, vec![String::from("f2"), String::from("f1")]);
    assert_eq!(medium, vec![String::from("m1"), String::from("m2")]);
    assert_eq!(slow, vec![String::from("s1")]);
}

#[test]
fn empty_tiers_still_render_their_command_lines() {
    let none: Vec<String> = Vec::new();
    let (f, m, s) = render_commands(&none, &none, &none);
    assert_eq!(f, "emerge -av1j16 -l20 --keep-going ");
    assert_eq!(m, "emerge -av1j2 -l20 --keep-going ");
    assert_eq!(s, "emerge -av1 --keep-going ");
}

#[test]
fn command_lines_join_packages_with_spaces() {
    let fast = vec![String::from("cat/a"), String::from("cat/b")];
    let none: Vec<String> = Vec::new();
    let (f, _, _) = render_commands(&fast, &none, &none);
    assert_eq!(f, "emerge -av1j16 -l20 --keep-going cat/a cat/b");
}

#[test]
fn no_flags_prints_nothing() {
    let records = vec![record("cat/a", 30)];
    let lines = audit_output(records, false, false, false);
    assert!(lines.is_empty());
}

#[test]
fn end_to_end_time_only() {
    let pkgs = enumerate(true, Some(0), String::from("cat/a\ncat/b\n"), String::new()).unwrap();
    assert_eq!(pkgs, vec![String::from("cat/a"), String::from("cat/b")]);

    let a_entries = vec![
        entry("/usr/bin/a", &[0x7f, b'E', b'L', b'F', 2, 1]),
        entry("/usr/share/a.txt", b"just"),
    ];
    let b_entries = vec![entry("/usr/share/b.txt", b"text")];

    let mut records: Vec<AuditRecord> = Vec::new();
    if let Some(files) = classify_package(a_entries, false) {
        let duration =
            average_duration(true, String::from("cat/a 30 average"), String::new()).unwrap();
        records.push(AuditRecord { pkg: pkgs[0].clone(), files, duration });
    }
    if let Some(files) = classify_package(b_entries, false) {
        let duration =
            average_duration(true, String::from("cat/b 1200 average"), String::new()).unwrap();
        records.push(AuditRecord { pkg: pkgs[1].clone(), files, duration });
    }

    let lines = audit_output(records, true, false, false);
    assert_eq!(lines, vec![String::from("cat/a: 30s")]);
}

#[test]
fn end_to_end_rebuild_buckets_fast_tier() {
    let a_entries = vec![
        entry("/usr/bin/a", &[0x7f, b'E', b'L', b'F']),
        entry("/usr/share/a.txt", b"just"),
    ];
    let b_entries = vec![entry("/usr/share/b.txt", b"text")];

    let mut records: Vec<AuditRecord> = Vec::new();
    if let Some(files) = classify_package(a_entries, false) {
        records.push(AuditRecord { pkg: String::from("cat/a"), files, duration: 30 });
    }
    if let Some(files) = classify_package(b_entries, false) {
        records.push(AuditRecord { pkg: String::from("cat/b"), files, duration: 1200 });
    }

    let lines = audit_output(records, false, false, true);
    assert_eq!(
        lines,
        vec![
            String::from("cat/a: 30s"),
            String::from("emerge -av1j16 -l20 --keep-going cat/a"),
            String::from("emerge -av1j2 -l20 --keep-going "),
            String::from("emerge -av1 --keep-going "),
        ]
    );
}
