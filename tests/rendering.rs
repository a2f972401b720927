use profile_report::activity::{activity_row, format_activity, strip_event_suffix, ActivityEvent, Stamp};
use profile_report::badge::render_badge;
use profile_report::bar::{fill_count, render_bar, round_div};
use profile_report::languages::{aggregate, LanguageShare};
use profile_report::report::{render_report, ReportInput};
use profile_report::stats::{format_stats, StatsSummary};

fn bar(filled: usize, transition: bool, empty: usize) -> String {
    format!(
        "[{}{}{}]",
        "█".repeat(filled),
        if transition { "▓" } else { "" },
        "░".repeat(empty)
    )
}

fn repo(entries: &[(&str, u64)]) -> Vec<(String, u64)> {
    entries.iter().map(|(n, b)| (n.to_string(), *b)).collect()
}

fn stamp(year: i32, month: u32, day: u32, hour: u32, minute: u32, second: u32) -> Stamp {
    Stamp { year, month, day, hour, minute, second }
}

fn share(name: &str, bytes: u64, total: u64) -> LanguageShare {
    LanguageShare { name: name.to_string(), bytes, total }
}

fn input_with(languages: Vec<LanguageShare>, art_lines: usize) -> ReportInput {
    ReportInput {
        figure: vec!["".to_string(), "ab".to_string(), "abcdef".to_string()],
        small_art: (0..art_lines).map(|i| format!("art{}", i)).collect(),
        followers: 7,
        stars: 42,
        languages,
        stats: StatsSummary { commits: 1, prs: 2, issues: 3, stars: 42, repos_owned: 5, contributed_to: 6 },
        activities: vec![],
    }
}

#[test]
fn bar_half_filled() {
    assert_eq!(render_bar(50, 100, 20), bar(10, true, 9));
}

#[test]
fn bar_full_has_no_transition_cell() {
    assert_eq!(render_bar(1, 1, 5), bar(5, false, 0));
}

#[test]
fn bar_empty_starts_with_transition_cell() {
    assert_eq!(render_bar(0, 1, 4), bar(0, true, 3));
}

#[test]
fn bar_clamps_share_above_whole() {
    assert_eq!(render_bar(300, 100, 6), bar(6, false, 0));
}

#[test]
fn bar_rounds_half_up() {
    // 1/8 of 20 cells is 2.5 cells
    assert_eq!(fill_count(1, 8, 20), 3);
    // 1/3 of 20 cells is 6.67 cells
    assert_eq!(fill_count(1, 3, 20), 7);
    assert_eq!(round_div(5, 2), 3);
    assert_eq!(round_div(7, 3), 2);
}

#[test]
fn bar_length_and_filled_count_for_every_percent() {
    for width in 1..=30usize {
        for percent in 0..=100u64 {
            let b = render_bar(percent, 100, width);
            assert_eq!(b.chars().count(), width + 2);
            let filled = b.chars().filter(|c| *c == '█').count();
            let expected = ((percent as f64 / 100.0) * width as f64).round() as usize;
            let exact_half = (percent as usize * width * 2) % 100 == 0 && (percent as usize * width) % 100 != 0;
            if !exact_half {
                assert_eq!(filled, expected.min(width));
            }
        }
    }
}

#[test]
fn badge_stars_scenario() {
    let b = render_badge("Stars", "42", 20);
    let lines: Vec<&str> = b.lines().collect();
    assert_eq!(lines.len(), 3);
    assert_eq!(lines[0].chars().count(), lines[2].chars().count());
    assert!(lines[1].contains("Stars"));
    assert!(lines[1].contains("42"));
    let expected = format!(
        "╭{0}╮\n│ Stars│ 42{1} │\n╰{0}╯",
        "─".repeat(20),
        " ".repeat(9)
    );
    assert_eq!(b, expected);
}

#[test]
fn badge_widens_for_long_content() {
    let b = render_badge("Followers", "123456789012345", 10);
    let lines: Vec<&str> = b.lines().collect();
    assert_eq!(lines[0], format!("╭{}╮", "─".repeat(28)));
    assert_eq!(lines[1], "│ Followers│ 123456789012345 │");
    assert_eq!(lines[1].chars().count(), 30);
}

#[test]
fn aggregate_sums_per_language_and_ranks() {
    let repos = vec![
        repo(&[("Rust", 300), ("Go", 100)]),
        repo(&[("Rust", 100), ("C", 400)]),
    ];
    let r = aggregate(&repos);
    let got: Vec<(String, u64, u64)> = r.into_iter().map(|s| (s.name, s.bytes, s.total)).collect();
    assert_eq!(
        got,
        vec![
            ("Rust".to_string(), 400, 900),
            ("C".to_string(), 400, 900),
            ("Go".to_string(), 100, 900),
        ]
    );
}

#[test]
fn aggregate_zero_bytes_is_empty() {
    assert!(aggregate(&vec![]).is_empty());
    assert!(aggregate(&vec![repo(&[])]).is_empty());
    assert!(aggregate(&vec![repo(&[("Rust", 0)]), repo(&[("Go", 0)])]).is_empty());
}

#[test]
fn aggregate_keeps_top_ten_in_order() {
    let names: Vec<String> = (0..12).map(|i| format!("L{}", i)).collect();
    let entries: Vec<(String, u64)> = names.iter().enumerate().map(|(i, n)| (n.clone(), (i as u64 + 1) * 10)).collect();
    let r = aggregate(&vec![entries]);
    assert_eq!(r.len(), 10);
    let total: u64 = (1..=12).map(|i| i * 10).sum();
    for w in r.windows(2) {
        assert!(w[0].bytes >= w[1].bytes);
    }
    assert_eq!(r[0].name, "L11");
    assert_eq!(r[9].name, "L2");
    let kept: u64 = r.iter().map(|s| s.bytes).sum();
    assert!(kept <= total);
    assert!(r.iter().all(|s| s.total == total));
}

#[test]
fn aggregate_shares_add_up_to_whole_with_few_languages() {
    let r = aggregate(&vec![repo(&[("A", 1), ("B", 2)]), repo(&[("C", 3), ("A", 4)])]);
    let sum: u64 = r.iter().map(|s| s.bytes).sum();
    assert_eq!(sum, 10);
    let percents: f64 = r.iter().map(|s| s.bytes as f64 / s.total as f64 * 100.0).sum();
    assert!((percents - 100.0).abs() < 1e-9);
}

#[test]
fn stats_table_exact() {
    let s = StatsSummary { commits: 1234, prs: 5, issues: 67, stars: 89, repos_owned: 10, contributed_to: 11 };
    let rule = "+-------------+------------------------+----------------+--------------------------------------+";
    let expected = format!(
        "{rule}\n|   Metric    |         Value          |     Metric     |                Value                 |\n{rule}\n|   Commits   | {:>22} | Issues opened  | {:>36} |\n| PRs opened  | {:>22} | Stars received | {:>36} |\n| Repos owned | {:>22} | Contributed to | {:>36} |\n{rule}",
        1234, 67, 5, 89, 10, 11
    );
    assert_eq!(format_stats(&s), expected);
}

#[test]
fn activity_push_event_scenario() {
    assert_eq!(
        format_activity("PushEvent", "a/b", "2024-01-02T03:04:05Z"),
        "Push             | a/b             | 2024-01-02 03:04"
    );
}

#[test]
fn activity_keeps_offset_of_timestamp() {
    assert_eq!(
        format_activity("IssueCommentEvent", "owner/repository-name", "2023-12-31T23:59:00+05:30"),
        "IssueComment     | owner/repository-name | 2023-12-31 23:59"
    );
}

#[test]
fn activity_unparseable_timestamp_falls_back() {
    let row = format_activity("WatchEvent", "x/y", "not a time");
    assert!(row.starts_with("Watch            | x/y             | "));
    assert_eq!(row.chars().count(), 16 + 3 + 15 + 3 + 16);
}

#[test]
fn strip_event_only_at_end() {
    assert_eq!(strip_event_suffix("PushEvent"), "Push");
    assert_eq!(strip_event_suffix("Event"), "");
    assert_eq!(strip_event_suffix("EventStream"), "EventStream");
    assert_eq!(strip_event_suffix("Push"), "Push");
}

#[test]
fn activity_row_pads_date_fields() {
    let e = ActivityEvent { kind: "Create".to_string(), repo_name: "r".to_string(), timestamp: stamp(987, 3, 4, 5, 6, 7) };
    assert_eq!(activity_row(&e), "Create           | r               | 0987-03-04 05:06");
}

#[test]
fn report_is_identical_for_same_input_and_time() {
    let input = input_with(vec![share("Rust", 2, 3), share("Go", 1, 3)], 2);
    let t = stamp(2024, 5, 6, 7, 8, 9);
    assert_eq!(render_report(&input, &t), render_report(&input, &t));
}

#[test]
fn report_differs_only_in_updated_line() {
    let input = input_with(vec![share("Rust", 2, 3)], 1);
    let a = render_report(&input, &stamp(2024, 5, 6, 7, 8, 9));
    let b = render_report(&input, &stamp(2025, 1, 2, 3, 4, 5));
    let la: Vec<&str> = a.lines().collect();
    let lb: Vec<&str> = b.lines().collect();
    assert_eq!(la.len(), lb.len());
    let differing: Vec<usize> = (0..la.len()).filter(|i| la[*i] != lb[*i]).collect();
    assert_eq!(differing.len(), 1);
    assert_eq!(la[differing[0]], "Last updated: 2024-05-06 07:08:09");
}

#[test]
fn report_art_on_last_rows_of_twelve_languages() {
    let langs: Vec<LanguageShare> = (0..12).map(|i| share(&format!("L{}", i), 1, 12)).collect();
    let input = input_with(langs, 9);
    let out = render_report(&input, &stamp(2024, 1, 1, 0, 0, 0));
    let rows: Vec<&str> = out.lines().filter(|l| l.starts_with('L') && !l.starts_with("Last")).collect();
    assert_eq!(rows.len(), 12);
    let line = format!("{:<12} {} {}%", "L0", render_bar(1, 12, 20), "8.3");
    assert_eq!(rows[0], line);
    for (i, row) in rows.iter().enumerate() {
        if i < 3 {
            assert!(!row.contains("art"));
        } else {
            let lang = format!("{:<12} {} 8.3%", format!("L{}", i), render_bar(1, 12, 20));
            assert_eq!(*row, format!("{:<38} {:>50}", lang, format!("art{}", i - 3)));
        }
    }
}

#[test]
fn report_art_on_every_row_when_few_languages() {
    let input = input_with(vec![share("Rust", 1, 2), share("Go", 1, 2)], 4);
    let out = render_report(&input, &stamp(2024, 1, 1, 0, 0, 0));
    let rows: Vec<&str> = out.lines().filter(|l| l.starts_with("Rust") || l.starts_with("Go")).collect();
    assert_eq!(rows.len(), 2);
    assert!(rows[0].ends_with(&format!("{:>50}", "art2")));
    assert!(rows[1].ends_with(&format!("{:>50}", "art3")));
}

#[test]
fn report_warning_block_layout() {
    let input = input_with(vec![], 0);
    let out = render_report(&input, &stamp(2024, 1, 1, 0, 0, 0));
    let lines: Vec<&str> = out.lines().collect();
    // widest figure line has 6 bytes: the figure column is 6 / 2 + 2 = 5
    assert_eq!(lines[0], "> [!WARNING]");
    assert_eq!(lines[1], format!("> ```> {:<5} ", ""));
    assert_eq!(lines[2], format!("> {:<5} ", "ab"));
    assert_eq!(lines[3], format!("> {:<5} ", "abcdef"));
    assert_eq!(lines[5], format!("> {:<5} {}", "", format!("╭{}╮", "─".repeat(20))));
    assert_eq!(lines[6], format!("> {:<5} │ Followers│ 7{} │", "", " ".repeat(6)));
    assert_eq!(lines[8], format!("> {:<5} ", ""));
    assert_eq!(lines[10], format!("> {:<5} │ Stars│ 42{} │", "", " ".repeat(9)));
    assert_eq!(lines[12], "> ```");
    assert!(out.contains("#### 📊 Stats\n```\n+---"));
    assert!(out.contains("```css\n```\n\n"));
    assert!(out.ends_with("@vxfemboy</a></p>"));
}

#[test]
fn report_activity_log_shows_five_events() {
    let mut input = input_with(vec![], 0);
    input.activities = (0..7)
        .map(|i| ActivityEvent { kind: format!("K{}", i), repo_name: "o/r".to_string(), timestamp: stamp(2024, 1, 2, 3, 4, 5) })
        .collect();
    let out = render_report(&input, &stamp(2024, 1, 1, 0, 0, 0));
    let rule = "-".repeat(60);
    let start = out.find(&rule).unwrap();
    let section = &out[start..];
    let lines: Vec<&str> = section.lines().collect();
    assert_eq!(lines[0], rule);
    assert_eq!(lines[1], "K0               | o/r             | 2024-01-02 03:04");
    assert_eq!(lines[5], "K4               | o/r             | 2024-01-02 03:04");
    assert_eq!(lines[6], rule);
    assert_eq!(lines[7], "");
    assert_eq!(lines[8], "Last updated: 2024-01-01 00:00:00");
}
