use rurt::fuzzy::filter_names;
use rurt::git::{
    git_log_matches, letter_for, log_args, log_format, parse_log, Letter, LogData,
    LogEntry, StatusChange,
};

fn entry(subject: &str) -> LogEntry {
    LogEntry { subject: subject.to_string(), ..LogEntry::default() }
}

#[test]
fn changes_have_their_letters() {
    assert_eq!(letter_for(StatusChange::StagedAddition), Letter::SA);
    assert_eq!(letter_for(StatusChange::StagedDeletion), Letter::SD);
    assert_eq!(letter_for(StatusChange::StagedModification), Letter::SM);
    assert_eq!(letter_for(StatusChange::StagedRewrite), Letter::SR);
    assert_eq!(letter_for(StatusChange::Modification), Letter::UM);
    assert_eq!(letter_for(StatusChange::Rewrite), Letter::UR);
    assert_eq!(letter_for(StatusChange::DirectoryContents), Letter::UQ);
}

#[test]
fn log_is_asked_for_with_a_fixed_format() {
    assert_eq!(log_format(), "--format=%h%x00%ad%x00%D%x00%an%x00%s");
    assert_eq!(
        log_args(b"/repo/src/a.rs", 120),
        vec![
            b"log".to_vec(),
            b"--format=%h%x00%ad%x00%D%x00%an%x00%s".to_vec(),
            b"--date=relative".to_vec(),
            b"-n".to_vec(),
            b"120".to_vec(),
            b"/repo/src/a.rs".to_vec(),
        ]
    );
    assert_eq!(log_args(b"x", 0)[4], b"0".to_vec());
}

#[test]
fn log_lines_become_commits() {
    let out = b"abc123\x002 days ago\x00HEAD -> main\x00Ann\x00Fix the thing\n\
def456\x003 weeks ago\x00\x00Bob\x00Add the thing\n";
    let entries = parse_log(out);
    assert_eq!(entries.len(), 2);
    assert_eq!(entries[0].hash, "abc123");
    assert_eq!(entries[0].rel_date, "2 days ago");
    assert_eq!(entries[0].decorate, "HEAD -> main");
    assert_eq!(entries[0].author, "Ann");
    assert_eq!(entries[0].subject, "Fix the thing");
    assert_eq!(entries[1].hash, "def456");
    assert_eq!(entries[1].decorate, "");
    assert_eq!(entries[1].author, "Bob");
    assert_eq!(entries[1].subject, "Add the thing");
}

#[test]
fn empty_lines_and_missing_fields_are_tolerated() {
    assert!(parse_log(b"").is_empty());
    assert!(parse_log(b"\n\n").is_empty());
    let entries = parse_log(b"\nonly-hash\n\nh\x00d\n");
    assert_eq!(entries.len(), 2);
    assert_eq!(entries[0].hash, "only-hash");
    assert_eq!(entries[0].rel_date, "");
    assert_eq!(entries[0].subject, "");
    assert_eq!(entries[1].hash, "h");
    assert_eq!(entries[1].rel_date, "d");
    assert_eq!(entries[1].author, "");
}

#[test]
fn fields_beyond_the_fifth_are_not_read() {
    let entries = parse_log(b"h\x00d\x00r\x00a\x00s\x00more\x00still more");
    assert_eq!(entries.len(), 1);
    assert_eq!(entries[0].subject, "s");
}

#[test]
fn text_that_is_not_utf8_is_read_with_replacements() {
    let entries = parse_log(b"h\x00d\x00r\x00J\xf6rg\x00s");
    assert_eq!(entries[0].author, "J\u{fffd}rg");
}

/// The places of the texts that the pattern matches, as the matcher ranks
/// them.
fn ranked(texts: &[&str], needle: &str) -> Vec<usize> {
    let mut matcher = nucleo::Matcher::new(nucleo::Config::DEFAULT);
    let pattern = nucleo::pattern::Pattern::parse(
        needle,
        nucleo::pattern::CaseMatching::Smart,
        nucleo::pattern::Normalization::Smart,
    );
    let mut scored: Vec<(usize, u32)> = Vec::new();
    let mut buf = Vec::new();
    for (i, text) in texts.iter().enumerate() {
        if let Some(score) = pattern.score(nucleo::Utf32Str::new(text, &mut buf), &mut matcher) {
            scored.push((i, score));
        }
    }
    scored.sort_by(|a, b| b.1.cmp(&a.1));
    scored.into_iter().map(|(i, _)| i).collect()
}

#[test]
fn log_matches_rank_the_subjects() {
    let log = LogData {
        entries: vec![entry("add feature"), entry("fix bug in parser"), entry("bugfix"), entry("docs")],
    };
    assert_eq!(git_log_matches(&log, "", 10), vec![0, 1, 2, 3]);
    assert_eq!(git_log_matches(&log, "", 2), vec![0, 1]);
    let found = git_log_matches(&log, "bug", 10);
    assert_eq!(found.len(), 2);
    assert!(found.contains(&1));
    assert!(found.contains(&2));
    assert_eq!(found, ranked(&["add feature", "fix bug in parser", "bugfix", "docs"], "bug"));
    let exact = git_log_matches(&log, "docs", 10);
    assert_eq!(exact, vec![3]);
    assert_eq!(git_log_matches(&log, "bug", 2), vec![1]);
    assert!(git_log_matches(&log, "zzz", 10).is_empty());
    assert!(git_log_matches(&log, "bug", 0).is_empty());
    assert!(git_log_matches(&LogData::default(), "bug", 10).is_empty());
}

#[test]
fn names_are_filtered_by_what_is_typed() {
    let names: Vec<String> =
        ["cycle hidden", "cycle ignored", "toggle preview", "abort"].iter().map(|s| s.to_string()).collect();
    assert_eq!(filter_names(&names, ""), vec![0, 1, 2, 3]);
    let cycles = filter_names(&names, "cycle");
    assert_eq!(cycles.len(), 2);
    assert!(cycles.contains(&0) && cycles.contains(&1));
    assert_eq!(filter_names(&names, "abort"), vec![3]);
    assert_eq!(filter_names(&names, "preview"), vec![2]);
    assert!(filter_names(&names, "xyz").is_empty());
}
