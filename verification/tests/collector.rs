use invisible_char_detector::collector::{
    collect_candidates, open_pattern, Candidate, PathAction, ScanError, ScanTally,
};

fn candidate(path: &str, content: Option<&str>) -> Candidate {
    Candidate { path: path.to_string(), content: content.map(|c| c.to_string()) }
}

#[test]
fn one_clean_and_one_evil_file() {
    let files = vec![candidate("a.txt", Some("clean")), candidate("b.txt", Some("evil\u{202E}text"))];
    let tally = collect_candidates(&files, false);
    assert_eq!(tally.detections.len(), 1);
    assert_eq!(tally.detections[0].file, "b.txt");
    assert_eq!(tally.detections[0].name, "RIGHT-TO-LEFT OVERRIDE");
    assert_eq!(tally.detections[0].line, 1);
    assert_eq!(tally.detections[0].char_index, 5);
    assert_eq!(tally.detections[0].byte_offset, 5);
    assert_eq!(tally.scanned, 2);
    assert_eq!(tally.skipped, 0);
    assert!(!tally.matched_nothing());
    assert_eq!(invisible_char_detector::report::exit_code(false, tally.skipped, tally.detections.len()), 1);
}

#[test]
fn one_clean_and_one_evil_file_step_by_step() {
    let mut tally = ScanTally::new();
    assert_eq!(tally.consider("a.txt", false), PathAction::Read);
    tally.record("a.txt", Some("clean"));
    assert_eq!(tally.consider("b.txt", false), PathAction::Read);
    tally.record("b.txt", Some("evil\u{202E}text"));
    assert_eq!(tally.detections.len(), 1);
    assert_eq!(tally.detections[0].file, "b.txt");
    assert_eq!(tally.detections[0].name, "RIGHT-TO-LEFT OVERRIDE");
    assert_eq!((tally.scanned, tally.skipped), (2, 0));
}

#[test]
fn no_candidates_at_all() {
    let tally = collect_candidates(&Vec::new(), false);
    assert!(tally.detections.is_empty());
    assert_eq!(tally.scanned, 0);
    assert_eq!(tally.skipped, 0);
    assert!(tally.matched_nothing());
    assert_eq!(invisible_char_detector::report::exit_code(true, tally.skipped, tally.detections.len()), 0);

    let fresh = ScanTally::new();
    assert!(fresh.matched_nothing());
    assert!(fresh.detections.is_empty());
}

#[test]
fn an_excluded_path_is_skipped_and_not_scanned() {
    let mut tally = ScanTally::new();
    assert_eq!(tally.consider("node_modules/evil.js", true), PathAction::Skip);
    assert_eq!((tally.scanned, tally.skipped), (0, 1));
    assert!(!tally.matched_nothing());
    assert_eq!(tally.consider("dist/evil.js", false), PathAction::Skip);
    assert_eq!((tally.scanned, tally.skipped), (0, 2));
    assert_eq!(tally.consider("dist/evil.js", true), PathAction::Read);
    assert_eq!((tally.scanned, tally.skipped), (1, 2));
    assert!(tally.detections.is_empty());
}

#[test]
fn an_excluded_candidate_is_not_looked_at() {
    let files = vec![
        candidate("target/debug/x.txt", Some("\u{200B}")),
        candidate("dist/y.txt", Some("\u{200B}")),
        candidate("src/z.txt", Some("\u{200B}")),
    ];
    let strict = collect_candidates(&files, false);
    assert_eq!((strict.scanned, strict.skipped), (1, 2));
    assert_eq!(strict.detections.len(), 1);
    assert_eq!(strict.detections[0].file, "src/z.txt");

    let bundles = collect_candidates(&files, true);
    assert_eq!((bundles.scanned, bundles.skipped), (2, 1));
    assert_eq!(bundles.detections.len(), 2);
    assert_eq!(bundles.detections[0].file, "dist/y.txt");
    assert_eq!(bundles.detections[1].file, "src/z.txt");
}

#[test]
fn an_unreadable_file_counts_as_scanned_and_skipped() {
    let files = vec![candidate("binary.bin", None), candidate("ok.txt", Some("fine"))];
    let tally = collect_candidates(&files, false);
    assert_eq!((tally.scanned, tally.skipped), (2, 1));
    assert!(tally.detections.is_empty());
    assert!(!tally.matched_nothing());

    let mut steps = ScanTally::new();
    assert_eq!(steps.consider("binary.bin", false), PathAction::Read);
    steps.record("binary.bin", None);
    assert_eq!((steps.scanned, steps.skipped), (1, 1));
}

#[test]
fn detections_are_kept_in_the_order_of_discovery() {
    let files = vec![
        candidate("z.txt", Some("\u{200B}\n\u{200C}")),
        candidate("a.txt", Some("x\u{200D}")),
    ];
    let tally = collect_candidates(&files, false);
    let seen: Vec<(&str, usize, u32)> =
        tally.detections.iter().map(|d| (d.file.as_str(), d.line, d.code)).collect();
    assert_eq!(seen, vec![("z.txt", 1, 0x200B), ("z.txt", 2, 0x200C), ("a.txt", 1, 0x200D)]);
}

#[test]
fn a_pattern_with_three_stars_is_refused() {
    match open_pattern("***") {
        Err(ScanError::InvalidPattern(detail)) => {
            assert_eq!(
                detail,
                "Pattern syntax error near position 2: wildcards are either regular `*` or recursive `**`"
            );
        }
        other => panic!("expected an invalid pattern, got {:?}", other.map(|_| ())),
    }
}

#[test]
fn an_unclosed_bracket_is_refused() {
    let error = open_pattern("src/[abc").err().expect("invalid pattern");
    assert!(matches!(error, ScanError::InvalidPattern(_)));
    assert_eq!(
        error.message(),
        "Error scanning files: Invalid glob pattern: Pattern syntax error near position 4: invalid range pattern"
    );
}

#[test]
fn a_good_pattern_is_accepted() {
    assert!(open_pattern("**/*.rs").is_ok());
    assert!(open_pattern("src/*.txt").is_ok());
    assert!(open_pattern("plain-name").is_ok());
}

#[test]
fn a_pattern_that_matches_nothing_yields_no_path() {
    let mut paths = open_pattern("no-such-directory-anywhere/*.nothing").expect("valid pattern");
    assert!(paths.next().is_none());
}

#[test]
fn error_messages() {
    assert_eq!(
        ScanError::InvalidPattern("bad".to_string()).message(),
        "Error scanning files: Invalid glob pattern: bad"
    );
    assert_eq!(
        ScanError::Serialization("worse".to_string()).message(),
        "Error serializing to JSON: worse"
    );
}
