use grepr::{find_lines, split_lines, CompiledPattern};

#[test]
fn test_find_lines() {
    let text = "Lorem\nIpsum\r\nDOLOR";

    // The pattern "or" should match the one line "Lorem".
    let re1 = CompiledPattern::compile("or", false).unwrap();
    let matches = find_lines(text, &re1, false);
    assert_eq!(matches.len(), 1);

    // When inverted, the match should be the remaining two lines.
    let matches = find_lines(text, &re1, true);
    assert_eq!(matches.len(), 2);

    // A case-insensitive pattern.
    let re2 = CompiledPattern::compile("or", true).unwrap();

    // The two lines "Lorem" and "DOLOR" should match.
    let matches = find_lines(text, &re2, false);
    assert_eq!(matches.len(), 2);

    // When inverted, the one remaining line should match.
    let matches = find_lines(text, &re2, true);
    assert_eq!(matches.len(), 1);
}

#[test]
fn find_lines_exact_content() {
    let text = "Lorem\nIpsum\r\nDOLOR";

    let sensitive = CompiledPattern::compile("or", false).unwrap();
    assert_eq!(find_lines(text, &sensitive, false), vec!["Lorem\n"]);
    assert_eq!(find_lines(text, &sensitive, true), vec!["Ipsum\r\n", "DOLOR"]);

    let insensitive = CompiledPattern::compile("or", true).unwrap();
    assert_eq!(find_lines(text, &insensitive, false), vec!["Lorem\n", "DOLOR"]);
    assert_eq!(find_lines(text, &insensitive, true), vec!["Ipsum\r\n"]);
}

#[test]
fn find_lines_partitions_the_text() {
    // The two polarities are disjoint and together give every line.
    let text = "one\ntwo\nthree\nfour\r\nfive";
    let re = CompiledPattern::compile("[to]", false).unwrap();

    let kept = find_lines(text, &re, false);
    let dropped = find_lines(text, &re, true);
    let all = split_lines(text);

    assert_eq!(kept.len() + dropped.len(), all.len());
    for line in &kept {
        assert!(!dropped.contains(line));
    }
    let mut union: Vec<String> = kept.clone();
    union.extend(dropped.clone());
    union.sort();
    let mut sorted_all = all.clone();
    sorted_all.sort();
    assert_eq!(union, sorted_all);
}

#[test]
fn find_lines_empty_text() {
    let re = CompiledPattern::compile("or", false).unwrap();
    assert_eq!(find_lines("", &re, false).len(), 0);
    assert_eq!(find_lines("", &re, true).len(), 0);
}

#[test]
fn find_lines_empty_pattern_matches_everything() {
    let re = CompiledPattern::compile("", false).unwrap();
    assert_eq!(find_lines("a\nb\n", &re, false), vec!["a\n", "b\n"]);
    assert_eq!(find_lines("a\nb\n", &re, true).len(), 0);
}

#[test]
fn split_lines_keeps_terminators() {
    assert_eq!(split_lines(""), Vec::<String>::new());
    assert_eq!(split_lines("a"), vec!["a"]);
    assert_eq!(split_lines("a\n"), vec!["a\n"]);
    assert_eq!(split_lines("a\nb"), vec!["a\n", "b"]);
    assert_eq!(split_lines("a\r\nb\n"), vec!["a\r\n", "b\n"]);
    assert_eq!(split_lines("\n\n"), vec!["\n", "\n"]);
}
