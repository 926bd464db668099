use grepr::{count_line, format_output, target_output, Args, CompiledPattern, Config};

fn args(pattern: &str, files: Vec<String>) -> Args {
    Args {
        pattern: pattern.to_string(),
        files,
        insensitive: false,
        recursive: false,
        count: false,
        invert_match: false,
    }
}

#[test]
fn invalid_pattern_is_rejected_before_any_resolution() {
    // An unbalanced parenthesis must fail at compile time, and the failure
    // carries the offending pattern.
    let e = match CompiledPattern::compile("*foo(", false) {
        Err(e) => e,
        Ok(_) => panic!("the pattern should not compile"),
    };
    assert_eq!(e.message(), "Invalid pattern \"*foo(\"");

    let e = match Config::from_args(args("*foo(", vec![])) {
        Err(e) => e,
        Ok(_) => panic!("the pattern should not compile"),
    };
    assert_eq!(e.message(), "Invalid pattern \"*foo(\"");
}

#[test]
fn valid_pattern_compiles_either_way() {
    assert!(CompiledPattern::compile("fo.*o", false).is_ok());
    assert!(CompiledPattern::compile("fo.*o", true).is_ok());
}

#[test]
fn from_args_defaults_files_to_stdin() {
    let c = Config::from_args(args("x", vec![])).unwrap();
    assert_eq!(c.files, vec!["-".to_string()]);
}

#[test]
fn from_args_keeps_files_and_flags() {
    let mut a = args("x", vec!["a.txt".to_string(), "b.txt".to_string()]);
    a.recursive = true;
    a.count = true;
    a.invert_match = true;
    let c = Config::from_args(a).unwrap();
    assert_eq!(c.files, vec!["a.txt".to_string(), "b.txt".to_string()]);
    assert!(c.recursive);
    assert!(c.count);
    assert!(c.invert_match);
}

#[test]
fn format_output_prefixes_only_for_multiple_targets() {
    assert_eq!(format_output("fox.txt", "The fox\n", 1), "The fox\n");
    assert_eq!(format_output("fox.txt", "The fox\n", 2), "fox.txt:The fox\n");
    assert_eq!(format_output("fox.txt", "3\n", 5), "fox.txt:3\n");
}

#[test]
fn target_output_lists_lines_or_one_count() {
    let matched = vec!["The fox\n".to_string(), "a fox.\n".to_string()];
    assert_eq!(
        target_output("fox.txt", &matched, false, 3),
        vec!["fox.txt:The fox\n", "fox.txt:a fox.\n"]
    );
    assert_eq!(target_output("fox.txt", &matched, false, 1), vec!["The fox\n", "a fox.\n"]);
    assert_eq!(target_output("fox.txt", &matched, true, 3), vec!["fox.txt:2\n"]);
    assert_eq!(target_output("fox.txt", &matched, true, 1), vec!["2\n"]);
    assert_eq!(target_output("fox.txt", &Vec::new(), false, 1), Vec::<String>::new());
}

#[test]
fn count_line_renders_decimal_with_newline() {
    assert_eq!(count_line(0), "0\n");
    assert_eq!(count_line(7), "7\n");
    assert_eq!(count_line(10), "10\n");
    assert_eq!(count_line(12345), "12345\n");
}
