use grepr::{find_files, FsLookup, ResolveError, ResolvedEntry};
use rand::distributions::Alphanumeric;
use rand::Rng;

fn inputs_dir_files() -> Vec<String> {
    vec![
        "./tests/inputs/bustle.txt".to_string(),
        "./tests/inputs/empty.txt".to_string(),
        "./tests/inputs/fox.txt".to_string(),
        "./tests/inputs/nobody.txt".to_string(),
    ]
}

#[test]
fn test_find_files() {
    // A file known to exist resolves to itself.
    let files = find_files(
        &vec!["./tests/inputs/fox.txt".to_string()],
        false,
        &vec![FsLookup::RegularFile],
    );
    assert_eq!(files.len(), 1);
    match &files[0] {
        ResolvedEntry::Target(path) => assert_eq!(path, "./tests/inputs/fox.txt"),
        ResolvedEntry::Failure(_) => panic!("expected a file target"),
    }

    // Without recursion, a directory is rejected.
    let files = find_files(
        &vec!["./tests/inputs".to_string()],
        false,
        &vec![FsLookup::Directory { files: inputs_dir_files() }],
    );
    assert_eq!(files.len(), 1);
    if let ResolvedEntry::Failure(e) = &files[0] {
        assert_eq!(e.message(), "./tests/inputs is a directory");
    }

    // With recursion, the four files inside the directory are found.
    let res = find_files(
        &vec!["./tests/inputs".to_string()],
        true,
        &vec![FsLookup::Directory { files: inputs_dir_files() }],
    );
    let mut files: Vec<String> = res
        .iter()
        .map(|r| match r {
            ResolvedEntry::Target(path) => path.replace('\\', "/"),
            ResolvedEntry::Failure(_) => panic!("expected only file targets"),
        })
        .collect();
    files.sort();
    assert_eq!(files.len(), 4);
    assert_eq!(
        files,
        vec![
            "./tests/inputs/bustle.txt",
            "./tests/inputs/empty.txt",
            "./tests/inputs/fox.txt",
            "./tests/inputs/nobody.txt",
        ]
    );

    // A random string stands for a path that does not exist.
    let bad: String = rand::thread_rng()
        .sample_iter(&Alphanumeric)
        .take(7)
        .map(char::from)
        .collect();

    // The bad file comes back as an error.
    let files = find_files(
        &vec![bad],
        false,
        &vec![FsLookup::LookupFailed {
            cause: "No such file or directory (os error 2)".to_string(),
        }],
    );
    assert_eq!(files.len(), 1);
    assert!(matches!(files[0], ResolvedEntry::Failure(_)));
}

#[test]
fn missing_path_message_carries_path_and_cause() {
    let files = find_files(
        &vec!["blargh".to_string()],
        false,
        &vec![FsLookup::LookupFailed {
            cause: "No such file or directory (os error 2)".to_string(),
        }],
    );
    assert_eq!(files.len(), 1);
    match &files[0] {
        ResolvedEntry::Failure(e) => {
            assert_eq!(e.message(), "blargh: No such file or directory (os error 2)");
        }
        ResolvedEntry::Target(_) => panic!("expected an error entry"),
    }
}

#[test]
fn stdin_sentinel_passes_through() {
    // The dash never consults its lookup; it is resolved later by the opener.
    let files = find_files(
        &vec!["-".to_string()],
        false,
        &vec![FsLookup::LookupFailed { cause: "ignored".to_string() }],
    );
    assert_eq!(files.len(), 1);
    match &files[0] {
        ResolvedEntry::Target(path) => assert_eq!(path, "-"),
        ResolvedEntry::Failure(_) => panic!("expected the sentinel as a target"),
    }
}

#[test]
fn other_file_kinds_yield_no_entry() {
    let files = find_files(&vec!["/dev/null".to_string()], false, &vec![FsLookup::Other]);
    assert_eq!(files.len(), 0);
}

#[test]
fn empty_directory_yields_no_entries_recursively() {
    let files = find_files(
        &vec!["./empty".to_string()],
        true,
        &vec![FsLookup::Directory { files: Vec::new() }],
    );
    assert_eq!(files.len(), 0);
}

#[test]
fn entries_keep_input_order() {
    let paths = vec![
        "a.txt".to_string(),
        "missing".to_string(),
        "dir".to_string(),
        "-".to_string(),
    ];
    let lookups = vec![
        FsLookup::RegularFile,
        FsLookup::LookupFailed { cause: "gone".to_string() },
        FsLookup::Directory { files: vec!["dir/x.txt".to_string(), "dir/y.txt".to_string()] },
        FsLookup::Other,
    ];
    let entries = find_files(&paths, true, &lookups);
    assert_eq!(entries.len(), 5);
    assert!(matches!(&entries[0], ResolvedEntry::Target(p) if p == "a.txt"));
    assert!(
        matches!(&entries[1], ResolvedEntry::Failure(ResolveError::NotFound { path, cause })
            if path == "missing" && cause == "gone")
    );
    assert!(matches!(&entries[2], ResolvedEntry::Target(p) if p == "dir/x.txt"));
    assert!(matches!(&entries[3], ResolvedEntry::Target(p) if p == "dir/y.txt"));
    assert!(matches!(&entries[4], ResolvedEntry::Target(p) if p == "-"));
}
