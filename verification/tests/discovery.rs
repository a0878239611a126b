use dir_picker::dirs::{get_dirs, scan, DirItem, GetDirsError};
use dir_picker::records::{assemble, collect, record, Candidate, RootScan};
use dir_picker::patterns::{Expansion, Found};
use dir_picker::settings::Settings;

fn settings_for(search_dirs: &[&str], preview_files: &[&str]) -> Settings {
    let mut settings = Settings::new(false, false);
    settings.search_dirs = search_dirs.iter().map(|s| s.to_string()).collect();
    settings.preview_files = preview_files.iter().map(|s| s.to_string()).collect();
    settings
}

fn directory(path: &str, previews: Vec<Expansion>) -> Candidate {
    Candidate::Directory { path: path.to_string(), previews }
}

fn file(path: &str) -> Candidate {
    Candidate::Other { path: path.to_string() }
}

fn listing(pattern: &str, paths: &[&str]) -> Expansion {
    Expansion::Listed {
        pattern: pattern.to_string(),
        steps: paths.iter().map(|p| Found::Path(p.to_string())).collect(),
    }
}

fn root(pattern: &str, candidates: Vec<Candidate>) -> RootScan {
    RootScan::Listed { pattern: pattern.to_string(), candidates }
}

fn item(path: &str, display: &str, readme: Option<&str>) -> DirItem {
    DirItem { path: path.to_string(), display: display.to_string(), readme: readme.map(|r| r.to_string()) }
}

#[test]
fn directories_are_listed_with_their_previews_and_files_are_left_out() {
    let scans = vec![root(
        "/tmp/proj/*",
        vec![
            directory("/tmp/proj/alpha", vec![listing("/tmp/proj/alpha/README.*", &[])]),
            directory(
                "/tmp/proj/beta",
                vec![listing("/tmp/proj/beta/README.*", &["/tmp/proj/beta/README.md"])],
            ),
            file("/tmp/proj/gamma"),
        ],
    )];
    assert_eq!(
        assemble(&scans),
        Ok(vec![
            item("/tmp/proj/alpha", "alpha", None),
            item("/tmp/proj/beta", "beta", Some("/tmp/proj/beta/README.md")),
        ])
    );
}

#[test]
fn a_rejected_root_fails_the_discovery_and_leaves_no_record() {
    let scans = vec![
        root("/tmp/a/*", vec![directory("/tmp/a/proj", vec![])]),
        RootScan::Rejected { pattern: "[".to_string(), position: 0, reason: "invalid range pattern".to_string() },
    ];
    assert_eq!(
        assemble(&scans),
        Err(GetDirsError::GlobError {
            pattern: "[".to_string(),
            position: 0,
            reason: "invalid range pattern".to_string()
        })
    );
}

#[test]
fn directories_of_one_name_stay_in_the_order_of_their_roots() {
    let scans = vec![
        root("/tmp/a/*", vec![directory("/tmp/a/proj", vec![])]),
        root("/tmp/b/*", vec![directory("/tmp/b/proj", vec![])]),
    ];
    assert_eq!(
        assemble(&scans),
        Ok(vec![item("/tmp/a/proj", "proj", None), item("/tmp/b/proj", "proj", None)])
    );
    let swapped = vec![
        root("/tmp/b/*", vec![directory("/tmp/b/proj", vec![])]),
        root("/tmp/a/*", vec![directory("/tmp/a/proj", vec![])]),
    ];
    assert_eq!(
        assemble(&swapped),
        Ok(vec![item("/tmp/b/proj", "proj", None), item("/tmp/a/proj", "proj", None)])
    );
}

#[test]
fn records_are_sorted_by_display_name_and_not_by_path() {
    let scans = vec![
        root("/a/*", vec![directory("/a/zeta", vec![]), directory("/a/mid", vec![])]),
        root("/b/*", vec![directory("/b/alpha", vec![]), directory("/b/mid", vec![]), directory("/b/Zeta", vec![])]),
    ];
    assert_eq!(
        assemble(&scans),
        Ok(vec![
            item("/b/Zeta", "Zeta", None),
            item("/b/alpha", "alpha", None),
            item("/a/mid", "mid", None),
            item("/b/mid", "mid", None),
            item("/a/zeta", "zeta", None),
        ])
    );
}

#[test]
fn collect_keeps_the_order_of_discovery() {
    let scans = vec![
        root("/a/*", vec![directory("/a/zeta", vec![]), file("/a/notes"), directory("/a/mid", vec![])]),
        root("/none/*", vec![]),
        root("/b/*", vec![directory("/b/alpha", vec![])]),
    ];
    assert_eq!(
        collect(&scans),
        Ok(vec![item("/a/zeta", "zeta", None), item("/a/mid", "mid", None), item("/b/alpha", "alpha", None)])
    );
}

#[test]
fn overlapping_roots_give_a_directory_twice() {
    let scans = vec![
        root("/a/*", vec![directory("/a/one", vec![]), directory("/a/two", vec![])]),
        root("/a/o*", vec![directory("/a/one", vec![])]),
    ];
    let found = assemble(&scans).unwrap();
    assert_eq!(found.len(), 3);
    assert_eq!(found, vec![item("/a/one", "one", None), item("/a/one", "one", None), item("/a/two", "two", None)]);
}

#[test]
fn no_roots_no_records() {
    assert_eq!(assemble(&vec![]), Ok(vec![]));
    assert_eq!(get_dirs(&settings_for(&[], &["README.*"]), None), Ok(vec![]));
}

#[test]
fn the_first_failure_is_the_one_reported() {
    let scans = vec![root(
        "/a/*",
        vec![
            directory("/a/one", vec![]),
            Candidate::Failed { path: "/a/locked".to_string(), reason: "permission denied".to_string() },
            Candidate::Garbled { path: "/a/\u{fffd}".to_string() },
        ],
    )];
    assert_eq!(
        assemble(&scans),
        Err(GetDirsError::IoError { path: "/a/locked".to_string(), reason: "permission denied".to_string() })
    );
}

#[test]
fn a_path_that_is_not_unicode_fails_the_discovery() {
    let scans = vec![root("/a/*", vec![Candidate::Garbled { path: "/a/\u{fffd}".to_string() }])];
    assert_eq!(assemble(&scans), Err(GetDirsError::PathError { path: "/a/\u{fffd}".to_string() }));
}

#[test]
fn a_directory_without_a_final_segment_fails_the_discovery() {
    assert_eq!(record(&directory("/", vec![])), Err(GetDirsError::PathError { path: "/".to_string() }));
    assert_eq!(record(&directory("/a/..", vec![])), Err(GetDirsError::PathError { path: "/a/..".to_string() }));
}

#[test]
fn a_failed_preview_lookup_fails_the_discovery() {
    let unreadable = Expansion::Listed {
        pattern: "/a/one/README.*".to_string(),
        steps: vec![Found::Failed { path: "/a/one".to_string(), reason: "permission denied".to_string() }],
    };
    let scans = vec![root("/a/*", vec![directory("/a/one", vec![unreadable])])];
    assert_eq!(
        assemble(&scans),
        Err(GetDirsError::IoError { path: "/a/one".to_string(), reason: "permission denied".to_string() })
    );
    let rejected = Expansion::Rejected { pattern: "/a/one/[".to_string(), position: 7, reason: "invalid range pattern".to_string() };
    let scans = vec![root("/a/*", vec![directory("/a/one", vec![rejected])])];
    assert_eq!(
        assemble(&scans),
        Err(GetDirsError::GlobError { pattern: "/a/one/[".to_string(), position: 7, reason: "invalid range pattern".to_string() })
    );
}

#[test]
fn a_record_holds_path_name_and_preview() {
    assert_eq!(
        record(&directory(
            "/tmp/proj/beta",
            vec![
                listing("/tmp/proj/beta/index.*", &[]),
                listing("/tmp/proj/beta/README.*", &["/tmp/proj/beta/README.md"]),
            ],
        )),
        Ok(Some(item("/tmp/proj/beta", "beta", Some("/tmp/proj/beta/README.md"))))
    );
    assert_eq!(record(&file("/tmp/proj/gamma")), Ok(None));
}

#[test]
fn a_malformed_search_root_fails_the_discovery() {
    let settings = settings_for(&["["], &["README.*"]);
    assert_eq!(
        get_dirs(&settings, None),
        Err(GetDirsError::GlobError { pattern: "[".to_string(), position: 0, reason: "invalid range pattern".to_string() })
    );
    let settings = settings_for(&["/usr/a**"], &["README.*"]);
    match get_dirs(&settings, None) {
        Err(GetDirsError::GlobError { pattern, position, .. }) => {
            assert_eq!(pattern, "/usr/a**");
            assert_eq!(position, 5);
        }
        other => panic!("{:?}", other),
    }
}

#[test]
fn a_malformed_preview_pattern_fails_the_discovery() {
    let settings = settings_for(&["/us?"], &["READ[ME"]);
    assert_eq!(
        get_dirs(&settings, None),
        Err(GetDirsError::GlobError { pattern: "/usr/READ[ME".to_string(), position: 9, reason: "invalid range pattern".to_string() })
    );
}

#[test]
fn discovery_reads_the_filesystem() {
    assert!(std::path::Path::new("/usr").is_dir() && std::path::Path::new("/etc/passwd").is_file());
    let settings = settings_for(&["/us?", "/et?"], &["no-such-file-*", "passw?"]);
    assert_eq!(
        get_dirs(&settings, None),
        Ok(vec![item("/etc", "etc", Some("/etc/passwd")), item("/usr", "usr", None)])
    );
}

#[test]
fn a_match_that_is_a_file_is_no_record() {
    assert_eq!(get_dirs(&settings_for(&["/etc/passw?"], &[]), None), Ok(vec![]));
    assert_eq!(get_dirs(&settings_for(&["/dev/nul?"], &["*"]), None), Ok(vec![]));
    assert_eq!(get_dirs(&settings_for(&["/no-such-place/*"], &["*"]), None), Ok(vec![]));
}

#[test]
fn a_leading_tilde_stands_for_the_home_directory() {
    assert!(std::path::Path::new("/usr/bin").is_dir());
    let settings = settings_for(&["~/bi?"], &[]);
    assert_eq!(get_dirs(&settings, Some("/usr")), Ok(vec![item("/usr/bin", "bin", None)]));
    assert_eq!(get_dirs(&settings, Some("/no-such-place")), Ok(vec![]));
}

#[test]
fn the_scan_stops_at_the_root_that_fails() {
    let settings = settings_for(&["/etc/passw?", "[", "/us?"], &[]);
    let scans = scan(&settings, None);
    assert_eq!(
        scans,
        vec![
            root("/etc/passw?", vec![file("/etc/passwd")]),
            RootScan::Rejected { pattern: "[".to_string(), position: 0, reason: "invalid range pattern".to_string() },
        ]
    );
}

#[test]
fn the_scan_looks_for_previews_in_directories_only() {
    let settings = settings_for(&["/et?", "/etc/passw?"], &["no-such-file-*", "passw?", "host*"]);
    let scans = scan(&settings, None);
    assert_eq!(
        scans,
        vec![
            root(
                "/et?",
                vec![directory(
                    "/etc",
                    vec![listing("/etc/no-such-file-*", &[]), listing("/etc/passw?", &["/etc/passwd"])],
                )],
            ),
            root("/etc/passw?", vec![file("/etc/passwd")]),
        ]
    );
}

#[test]
fn two_roots_with_a_directory_of_one_name_keep_their_order() {
    assert!(std::path::Path::new("/usr/bin").is_dir() && std::path::Path::new("/bin").is_dir());
    let settings = settings_for(&["/usr/bi?", "/bi?"], &[]);
    assert_eq!(
        get_dirs(&settings, None),
        Ok(vec![item("/usr/bin", "bin", None), item("/bin", "bin", None)])
    );
    let settings = settings_for(&["/bi?", "/usr/bi?"], &[]);
    assert_eq!(
        get_dirs(&settings, None),
        Ok(vec![item("/bin", "bin", None), item("/usr/bin", "bin", None)])
    );
}

#[test]
fn the_root_of_the_filesystem_has_no_name_to_be_listed_under() {
    let settings = settings_for(&["/"], &[]);
    assert_eq!(get_dirs(&settings, None), Err(GetDirsError::PathError { path: "/".to_string() }));
}
