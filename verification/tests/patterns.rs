use dir_picker::patterns::{expand, expand_home, preview_pattern, Expansion, Found};

fn listing(pattern: &str, paths: &[&str]) -> Expansion {
    Expansion::Listed {
        pattern: pattern.to_string(),
        steps: paths.iter().map(|p| Found::Path(p.to_string())).collect(),
    }
}

#[test]
fn a_preview_pattern_stays_inside_its_directory() {
    assert_eq!(preview_pattern("/tmp/proj/beta", "README.*"), "/tmp/proj/beta/README.*");
    assert_eq!(preview_pattern("/tmp/proj/beta/", "README.*"), "/tmp/proj/beta/README.*");
    assert_eq!(preview_pattern("/tmp/proj/beta", "/etc/passwd"), "/tmp/proj/beta//etc/passwd");
    assert_eq!(preview_pattern("", "README.*"), "README.*");
}

#[test]
fn a_directory_name_is_taken_literally_in_a_preview_pattern() {
    assert_eq!(preview_pattern("/tmp/a[b]c", "README.*"), "/tmp/a[[]b[]]c/README.*");
    assert_eq!(preview_pattern("/tmp/what?", "*"), "/tmp/what[?]/*");
    assert_eq!(preview_pattern("/tmp/st*r", "R"), "/tmp/st[*]r/R");
}

#[test]
fn a_tilde_is_expanded_at_the_start_only() {
    assert_eq!(expand_home("~/git/*", Some("/home/user")), "/home/user/git/*");
    assert_eq!(expand_home("~", Some("/home/user")), "/home/user");
    assert_eq!(expand_home("~other/git/*", Some("/home/user")), "~other/git/*");
    assert_eq!(expand_home("/srv/~/git/*", Some("/home/user")), "/srv/~/git/*");
    assert_eq!(expand_home("", Some("/home/user")), "");
    assert_eq!(expand_home("~\\git", Some("/home/user")), "~\\git");
}

#[test]
fn without_a_home_directory_the_pattern_is_used_as_it_is() {
    assert_eq!(expand_home("~/git/*", None), "~/git/*");
    assert_eq!(expand_home("~", None), "~");
}

#[test]
fn an_expansion_reports_a_malformed_pattern() {
    assert_eq!(
        expand("/etc/a***"),
        Expansion::Rejected {
            pattern: "/etc/a***".to_string(),
            position: 8,
            reason: "wildcards are either regular `*` or recursive `**`".to_string()
        }
    );
}

#[test]
fn an_expansion_lists_what_matches() {
    assert_eq!(expand("/etc/passw[d]"), listing("/etc/passw[d]", &["/etc/passwd"]));
    assert_eq!(expand("/no-such-place/*"), listing("/no-such-place/*", &[]));
}
