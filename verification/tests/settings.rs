use dir_picker::paths::{copy_texts, join};
use dir_picker::settings::{program_paths, user_config_paths, ColorSettings, Settings};

#[test]
fn the_default_settings() {
    let settings = Settings::new(true, false);
    assert_eq!(settings.search_dirs, vec!["~/git/*"]);
    assert_eq!(settings.preview_files, vec!["README.*"]);
    assert!(settings.preview);
    assert!(settings.preview_with_bat);
    assert!(!settings.preview_fallback_exa);
    assert!(settings.show_git_branch);
    assert_eq!(settings.git_branch_separator, "\u{25a0}");
    assert_eq!(
        settings.colors,
        ColorSettings {
            dir_name: "cyan".to_string(),
            git_branch: "247,78,39".to_string(),
            bat_theme: "ansi".to_string()
        }
    );
}

#[test]
fn the_previewers_are_as_the_caller_found_them() {
    let settings = Settings::new(false, true);
    assert!(!settings.preview_with_bat);
    assert!(settings.preview_fallback_exa);
}

#[test]
fn a_copy_of_the_settings_is_equal_to_them() {
    let mut settings = Settings::new(false, true);
    settings.search_dirs = vec!["~/git/*".to_string(), "/srv/*/checkouts/*".to_string()];
    settings.preview_files = vec![];
    settings.preview = false;
    settings.show_git_branch = false;
    settings.git_branch_separator = "|".to_string();
    settings.colors.dir_name = "red".to_string();
    let copy = settings.get_readonly();
    assert_eq!(copy, settings);
}

#[test]
fn a_copy_of_the_settings_is_its_own() {
    let settings = Settings::new(true, true);
    let mut copy = settings.get_readonly();
    copy.search_dirs.push("/srv/*".to_string());
    copy.colors.bat_theme = "gruvbox".to_string();
    assert_eq!(settings, Settings::new(true, true));
}

#[test]
fn copied_texts_are_equal() {
    let texts = vec!["a".to_string(), "".to_string(), "\u{e9}".to_string()];
    assert_eq!(copy_texts(&texts), texts);
    assert_eq!(copy_texts(&vec![]), Vec::<String>::new());
}

#[test]
fn the_configuration_file_is_looked_for_under_home_first() {
    assert_eq!(
        user_config_paths(Some("/home/user"), Some("/home/user/.config")),
        vec!["/home/user/config.yml", "/home/user/.config/config.yaml"]
    );
}

#[test]
fn one_known_directory_gives_one_place() {
    assert_eq!(user_config_paths(Some("/home/user"), None), vec!["/home/user/config.yml"]);
    assert_eq!(user_config_paths(None, Some("/etc/xdg")), vec!["/etc/xdg/config.yml"]);
    assert_eq!(user_config_paths(None, None), Vec::<String>::new());
}

#[test]
fn a_name_is_joined_with_one_separator() {
    assert_eq!(join("/home/user", "config.yml"), "/home/user/config.yml");
    assert_eq!(join("/home/user/", "config.yml"), "/home/user/config.yml");
    assert_eq!(join("/", "config.yml"), "/config.yml");
    assert_eq!(join("", "config.yml"), "config.yml");
}

#[test]
fn join_agrees_with_the_standard_library_on_relative_names() {
    for dir in ["/home/user", "/home/user/", "/", "", "rel", "rel/"] {
        let expected: std::path::PathBuf = [dir, "config.yml"].iter().collect();
        assert_eq!(join(dir, "config.yml"), expected.to_str().unwrap());
    }
}

#[test]
fn a_program_is_looked_for_in_every_directory_of_the_path() {
    assert_eq!(
        program_paths("/usr/local/bin:/usr/bin:/bin", "bat"),
        vec!["/usr/local/bin/bat", "/usr/bin/bat", "/bin/bat"]
    );
}

#[test]
fn an_empty_directory_of_the_path_stands_for_the_root() {
    assert_eq!(program_paths("", "exa"), vec!["/exa"]);
    assert_eq!(program_paths("/usr/bin::/bin:", "exa"), vec!["/usr/bin/exa", "/exa", "/bin/exa", "/exa"]);
}
