//! The settings that discovery and its presentation go by.

use crate::paths::{copy_texts, join, joined, segments, split};
use vstd::prelude::*;
use vstd::string::StringExecFns;

verus! {

/// How the list is coloured.
#[derive(Debug, Clone, PartialEq, Eq)]
pub struct ColorSettings {
    pub dir_name: String,
    pub git_branch: String,
    pub bat_theme: String,
}

/// `ColorSettings` as plain text.
pub ghost struct ColorSettingsView {
    pub dir_name: Seq<char>,
    pub git_branch: Seq<char>,
    pub bat_theme: Seq<char>,
}

impl View for ColorSettings {
    type V = ColorSettingsView;

    open spec fn view(&self) -> ColorSettingsView {
        ColorSettingsView {
            dir_name: self.dir_name@,
            git_branch: self.git_branch@,
            bat_theme: self.bat_theme@,
        }
    }
}

/// The resolved settings.  The two lists are in the order of the
/// configuration, and that order counts: search roots are expanded in it,
/// and an earlier preview pattern wins over a later one.
#[derive(Debug, Clone, PartialEq, Eq)]
pub struct Settings {
    /// Glob patterns whose matches are the candidate directories.
    pub search_dirs: Vec<String>,
    /// Glob patterns for a directory's preview file.
    pub preview_files: Vec<String>,
    pub preview: bool,
    pub preview_with_bat: bool,
    pub preview_fallback_exa: bool,
    pub show_git_branch: bool,
    pub git_branch_separator: String,
    pub colors: ColorSettings,
}

/// `Settings` as plain values.
pub ghost struct SettingsView {
    pub search_dirs: Seq<Seq<char>>,
    pub preview_files: Seq<Seq<char>>,
    pub preview: bool,
    pub preview_with_bat: bool,
    pub preview_fallback_exa: bool,
    pub show_git_branch: bool,
    pub git_branch_separator: Seq<char>,
    pub colors: ColorSettingsView,
}

impl View for Settings {
    type V = SettingsView;

    open spec fn view(&self) -> SettingsView {
        SettingsView {
            search_dirs: self.search_dirs.deep_view(),
            preview_files: self.preview_files.deep_view(),
            preview: self.preview,
            preview_with_bat: self.preview_with_bat,
            preview_fallback_exa: self.preview_fallback_exa,
            show_git_branch: self.show_git_branch,
            git_branch_separator: self.git_branch_separator@,
            colors: self.colors@,
        }
    }
}

/// The settings that hold where the user has configured nothing: the
/// children of `~/git` are searched and a `README` of any extension is the
/// preview.  The two previewers are used according to whether they are
/// installed.
pub open spec fn default_settings(preview_with_bat: bool, preview_fallback_exa: bool) -> SettingsView {
    SettingsView {
        search_dirs: seq!["~/git/*"@],
        preview_files: seq!["README.*"@],
        preview: true,
        preview_with_bat,
        preview_fallback_exa,
        show_git_branch: true,
        git_branch_separator: "\u{25a0}"@,
        colors: ColorSettingsView {
            dir_name: "cyan"@,
            git_branch: "247,78,39"@,
            bat_theme: "ansi"@,
        },
    }
}

impl Settings {
    /// The default settings.
    pub fn new(preview_with_bat: bool, preview_fallback_exa: bool) -> (settings: Settings)
        ensures
            settings@ == default_settings(preview_with_bat, preview_fallback_exa),
    {
        let mut search_dirs: Vec<String> = Vec::new();
        search_dirs.push("~/git/*".to_owned());
        let mut preview_files: Vec<String> = Vec::new();
        preview_files.push("README.*".to_owned());
        proof {
            assert(search_dirs.deep_view() =~= seq!["~/git/*"@]);
            assert(preview_files.deep_view() =~= seq!["README.*"@]);
        }
        Settings {
            search_dirs,
            preview_files,
            preview: true,
            preview_with_bat,
            preview_fallback_exa,
            show_git_branch: true,
            git_branch_separator: "\u{25a0}".to_owned(),
            colors: ColorSettings {
                dir_name: "cyan".to_owned(),
                // the orange of the git logo
                git_branch: "247,78,39".to_owned(),
                bat_theme: "ansi".to_owned(),
            },
        }
    }

    /// A copy of these settings that the caller owns.
    pub fn get_readonly(&self) -> (copy: Settings)
        ensures
            copy@ == self@,
    {
        Settings {
            search_dirs: copy_texts(&self.search_dirs),
            preview_files: copy_texts(&self.preview_files),
            preview: self.preview,
            preview_with_bat: self.preview_with_bat,
            preview_fallback_exa: self.preview_fallback_exa,
            show_git_branch: self.show_git_branch,
            git_branch_separator: self.git_branch_separator.clone(),
            colors: ColorSettings {
                dir_name: self.colors.dir_name.clone(),
                git_branch: self.colors.git_branch.clone(),
                bat_theme: self.colors.bat_theme.clone(),
            },
        }
    }
}

/// Where a user's configuration file is looked for, in the order in which
/// the places are tried: `config.yml` under the first of the home directory
/// and the XDG configuration directory that is known, and `config.yaml`
/// under the second where both are.
pub open spec fn config_paths(home: Option<Seq<char>>, xdg_config_home: Option<Seq<char>>) -> Seq<
    Seq<char>,
> {
    match (home, xdg_config_home) {
        (Some(home), Some(xdg)) => seq![
            joined(home, "config.yml"@),
            joined(xdg, "config.yaml"@),
        ],
        (Some(home), None) => seq![joined(home, "config.yml"@)],
        (None, Some(xdg)) => seq![joined(xdg, "config.yml"@)],
        (None, None) => seq![],
    }
}

/// The places where a user's configuration file is looked for.
pub fn user_config_paths(home: Option<&str>, xdg_config_home: Option<&str>) -> (paths: Vec<String>)
    ensures
        paths.deep_view() == config_paths(home.deep_view(), xdg_config_home.deep_view()),
{
    let mut bases: Vec<&str> = Vec::new();
    if let Some(home) = home {
        bases.push(home);
    }
    if let Some(xdg) = xdg_config_home {
        bases.push(xdg);
    }
    let mut paths: Vec<String> = Vec::new();
    if bases.len() > 0 {
        paths.push(join(bases[0], "config.yml"));
    }
    if bases.len() > 1 {
        paths.push(join(bases[1], "config.yaml"));
    }
    paths
}

/// Where the program `program` would be, for each directory of the search
/// path `search_path`, whose directories a `:` separates.
pub open spec fn program_paths_of(search_path: Seq<char>, program: Seq<char>) -> Seq<Seq<char>> {
    segments(search_path, ':').map_values(|dir: Seq<char>| dir + seq!['/'] + program)
}

/// The files one of which must exist for `program` to be found on
/// `search_path`.
pub fn program_paths(search_path: &str, program: &str) -> (paths: Vec<String>)
    ensures
        paths.deep_view() == program_paths_of(search_path@, program@),
{
    let dirs = split(search_path, ':');
    let mut paths: Vec<String> = Vec::new();
    let mut at: usize = 0;
    while at < dirs.len()
        invariant
            at <= dirs.len(),
            dirs.deep_view() == segments(search_path@, ':'),
            paths.deep_view() == program_paths_of(search_path@, program@).take(at as int),
        decreases dirs.len() - at,
    {
        let ghost before = paths.deep_view();
        let mut path = dirs[at].clone();
        proof {
            reveal_strlit("/");
            assert("/"@ =~= seq!['/']);
        }
        path.append("/");
        path.append(program);
        paths.push(path);
        at = at + 1;
        proof {
            assert(paths.deep_view() =~= before.push(path@));
        }
    }
    paths
}

} // verus!
