//! The persisted project list in `$XDG_CONFIG_HOME/tuitree/config.toml`.
use vstd::prelude::*;

use crate::model::result_view;
use crate::paths::{
    a_dotted_extension_changes_the_path, an_extension_stays_in_its_directory, components, extended,
    file_name, is_rooted, join, joined, joining_adds_components, joining_undoes_stripping, parent,
    parent_of, relative_to, rooted, same_path, strip_base, with_extension,
};
use crate::text::{
    after_slashes, chars_of, same_text, string_of, strip_prefix, trim_start, without_prefix,
};

pub mod laws;
pub mod saving;

verus! {

#[derive(Debug)]
pub struct Config {
    pub projects: Vec<ProjectEntry>,
}

#[derive(Debug)]
pub struct ProjectEntry {
    pub path: String,
}

impl DeepView for ProjectEntry {
    type V = Seq<char>;

    open spec fn deep_view(&self) -> Seq<char> {
        self.path@
    }
}

/// A config stands for the paths of its projects, in order.
impl DeepView for Config {
    type V = Seq<Seq<char>>;

    open spec fn deep_view(&self) -> Seq<Seq<char>> {
        self.projects.deep_view()
    }
}

impl Default for Config {
    fn default() -> (config: Self)
        ensures
            config.deep_view() == Seq::<Seq<char>>::empty(),
    {
        Config { projects: Vec::new() }
    }
}

/// What was found at the path of the config file.
#[derive(Debug)]
pub enum ConfigFile {
    /// There is no such file.
    Missing,
    /// It cannot be read, for this reason.
    Unreadable(String),
    /// It is not a config, for this reason.
    Malformed(String),
    Read(Config),
}

/// A [`ConfigFile`] as mathematical values.
pub enum ConfigFileView {
    Missing,
    Unreadable(Seq<char>),
    Malformed(Seq<char>),
    Read(Seq<Seq<char>>),
}

impl DeepView for ConfigFile {
    type V = ConfigFileView;

    open spec fn deep_view(&self) -> ConfigFileView {
        match self {
            ConfigFile::Missing => ConfigFileView::Missing,
            ConfigFile::Unreadable(reason) => ConfigFileView::Unreadable(reason@),
            ConfigFile::Malformed(reason) => ConfigFileView::Malformed(reason@),
            ConfigFile::Read(config) => ConfigFileView::Read(config.deep_view()),
        }
    }
}

/// What went wrong, and why.
#[derive(Debug)]
pub struct ConfigError {
    pub context: String,
    pub cause: String,
}

/// A [`ConfigError`] as mathematical values.
pub struct ConfigErrorView {
    pub context: Seq<char>,
    pub cause: Seq<char>,
}

impl DeepView for ConfigError {
    type V = ConfigErrorView;

    open spec fn deep_view(&self) -> ConfigErrorView {
        ConfigErrorView { context: self.context@, cause: self.cause@ }
    }
}

/// The config that a file holds; a missing file is an empty config.
pub open spec fn loaded(path: Seq<char>, file: ConfigFileView) -> Result<
    Seq<Seq<char>>,
    ConfigErrorView,
> {
    match file {
        ConfigFileView::Missing => Ok(Seq::empty()),
        ConfigFileView::Read(projects) => Ok(projects),
        ConfigFileView::Malformed(cause) => Err(
            ConfigErrorView { context: "invalid config "@ + path, cause },
        ),
        ConfigFileView::Unreadable(cause) => Err(
            ConfigErrorView { context: "cannot read "@ + path, cause },
        ),
    }
}

/// How to write the config: create `dir`, write `tmp`, then rename `tmp` to `path`, so that
/// the file at `path` is whole at every moment.
#[derive(Debug)]
pub struct SavePlan {
    pub dir: String,
    pub tmp: String,
    pub path: String,
}

/// A [`SavePlan`] as mathematical values.
pub struct SavePlanView {
    pub dir: Seq<char>,
    pub tmp: Seq<char>,
    pub path: Seq<char>,
}

impl DeepView for SavePlan {
    type V = SavePlanView;

    open spec fn deep_view(&self) -> SavePlanView {
        SavePlanView { dir: self.dir@, tmp: self.tmp@, path: self.path@ }
    }
}

/// A step of a [`SavePlan`].
#[derive(Debug, Clone, Copy, PartialEq, Eq, Structural)]
pub enum SaveStep {
    CreateDir,
    Serialize,
    Write,
    Rename,
}

/// How to write a config to `path`.
pub open spec fn save_plan(path: Seq<char>) -> Result<SavePlanView, Seq<char>> {
    match parent(path) {
        Some(dir) => Ok(SavePlanView { dir, tmp: with_extension(path, "toml.tmp"@), path }),
        None => Err("config path has no parent directory"@),
    }
}

/// What to say when a step fails.
pub open spec fn save_failure(plan: SavePlanView, step: SaveStep) -> Seq<char> {
    match step {
        SaveStep::CreateDir => "cannot create "@ + plan.dir,
        SaveStep::Serialize => "cannot serialize config"@,
        SaveStep::Write => "cannot write "@ + plan.tmp,
        SaveStep::Rename => "cannot replace "@ + plan.path,
    }
}

impl Config {
    /// The config that the file at `path` holds; a missing file is an empty config.
    pub fn load(path: &str, file: ConfigFile) -> (config: Result<Config, ConfigError>)
        ensures
            result_view(config) == loaded(path@, file.deep_view()),
    {
        match file {
            ConfigFile::Missing => Ok(Config::default()),
            ConfigFile::Read(config) => Ok(config),
            ConfigFile::Malformed(cause) => Err(
                ConfigError { context: "invalid config ".to_owned().concat(path), cause },
            ),
            ConfigFile::Unreadable(cause) => Err(
                ConfigError { context: "cannot read ".to_owned().concat(path), cause },
            ),
        }
    }

    /// How to write a config to `path` atomically (temp file + rename), creating the directory
    /// if needed.
    pub fn save(path: &str) -> (plan: Result<SavePlan, String>)
        ensures
            result_view(plan) == save_plan(path@),
    {
        match parent_of(path) {
            Some(dir) => Ok(
                SavePlan { dir, tmp: extended(path, "toml.tmp"), path: path.to_owned() },
            ),
            None => Err("config path has no parent directory".to_owned()),
        }
    }
}

impl SavePlan {
    /// What to say when `step` fails.
    pub fn failure(&self, step: SaveStep) -> (message: String)
        ensures
            message@ == save_failure(self.deep_view(), step),
    {
        match step {
            SaveStep::CreateDir => "cannot create ".to_owned().concat(&self.dir),
            SaveStep::Serialize => "cannot serialize config".to_owned(),
            SaveStep::Write => "cannot write ".to_owned().concat(&self.tmp),
            SaveStep::Rename => "cannot replace ".to_owned().concat(&self.path),
        }
    }
}

/// The home directory that `$HOME` names; an empty value names none.
pub open spec fn home_of(var: Option<Seq<char>>) -> Option<Seq<char>> {
    match var {
        Some(home) => if home.len() == 0 {
            None
        } else {
            Some(home)
        },
        None => None,
    }
}

/// The home directory that `$HOME` names; an empty value names none.
pub fn home_dir(var: Option<String>) -> (home: Option<String>)
    ensures
        home.deep_view() == home_of(var.deep_view()),
{
    match var {
        Some(home) => {
            if chars_of(&home).len() == 0 {
                None
            } else {
                Some(home)
            }
        },
        None => None,
    }
}

/// `$XDG_CONFIG_HOME/tuitree/config.toml`, or `~/.config/tuitree/config.toml` when
/// `XDG_CONFIG_HOME` is unset or relative. Both arguments are values of variables.
pub open spec fn config_path_of(xdg: Option<Seq<char>>, home: Option<Seq<char>>) -> Result<
    Seq<char>,
    Seq<char>,
> {
    match xdg {
        Some(dir) if rooted(dir) => Ok(join(join(dir, "tuitree"@), "config.toml"@)),
        _ => match home_of(home) {
            Some(home) => Ok(
                join(join(join(home, ".config"@), "tuitree"@), "config.toml"@),
            ),
            None => Err("neither XDG_CONFIG_HOME nor HOME is set"@),
        },
    }
}

/// `$XDG_CONFIG_HOME/tuitree/config.toml`, or `~/.config/tuitree/config.toml` when unset.
pub fn config_path(xdg: Option<String>, home: Option<String>) -> (path: Result<String, String>)
    ensures
        result_view(path) == config_path_of(xdg.deep_view(), home.deep_view()),
{
    let base = match xdg {
        Some(dir) => if is_rooted(&dir) {
            Some(dir)
        } else {
            None
        },
        None => None,
    };
    match base {
        Some(dir) => Ok(joined(&joined(&dir, "tuitree"), "config.toml")),
        None => match home_dir(home) {
            Some(home) => Ok(
                joined(&joined(&joined(&home, ".config"), "tuitree"), "config.toml"),
            ),
            None => Err("neither XDG_CONFIG_HOME nor HOME is set".to_owned()),
        },
    }
}

/// `input` with a leading `~` or `~/` standing for the home directory. What follows is looked up
/// inside it, however many slashes stand between.
pub open spec fn expanded(input: Seq<char>, home: Option<Seq<char>>) -> Seq<char> {
    match home {
        Some(home) => if input == "~"@ {
            home
        } else {
            match strip_prefix(input, "~/"@) {
                Some(rest) => join(home, trim_start(rest, |c: char| c == '/')),
                None => input,
            }
        },
        None => input,
    }
}

/// Expands a leading `~` or `~/` to the home directory.
pub fn expand_tilde(input: &str, home: &Option<String>) -> (path: String)
    ensures
        path@ == expanded(input@, home.deep_view()),
{
    match home {
        Some(home) => {
            if same_text(input, "~") {
                home.clone()
            } else {
                let chars = chars_of(input);
                match without_prefix(&chars, "~/") {
                    Some(rest) => joined(home, &string_of(after_slashes(rest))),
                    None => input.to_owned(),
                }
            }
        },
        None => input.to_owned(),
    }
}

/// `path` for display: relative to `~` when it lies in the home directory.
pub open spec fn displayed(path: Seq<char>, home: Option<Seq<char>>) -> Seq<char> {
    match home {
        Some(home) => match strip_base(path, home) {
            Some(rest) => if rest.len() == 0 {
                "~"@
            } else {
                "~/"@ + rest
            },
            None => path,
        },
        None => path,
    }
}

/// Shortens paths under the home directory to `~/...` for display.
pub fn display_path(path: &str, home: &Option<String>) -> (shown: String)
    ensures
        shown@ == displayed(path@, home.deep_view()),
{
    match home {
        Some(home) => match relative_to(path, home) {
            Some(rest) => {
                if chars_of(&rest).len() == 0 {
                    "~".to_owned()
                } else {
                    "~/".to_owned().concat(&rest)
                }
            },
            None => path.to_owned(),
        },
        None => path.to_owned(),
    }
}

/// The temporary file of a save is another file in the directory of the config file, so renaming
/// it replaces the config file at once.
pub proof fn the_temporary_file_is_a_neighbour(path: Seq<char>)
    requires
        file_name(path) is Some,
        save_plan(path) is Ok,
    ensures
        ({
            let plan = save_plan(path)->Ok_0;
            &&& plan.path == path
            &&& parent(plan.tmp) == Some(plan.dir)
            &&& !same_path(plan.tmp, path)
        }),
{
    reveal_strlit("toml.tmp");
    let extension = "toml.tmp"@;
    assert(extension[4] == '.');
    an_extension_stays_in_its_directory(path, extension);
    a_dotted_extension_changes_the_path(path, extension, 4);
}

/// A leading `~/` always becomes the home directory: what follows it, slashes or not, names
/// something inside.
pub proof fn a_leading_tilde_is_the_home_directory(rest: Seq<char>, home: Seq<char>)
    requires
        home.len() > 0,
    ensures
        components(home).is_prefix_of(components(expanded("~/"@ + rest, Some(home)))),
        expanded("~/"@ + rest, Some(home)) == join(home, trim_start(rest, |c: char| c == '/')),
{
    reveal_strlit("~");
    reveal_strlit("~/");
    let input = "~/"@ + rest;
    assert(input.len() != ("~"@).len());
    assert(("~/"@).is_prefix_of(input)) by {
        assert(input.subrange(0, 2) =~= "~/"@);
    }
    assert(input.skip(2) =~= rest);
    let inner = trim_start(rest, |c: char| c == '/');
    lemma_no_slash_first(rest);
    joining_adds_components(home, inner);
}

proof fn lemma_no_slash_first(s: Seq<char>)
    ensures
        !rooted(trim_start(s, |c: char| c == '/')),
    decreases s.len(),
{
    if s.len() > 0 && s[0] == '/' {
        lemma_no_slash_first(s.drop_first());
    }
}

/// Typing what is displayed names the same path again, whatever `$HOME` holds. A path that itself
/// starts with a `~` component is left out: it would be expanded.
pub proof fn typing_a_displayed_path_finds_it(path: Seq<char>, var: Option<Seq<char>>)
    requires
        path != "~"@,
        !("~/"@).is_prefix_of(path),
    ensures
        same_path(expanded(displayed(path, home_of(var)), home_of(var)), path),
{
    if let Some(home) = home_of(var) {
        if let Some(rest) = strip_base(path, home) {
            joining_undoes_stripping(path, home);
            if rest.len() > 0 {
                reveal_strlit("~");
                reveal_strlit("~/");
                let shown = "~/"@ + rest;
                assert(shown.len() != ("~"@).len());
                assert(("~/"@).is_prefix_of(shown)) by {
                    assert(shown.subrange(0, 2) =~= "~/"@);
                }
                assert(shown.skip(2) =~= rest);
                assert(trim_start(rest, |c: char| c == '/') == rest);
            }
        }
    }
}

} // verus!
