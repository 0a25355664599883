//! The site configuration, as the pipeline consumes it: site metadata,
//! static-copy rules, hook command lists and watcher exclusions, all
//! plain values.  Reading and decoding the configuration file is the
//! shell's job; the theme check and the defaults live here.

use vstd::prelude::*;

use crate::error::StapleError;

verus! {

/// One hook entry: a bare command run in the project root, or a
/// command with its own working directory.
#[derive(Debug, PartialEq)]
pub enum HookLine {
    Command(String),
    TargetDir { dir: String, command: String },
}

/// The directory a hook runs in.
pub open spec fn to_dir_spec(h: HookLine) -> Seq<char> {
    match h {
        HookLine::Command(_) => "./"@,
        HookLine::TargetDir { dir, command: _ } => dir@,
    }
}

/// The command a hook runs.
pub open spec fn to_cmd_spec(h: HookLine) -> Seq<char> {
    match h {
        HookLine::Command(cmd) => cmd@,
        HookLine::TargetDir { dir: _, command } => command@,
    }
}

impl HookLine {
    /// The directory the hook runs in; `./` for a bare command.
    pub fn to_dir(&self) -> (r: String)
        ensures
            r@ == to_dir_spec(*self),
    {
        match self {
            HookLine::Command(_) => String::from_str("./"),
            HookLine::TargetDir { dir, command: _ } => dir.clone(),
        }
    }

    /// The command the hook runs.
    pub fn to_cmd(&self) -> (r: String)
        ensures
            r@ == to_cmd_spec(*self),
    {
        match self {
            HookLine::Command(cmd) => cmd.clone(),
            HookLine::TargetDir { dir: _, command } => command.clone(),
        }
    }

    /// The hook as the operator sees it: `[dir] command`.
    pub fn display_string(&self) -> (r: String)
        ensures
            r@ == "["@ + to_dir_spec(*self) + "] "@ + to_cmd_spec(*self),
    {
        let mut s = String::from_str("[");
        let d = self.to_dir();
        s.append(d.as_str());
        s.append("] ");
        let c = self.to_cmd();
        s.append(c.as_str());
        s
    }
}

/// The commands run around a build, in declared order.
#[derive(Debug, PartialEq)]
pub struct Hook {
    pub before_build: Vec<HookLine>,
    pub after_build: Vec<HookLine>,
}

impl Default for Hook {
    /// No hooks on either side.
    fn default() -> (r: Self)
        ensures
            r.before_build@ == Seq::<HookLine>::empty(),
            r.after_build@ == Seq::<HookLine>::empty(),
    {
        Hook { before_build: Vec::new(), after_build: Vec::new() }
    }
}

/// One static-copy rule: a file copied verbatim into the output tree.
#[derive(Debug, PartialEq)]
pub struct Statics {
    pub from: String,
    pub to: String,
}

/// The watcher's exclusion list: paths under these roots never
/// trigger a develop-mode rebuild.
#[derive(Debug, PartialEq)]
pub struct Watch {
    pub exclusive: Vec<String>,
}

impl Default for Watch {
    /// Nothing is excluded.
    fn default() -> (r: Self)
        ensures
            r.exclusive@ == Seq::<String>::empty(),
    {
        Watch { exclusive: Vec::new() }
    }
}

/// The site metadata block of the configuration.
#[derive(Debug, PartialEq)]
pub struct Site {
    pub title: String,
    pub subtitle: String,
    pub description: String,
    pub keywords: Vec<String>,
    pub author: String,
    pub email: String,
    pub utc_offset: i16,
    pub theme: String,
    pub domain: String,
    pub domain_root: String,
    pub default_template: String,
}

/// The values a fresh site starts from.
pub open spec fn site_is_default(s: Site) -> bool {
    &&& s.title@ == "Staple Site"@
    &&& s.subtitle@ == ""@
    &&& s.description@ == ""@
    &&& s.keywords@ == Seq::<String>::empty()
    &&& s.author@ == ""@
    &&& s.email@ == ""@
    &&& s.utc_offset == 800i16
    &&& s.theme@ == "staple"@
    &&& s.domain@ == ""@
    &&& s.domain_root@ == ""@
    &&& s.default_template@ == "article.html"@
}

impl Default for Site {
    /// A fresh site: the stock title, the stock theme, articles
    /// rendered through `article.html`, and an offset of eight hours.
    fn default() -> (r: Self)
        ensures
            site_is_default(r),
    {
        Site {
            title: String::from_str("Staple Site"),
            subtitle: String::from_str(""),
            description: String::from_str(""),
            keywords: Vec::new(),
            author: String::from_str(""),
            email: String::from_str(""),
            utc_offset: 800,
            theme: String::from_str("staple"),
            domain: String::from_str(""),
            domain_root: String::from_str(""),
            default_template: String::from_str("article.html"),
        }
    }
}

/// The whole configuration, with every optional table resolved.
#[derive(Debug, PartialEq)]
pub struct Config {
    pub site: Site,
    pub statics: Vec<Statics>,
    pub hook: Hook,
    pub watch: Watch,
    pub extra: Vec<(String, String)>,
}

impl Default for Config {
    /// A fresh configuration: default site, no statics, no hooks, no
    /// extras.
    fn default() -> (r: Self)
        ensures
            site_is_default(r.site),
            r.statics@ == Seq::<Statics>::empty(),
            r.hook.before_build@ == Seq::<HookLine>::empty(),
            r.hook.after_build@ == Seq::<HookLine>::empty(),
            r.watch.exclusive@ == Seq::<String>::empty(),
            r.extra@ == Seq::<(String, String)>::empty(),
    {
        Config {
            site: Site::default(),
            statics: Vec::new(),
            hook: Hook::default(),
            watch: Watch::default(),
            extra: Vec::new(),
        }
    }
}

/// The configuration as it is written to disk: statics may be absent
/// rather than empty.
#[derive(Debug, PartialEq)]
pub struct ConfigFile {
    pub site: Site,
    pub statics: Option<Vec<Statics>>,
    pub extra: Vec<(String, String)>,
    pub hook: Hook,
}

impl Default for ConfigFile {
    /// What a fresh configuration file holds.
    fn default() -> (r: Self)
        ensures
            site_is_default(r.site),
            r.statics is None,
            r.extra@ == Seq::<(String, String)>::empty(),
            r.hook.before_build@ == Seq::<HookLine>::empty(),
            r.hook.after_build@ == Seq::<HookLine>::empty(),
    {
        ConfigFile { site: Site::default(), statics: None, extra: Vec::new(), hook: Hook::default() }
    }
}

impl Config {
    /// The active theme's name, checked: an empty name, or one whose
    /// template folder the caller could not find, is an error naming
    /// the theme.
    pub fn get_theme(&self, theme_dir_exists: bool) -> (r: Result<String, StapleError>)
        ensures
            ({
                let bad = self.site.theme@.len() == 0 || !theme_dir_exists;
                match r {
                    Ok(t) => !bad && t@ == self.site.theme@,
                    Err(e) => {
                        &&& bad
                        &&& e matches StapleError::ThemeNotFound(t) && t@ == self.site.theme@
                    },
                }
            }),
    {
        if self.site.theme.as_str().unicode_len() == 0 || !theme_dir_exists {
            Err(StapleError::ThemeNotFound(self.site.theme.clone()))
        } else {
            Ok(self.site.theme.clone())
        }
    }

    /// The configuration a fresh project is initialized with.
    pub fn get_default_file() -> (r: ConfigFile)
        ensures
            site_is_default(r.site),
            r.statics is None,
            r.extra@ == Seq::<(String, String)>::empty(),
            r.hook.before_build@ == Seq::<HookLine>::empty(),
            r.hook.after_build@ == Seq::<HookLine>::empty(),
    {
        ConfigFile::default()
    }
}

} // verus!
