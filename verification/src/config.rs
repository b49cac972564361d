use vstd::prelude::*;

use crate::text::{strcat, strcat3, split_whitespace, words};

verus! {

/// Where the configuration of a package that is being added is written first.
pub const TEMP_CONFIG_PATH: &'static str = "/var/lib/forge/.tmp";

/// The hooks of a package configuration that a run can ask for.
#[derive(Clone, Copy, Debug, PartialEq, Eq, Structural)]
pub enum ConfigCommand {
    Build,
    Install,
    Uninstall,
    PostInstall,
    PostUninstall,
    Clean,
}

/// The `[hooks]` table of a package configuration: the shell-free command line
/// that each step runs in the package's repository.
pub struct Hooks {
    pub build: Option<String>,
    pub install: Option<String>,
    pub uninstall: Option<String>,
    pub post_install: Option<String>,
    pub post_uninstall: Option<String>,
    pub clean: Option<String>,
}

/// A package configuration, as read from its TOML file.
pub struct Config {
    pub update: Option<String>,
    pub hooks: Option<Hooks>,
}

/// The characters of an optional string.
pub open spec fn opt_text(o: Option<String>) -> Option<Seq<char>> {
    match o {
        Some(s) => Some(s@),
        None => None,
    }
}

pub struct HooksModel {
    pub build: Option<Seq<char>>,
    pub install: Option<Seq<char>>,
    pub uninstall: Option<Seq<char>>,
    pub post_install: Option<Seq<char>>,
    pub post_uninstall: Option<Seq<char>>,
    pub clean: Option<Seq<char>>,
}

pub struct ConfigModel {
    pub update: Option<Seq<char>>,
    pub hooks: Option<HooksModel>,
}

impl View for Hooks {
    type V = HooksModel;

    open spec fn view(&self) -> HooksModel {
        HooksModel {
            build: opt_text(self.build),
            install: opt_text(self.install),
            uninstall: opt_text(self.uninstall),
            post_install: opt_text(self.post_install),
            post_uninstall: opt_text(self.post_uninstall),
            clean: opt_text(self.clean),
        }
    }
}

impl View for Config {
    type V = ConfigModel;

    open spec fn view(&self) -> ConfigModel {
        ConfigModel {
            update: opt_text(self.update),
            hooks: match self.hooks {
                Some(h) => Some(h@),
                None => None,
            },
        }
    }
}

/// The hook that `command` selects.
pub open spec fn hook_of(h: HooksModel, command: ConfigCommand) -> Option<Seq<char>> {
    match command {
        ConfigCommand::Build => h.build,
        ConfigCommand::Install => h.install,
        ConfigCommand::Uninstall => h.uninstall,
        ConfigCommand::PostInstall => h.post_install,
        ConfigCommand::PostUninstall => h.post_uninstall,
        ConfigCommand::Clean => h.clean,
    }
}

/// The command line that `command` runs under the configuration `c`: the words
/// of its hook (none when the hook is absent or blank), or the message that
/// explains why there is none.
pub open spec fn hook_argv_model(c: ConfigModel, command: ConfigCommand) -> Result<
    Seq<Seq<char>>,
    Seq<char>,
> {
    match c.hooks {
        None => Err("no hooks section"@),
        Some(h) => match hook_of(h, command) {
            None => Ok(Seq::empty()),
            Some(line) => Ok(words(line)),
        },
    }
}

fn clone_opt(o: &Option<String>) -> (r: Option<String>)
    ensures
        opt_text(r) == opt_text(*o),
{
    match o {
        Some(s) => Some(s.clone()),
        None => None,
    }
}

impl Hooks {
    /// The hook that `command` selects.
    pub fn hook(&self, command: ConfigCommand) -> (r: Option<String>)
        ensures
            opt_text(r) == hook_of(self@, command),
    {
        match command {
            ConfigCommand::Build => clone_opt(&self.build),
            ConfigCommand::Install => clone_opt(&self.install),
            ConfigCommand::Uninstall => clone_opt(&self.uninstall),
            ConfigCommand::PostInstall => clone_opt(&self.post_install),
            ConfigCommand::PostUninstall => clone_opt(&self.post_uninstall),
            ConfigCommand::Clean => clone_opt(&self.clean),
        }
    }
}

impl Config {
    /// The program and arguments that `command` runs: the words of the selected
    /// hook, empty when there is nothing to run. Fails when the configuration
    /// has no `[hooks]` table.
    pub fn hook_argv(&self, command: ConfigCommand) -> (r: Result<Vec<String>, String>)
        ensures
            match r {
                Ok(v) => hook_argv_model(self@, command) == Ok::<Seq<Seq<char>>, Seq<char>>(
                    v@.map_values(|w: String| w@),
                ),
                Err(e) => hook_argv_model(self@, command) == Err::<Seq<Seq<char>>, Seq<char>>(
                    e@,
                ),
            },
    {
        match &self.hooks {
            None => Err(String::from_str("no hooks section")),
            Some(h) => match h.hook(command) {
                None => {
                    let v: Vec<String> = Vec::new();
                    assert(v@.map_values(|w: String| w@) =~= Seq::<Seq<char>>::empty());
                    Ok(v)
                },
                Some(line) => Ok(split_whitespace(line.as_str())),
            },
        }
    }
}


/// The lines that describe a configuration: its update policy, then its hooks
/// in the order build, install, uninstall, post_install, post_uninstall, clean,
/// each only where it is set.
pub open spec fn log_lines_model(c: ConfigModel) -> Seq<Seq<char>> {
    let update = match c.update {
        Some(u) => seq!["update: "@ + u],
        None => Seq::empty(),
    };
    let hooks = match c.hooks {
        Some(h) => seq!["hooks:"@] + hook_line("build"@, h.build) + hook_line("install"@, h.install)
            + hook_line("uninstall"@, h.uninstall) + hook_line("post_install"@, h.post_install)
            + hook_line("post_uninstall"@, h.post_uninstall) + hook_line("clean"@, h.clean),
        None => Seq::empty(),
    };
    update + hooks
}

/// The line that shows one hook, if it is set.
pub open spec fn hook_line(name: Seq<char>, value: Option<Seq<char>>) -> Seq<Seq<char>> {
    match value {
        Some(v) => seq!["  "@ + name + ": "@ + v],
        None => Seq::empty(),
    }
}

fn push_hook_line(lines: &mut Vec<String>, name: &str, value: &Option<String>)
    ensures
        final(lines)@.map_values(|l: String| l@) == old(lines)@.map_values(|l: String| l@)
            + hook_line(name@, opt_text(*value)),
{
    let ghost before = lines@.map_values(|l: String| l@);
    match value {
        Some(v) => {
            let mut line = strcat3("  ", name, ": ");
            line.append(v.as_str());
            lines.push(line);
            assert(lines@.map_values(|l: String| l@) =~= before + hook_line(
                name@,
                opt_text(*value),
            ));
        },
        None => {
            assert(lines@.map_values(|l: String| l@) =~= before + hook_line(
                name@,
                opt_text(*value),
            ));
        },
    }
}

impl Config {
    /// The lines that describe this configuration, as the `show` command prints them.
    pub fn log_lines(&self) -> (r: Vec<String>)
        ensures
            r@.map_values(|l: String| l@) == log_lines_model(self@),
    {
        let mut lines: Vec<String> = Vec::new();
        match &self.update {
            Some(u) => {
                lines.push(strcat("update: ", u.as_str()));
            },
            None => {},
        }
        let ghost after_update = lines@.map_values(|l: String| l@);
        match &self.hooks {
            Some(h) => {
                lines.push(String::from_str("hooks:"));
                push_hook_line(&mut lines, "build", &h.build);
                push_hook_line(&mut lines, "install", &h.install);
                push_hook_line(&mut lines, "uninstall", &h.uninstall);
                push_hook_line(&mut lines, "post_install", &h.post_install);
                push_hook_line(&mut lines, "post_uninstall", &h.post_uninstall);
                push_hook_line(&mut lines, "clean", &h.clean);
            },
            None => {},
        }
        assert(lines@.map_values(|l: String| l@) =~= log_lines_model(self@));
        lines
    }
}

/// The file name of a package's configuration.
pub open spec fn config_file_name_model(package: Seq<char>) -> Seq<char> {
    package + ".toml"@
}

/// The file name of a package's configuration: its name and `.toml`.
pub fn config_file_name(package: &str) -> (r: String)
    ensures
        r@ == config_file_name_model(package@),
{
    strcat(package, ".toml")
}

/// What follows the package's name in a new configuration.
pub open spec fn template_tail() -> Seq<char> {
    " configuration\nupdate = \"live\" # no | live | tagged\n\n[hooks]\nbuild = \"make\"\ninstall = \"make install\"\nuninstall = \"make uninstall\"\npost_install = \"\"\npost_uninstall = \"\"\nclean = \"make clean\"\n    "@
}

/// The text of a new package configuration: a comment that names the package,
/// live updates, and the usual `make` hooks.
pub fn config_template(package: &str) -> (r: String)
    ensures
        r@ == "# "@ + package@ + template_tail(),
{
    strcat3(
        "# ",
        package,
        " configuration\nupdate = \"live\" # no | live | tagged\n\n[hooks]\nbuild = \"make\"\ninstall = \"make install\"\nuninstall = \"make uninstall\"\npost_install = \"\"\npost_uninstall = \"\"\nclean = \"make clean\"\n    ",
    )
}


/// A hook whose command line is blank runs nothing, and a hook that is not set
/// runs nothing either; both succeed when the configuration has hooks.
pub proof fn lemma_blank_hook_runs_nothing(c: ConfigModel, command: ConfigCommand)
    requires
        c.hooks is Some,
        match hook_of(c.hooks->0, command) {
            Some(line) => forall|k: int| 0 <= k < line.len() ==> crate::text::is_white(
                #[trigger] line[k],
            ),
            None => true,
        },
    ensures
        hook_argv_model(c, command) == Ok::<Seq<Seq<char>>, Seq<char>>(Seq::empty()),
{
    match hook_of(c.hooks->0, command) {
        Some(line) => {
            crate::text::lemma_words_are_clean(line);
            assert(words(line) =~= Seq::<Seq<char>>::empty());
        },
        None => {},
    }
}

/// A configuration without a `[hooks]` table runs no hook: every command fails
/// with "no hooks section".
pub proof fn lemma_no_hooks_section(c: ConfigModel, command: ConfigCommand)
    requires
        c.hooks is None,
    ensures
        hook_argv_model(c, command) == Err::<Seq<Seq<char>>, Seq<char>>("no hooks section"@),
{
}

} // verus!
