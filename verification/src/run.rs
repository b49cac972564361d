use vstd::prelude::*;

use crate::action::{Action, ActionModel, repo_name, repo_name_model, texts};
use crate::config::{
    config_file_name, config_file_name_model, config_template, hook_argv_model, log_lines_model,
    template_tail, Config, ConfigCommand, ConfigModel, TEMP_CONFIG_PATH,
};
use crate::text::{join_path, joined, path_join, strcat, strcat3};
use crate::util::{
    choose_editor, collect_model, collect_named_packages, collected_message_model,
    collected_packages_message, config_path_of, list_model, names_of, package_paths,
    prompt_text, repo_path_of, PackageEntry, PackageList, BASE_CONFIG_PATH, BASE_REPO_PATH,
};

verus! {

// ---------------------------------------------------------------------------
// What a run asks of its caller, and what the caller answers

/// A change to the file system or a repository that the caller carries out.
pub enum IoOp {
    /// Create the directory and its parents, unless it exists.
    EnsureDir(String),
    /// Write the file (path, contents).
    WriteFile(String, String),
    /// Move a file (from, to).
    Rename(String, String),
    /// Remove a directory and all it holds.
    RemoveDir(String),
    /// Remove a file.
    RemoveFile(String),
    /// Fetch the repository's current branch from `origin` and fast-forward to it.
    Pull(String),
    /// Print each installed package with its commit.
    ListInstalled,
    /// Print the program's version banner.
    ShowVersion,
}

/// How a spawned program ended.
pub enum SpawnOutcome {
    /// It ran; `status` is how its exit status reads.
    Exited { success: bool, status: String },
    /// It could not be started; the text says why.
    Failed(String),
}

/// What the caller must do next.
pub enum Effect {
    /// Print the text and a line break; answered by [`Event::Ack`].
    Print(String),
    /// Print the prompt and read a line; answered by [`Event::Answer`].
    Confirm(String),
    /// List the configuration directory: one entry per file, its stem or the error
    /// met on it; answered by [`Event::Scanned`].
    ScanConfigDir,
    /// Tell, for each (repository, configuration) pair, whether both exist;
    /// answered by [`Event::Probed`] with one flag per pair.
    Probe(Vec<(String, String)>),
    /// Print the total size of these directories; answered by [`Event::Ack`].
    ReportSize(Vec<String>),
    /// Read and parse the configuration file; answered by [`Event::Loaded`].
    LoadConfig(String),
    /// Run the program with the arguments, in `dir` when given; answered by [`Event::Ran`].
    Spawn { program: String, args: Vec<String>, dir: Option<String> },
    /// Carry out the change; answered by [`Event::Done`].
    Io(IoOp),
    /// Read `$VISUAL` and `$EDITOR`; answered by [`Event::Editor`].
    LookupEditor,
    /// Clone the repository at `url` into `path`; answered by [`Event::Cloned`].
    Clone { url: String, path: String },
    /// The run is over, with this result.
    Finish(Result<(), String>),
}

/// The caller's answer to an [`Effect`].
pub enum Event {
    Ack,
    Answer(bool),
    Scanned(Result<Vec<Result<String, String>>, String>),
    Probed(Vec<bool>),
    Loaded(Option<Config>),
    Ran(SpawnOutcome),
    Done(Result<(), String>),
    Editor(Option<String>, Option<String>),
    Cloned(Result<String, String>),
}

/// What is done with each package once the user has agreed.
#[derive(Clone, Copy, Debug, PartialEq, Eq, Structural)]
pub enum Plan {
    Update,
    Upgrade,
    Remove,
    Clean,
}

/// One step of a run.
pub enum Job {
    /// Print a line.
    Say(String),
    /// Ask a yes/no question; a no ends the run successfully.
    Ask(String),
    /// Carry out a change; a failure ends the run with `fail` followed by its reason.
    Io { op: IoOp, fail: String },
    /// Run a hook of the configuration in the repository.
    Hook { config: String, repo: String, command: ConfigCommand },
    /// Open the file in the user's editor.
    Edit(String),
    /// Clone a repository.
    Clone { url: String, path: String, name: String },
    /// Print where the cloned repository is.
    AnnounceRepo,
    /// Print the configuration file's settings.
    ShowConfig(String),
    /// Print the total size of these directories.
    ReportSize(Vec<String>),
    /// Collect the installed packages (those named, or all configured ones), then
    /// go on with the plan for them.
    Gather { names: Option<Vec<String>>, plan: Plan },
}

/// Where the current job is.
pub enum Wait {
    /// It has not asked anything yet.
    Fresh,
    /// It runs a program.
    Spawning { program: String, args: Vec<String> },
    /// It checks which of `names` are installed; `error` is the failure met after them.
    Probing { names: Vec<String>, error: Option<String> },
    /// It prints a text.
    Printing(String),
}

/// A run of an action: the jobs it does, the job it is at, and its outcome once over.
pub struct Run {
    jobs: Vec<Job>,
    pc: usize,
    wait: Wait,
    cloned: String,
    outcome: Option<Result<(), String>>,
}

// ---------------------------------------------------------------------------
// Models

pub enum IoOpModel {
    EnsureDir(Seq<char>),
    WriteFile(Seq<char>, Seq<char>),
    Rename(Seq<char>, Seq<char>),
    RemoveDir(Seq<char>),
    RemoveFile(Seq<char>),
    Pull(Seq<char>),
    ListInstalled,
    ShowVersion,
}

pub enum SpawnOutcomeModel {
    Exited { success: bool, status: Seq<char> },
    Failed(Seq<char>),
}

pub enum EffectModel {
    Print(Seq<char>),
    Confirm(Seq<char>),
    ScanConfigDir,
    Probe(Seq<(Seq<char>, Seq<char>)>),
    ReportSize(Seq<Seq<char>>),
    LoadConfig(Seq<char>),
    Spawn { program: Seq<char>, args: Seq<Seq<char>>, dir: Option<Seq<char>> },
    Io(IoOpModel),
    LookupEditor,
    Clone { url: Seq<char>, path: Seq<char> },
    Finish(Result<(), Seq<char>>),
}

pub enum EventModel {
    Ack,
    Answer(bool),
    Scanned(Result<Seq<Result<Seq<char>, Seq<char>>>, Seq<char>>),
    Probed(Seq<bool>),
    Loaded(Option<ConfigModel>),
    Ran(SpawnOutcomeModel),
    Done(Result<(), Seq<char>>),
    Editor(Option<Seq<char>>, Option<Seq<char>>),
    Cloned(Result<Seq<char>, Seq<char>>),
}

pub enum JobModel {
    Say(Seq<char>),
    Ask(Seq<char>),
    Io { op: IoOpModel, fail: Seq<char> },
    Hook { config: Seq<char>, repo: Seq<char>, command: ConfigCommand },
    Edit(Seq<char>),
    Clone { url: Seq<char>, path: Seq<char>, name: Seq<char> },
    AnnounceRepo,
    ShowConfig(Seq<char>),
    ReportSize(Seq<Seq<char>>),
    Gather { names: Option<Seq<Seq<char>>>, plan: Plan },
}

pub enum WaitModel {
    Fresh,
    Spawning { program: Seq<char>, args: Seq<Seq<char>> },
    Probing { names: Seq<Seq<char>>, error: Option<Seq<char>> },
    Printing(Seq<char>),
}

pub struct RunModel {
    pub jobs: Seq<JobModel>,
    pub pc: int,
    pub wait: WaitModel,
    pub cloned: Seq<char>,
    pub outcome: Option<Result<(), Seq<char>>>,
}

pub open spec fn opt_text(o: Option<String>) -> Option<Seq<char>> {
    match o {
        Some(s) => Some(s@),
        None => None,
    }
}

pub open spec fn unit_result(r: Result<(), String>) -> Result<(), Seq<char>> {
    match r {
        Ok(_) => Ok(()),
        Err(e) => Err(e@),
    }
}

pub open spec fn text_result(r: Result<String, String>) -> Result<Seq<char>, Seq<char>> {
    match r {
        Ok(s) => Ok(s@),
        Err(e) => Err(e@),
    }
}

pub open spec fn pairs(v: Seq<(String, String)>) -> Seq<(Seq<char>, Seq<char>)> {
    v.map_values(|p: (String, String)| (p.0@, p.1@))
}

pub open spec fn text_results(v: Seq<Result<String, String>>) -> Seq<Result<Seq<char>, Seq<char>>> {
    v.map_values(|r: Result<String, String>| text_result(r))
}

impl View for IoOp {
    type V = IoOpModel;

    open spec fn view(&self) -> IoOpModel {
        match self {
            IoOp::EnsureDir(p) => IoOpModel::EnsureDir(p@),
            IoOp::WriteFile(p, c) => IoOpModel::WriteFile(p@, c@),
            IoOp::Rename(a, b) => IoOpModel::Rename(a@, b@),
            IoOp::RemoveDir(p) => IoOpModel::RemoveDir(p@),
            IoOp::RemoveFile(p) => IoOpModel::RemoveFile(p@),
            IoOp::Pull(p) => IoOpModel::Pull(p@),
            IoOp::ListInstalled => IoOpModel::ListInstalled,
            IoOp::ShowVersion => IoOpModel::ShowVersion,
        }
    }
}

impl View for SpawnOutcome {
    type V = SpawnOutcomeModel;

    open spec fn view(&self) -> SpawnOutcomeModel {
        match self {
            SpawnOutcome::Exited { success, status } => SpawnOutcomeModel::Exited {
                success: *success,
                status: status@,
            },
            SpawnOutcome::Failed(e) => SpawnOutcomeModel::Failed(e@),
        }
    }
}

impl View for Effect {
    type V = EffectModel;

    open spec fn view(&self) -> EffectModel {
        match self {
            Effect::Print(t) => EffectModel::Print(t@),
            Effect::Confirm(t) => EffectModel::Confirm(t@),
            Effect::ScanConfigDir => EffectModel::ScanConfigDir,
            Effect::Probe(v) => EffectModel::Probe(pairs(v@)),
            Effect::ReportSize(v) => EffectModel::ReportSize(texts(v@)),
            Effect::LoadConfig(p) => EffectModel::LoadConfig(p@),
            Effect::Spawn { program, args, dir } => EffectModel::Spawn {
                program: program@,
                args: texts(args@),
                dir: opt_text(*dir),
            },
            Effect::Io(op) => EffectModel::Io(op@),
            Effect::LookupEditor => EffectModel::LookupEditor,
            Effect::Clone { url, path } => EffectModel::Clone { url: url@, path: path@ },
            Effect::Finish(r) => EffectModel::Finish(unit_result(*r)),
        }
    }
}

impl View for Event {
    type V = EventModel;

    open spec fn view(&self) -> EventModel {
        match self {
            Event::Ack => EventModel::Ack,
            Event::Answer(b) => EventModel::Answer(*b),
            Event::Scanned(r) => EventModel::Scanned(
                match r {
                    Ok(v) => Ok(text_results(v@)),
                    Err(e) => Err(e@),
                },
            ),
            Event::Probed(v) => EventModel::Probed(v@),
            Event::Loaded(c) => EventModel::Loaded(
                match c {
                    Some(c) => Some(c@),
                    None => None,
                },
            ),
            Event::Ran(o) => EventModel::Ran(o@),
            Event::Done(r) => EventModel::Done(unit_result(*r)),
            Event::Editor(v, e) => EventModel::Editor(opt_text(*v), opt_text(*e)),
            Event::Cloned(r) => EventModel::Cloned(text_result(*r)),
        }
    }
}

impl View for Job {
    type V = JobModel;

    open spec fn view(&self) -> JobModel {
        match self {
            Job::Say(t) => JobModel::Say(t@),
            Job::Ask(q) => JobModel::Ask(q@),
            Job::Io { op, fail } => JobModel::Io { op: op@, fail: fail@ },
            Job::Hook { config, repo, command } => JobModel::Hook {
                config: config@,
                repo: repo@,
                command: *command,
            },
            Job::Edit(f) => JobModel::Edit(f@),
            Job::Clone { url, path, name } => JobModel::Clone {
                url: url@,
                path: path@,
                name: name@,
            },
            Job::AnnounceRepo => JobModel::AnnounceRepo,
            Job::ShowConfig(p) => JobModel::ShowConfig(p@),
            Job::ReportSize(v) => JobModel::ReportSize(texts(v@)),
            Job::Gather { names, plan } => JobModel::Gather {
                names: match names {
                    Some(v) => Some(texts(v@)),
                    None => None,
                },
                plan: *plan,
            },
        }
    }
}

impl View for Wait {
    type V = WaitModel;

    open spec fn view(&self) -> WaitModel {
        match self {
            Wait::Fresh => WaitModel::Fresh,
            Wait::Spawning { program, args } => WaitModel::Spawning {
                program: program@,
                args: texts(args@),
            },
            Wait::Probing { names, error } => WaitModel::Probing {
                names: texts(names@),
                error: opt_text(*error),
            },
            Wait::Printing(t) => WaitModel::Printing(t@),
        }
    }
}

pub open spec fn jobs_model(v: Seq<Job>) -> Seq<JobModel> {
    v.map_values(|j: Job| j@)
}

impl View for Run {
    type V = RunModel;

    closed spec fn view(&self) -> RunModel {
        RunModel {
            jobs: jobs_model(self.jobs@),
            pc: self.pc as int,
            wait: self.wait@,
            cloned: self.cloned@,
            outcome: match self.outcome {
                Some(r) => Some(unit_result(r)),
                None => None,
            },
        }
    }
}


// ---------------------------------------------------------------------------
// The scripts of the actions

/// The message with which removing a package fails.
pub open spec fn removal_failure(name: Seq<char>) -> Seq<char> {
    "failed to remove "@ + name + ": "@
}

/// What is printed, shown and asked before the plan's work on the packages `l`.
pub open spec fn plan_header(plan: Plan, l: Seq<PackageEntry>) -> Seq<JobModel> {
    let names = names_of(l);
    match plan {
        Plan::Update => seq![
            JobModel::Say(collected_message_model(names, "Packages to update"@)),
            JobModel::Ask("Proceed with update?"@),
        ],
        Plan::Upgrade => seq![
            JobModel::Say(collected_message_model(names, "Packages to upgrade"@)),
            JobModel::Ask("Proceed with upgrade?"@),
        ],
        Plan::Remove => seq![
            JobModel::Say(collected_message_model(names, "Packages to remove"@)),
            JobModel::ReportSize(l.map_values(|e: PackageEntry| e.1)),
            JobModel::Ask("Proceed with removal?"@),
        ],
        Plan::Clean => seq![
            JobModel::Say(collected_message_model(names, "Packages to clean"@)),
            JobModel::Ask("Proceed with cleanup?"@),
        ],
    }
}

/// The work that the plan does on one package (name, repository, configuration).
pub open spec fn package_jobs(plan: Plan, e: PackageEntry) -> Seq<JobModel> {
    match plan {
        Plan::Update => seq![
            JobModel::Io { op: IoOpModel::Pull(e.1), fail: "failed to update repo: "@ },
            JobModel::Say(e.0 + " up to date."@),
        ],
        Plan::Upgrade => seq![
            JobModel::Hook { config: e.2, repo: e.1, command: ConfigCommand::Build },
            JobModel::Hook { config: e.2, repo: e.1, command: ConfigCommand::Install },
            JobModel::Say("Upgraded "@ + e.0),
        ],
        Plan::Remove => seq![
            JobModel::Hook { config: e.2, repo: e.1, command: ConfigCommand::Uninstall },
            JobModel::Io { op: IoOpModel::RemoveDir(e.1), fail: removal_failure(e.0) },
            JobModel::Io { op: IoOpModel::RemoveFile(e.2), fail: removal_failure(e.0) },
            JobModel::Say("Removed "@ + e.0),
        ],
        Plan::Clean => seq![
            JobModel::Hook { config: e.2, repo: e.1, command: ConfigCommand::Clean },
            JobModel::Say("Cleaned "@ + e.0),
        ],
    }
}

/// The plan's work on each package of `l`, one package after another.
pub open spec fn per_package(plan: Plan, l: Seq<PackageEntry>) -> Seq<JobModel>
    decreases l.len(),
{
    if l.len() == 0 {
        Seq::empty()
    } else {
        per_package(plan, l.drop_last()) + package_jobs(plan, l.last())
    }
}

/// Everything a plan does once its packages are collected.
pub open spec fn plan_jobs(plan: Plan, l: Seq<PackageEntry>) -> Seq<JobModel> {
    plan_header(plan, l) + per_package(plan, l)
}

/// The steps of adding the package whose repository is at `url`: write a
/// configuration from the template and let the user edit it, clone the
/// repository, move the configuration in place, and, if the user agrees, build
/// and install.
pub open spec fn add_script(url: Seq<char>) -> Seq<JobModel> {
    let name = repo_name_model(url);
    let file = config_file_name_model(name);
    let temp = TEMP_CONFIG_PATH@ + "/"@ + file;
    let repo = path_join(BASE_REPO_PATH@, name);
    let config = path_join(BASE_CONFIG_PATH@, file);
    seq![
        JobModel::Say("Creating config: "@ + file),
        JobModel::Io {
            op: IoOpModel::EnsureDir(TEMP_CONFIG_PATH@),
            fail: "failed to create temp config directory: "@,
        },
        JobModel::Io {
            op: IoOpModel::WriteFile(path_join(TEMP_CONFIG_PATH@, file), "# "@ + name + template_tail()),
            fail: "failed to create config: "@,
        },
        JobModel::Edit(temp),
        JobModel::Clone { url: url, path: repo, name: name },
        JobModel::Io {
            op: IoOpModel::EnsureDir(BASE_CONFIG_PATH@),
            fail: "failed to create config directory: "@,
        },
        JobModel::Io {
            op: IoOpModel::Rename(temp, config),
            fail: "failed to place config in system directory: "@,
        },
        JobModel::AnnounceRepo,
        JobModel::Ask("Run build and install commands?"@),
        JobModel::Say("Building..."@),
        JobModel::Hook { config: config, repo: repo, command: ConfigCommand::Build },
        JobModel::Say("Installing..."@),
        JobModel::Hook { config: config, repo: repo, command: ConfigCommand::Install },
    ]
}

/// The packages to gather for `upgrade` and `clean`: all when none is named.
pub open spec fn named_or_all(packages: Seq<Seq<char>>) -> Option<Seq<Seq<char>>> {
    if packages.len() == 0 {
        None
    } else {
        Some(packages)
    }
}

/// The steps with which an action starts.
pub open spec fn script_of(a: ActionModel) -> Seq<JobModel> {
    match a {
        ActionModel::Add { url } => add_script(url),
        ActionModel::Update => seq![JobModel::Gather { names: None, plan: Plan::Update }],
        ActionModel::Upgrade { packages } => seq![
            JobModel::Gather { names: named_or_all(packages), plan: Plan::Upgrade },
        ],
        ActionModel::Remove { packages } => seq![
            JobModel::Say("Checking dependencies...\n"@),
            JobModel::Gather { names: Some(packages), plan: Plan::Remove },
        ],
        ActionModel::List => seq![JobModel::Io { op: IoOpModel::ListInstalled, fail: ""@ }],
        ActionModel::Search { term } => seq![JobModel::Say("searching: "@ + term)],
        ActionModel::Clean { packages } => seq![
            JobModel::Gather { names: named_or_all(packages), plan: Plan::Clean },
        ],
        ActionModel::Show { package } => seq![
            JobModel::ShowConfig(path_join(BASE_CONFIG_PATH@, package + ".toml"@)),
        ],
        ActionModel::Version => seq![JobModel::Io { op: IoOpModel::ShowVersion, fail: ""@ }],
    }
}

/// The actions that may only be carried out by root.
pub open spec fn needs_root(a: ActionModel) -> bool {
    match a {
        ActionModel::Add { .. } => true,
        ActionModel::Update => true,
        ActionModel::Upgrade { .. } => true,
        ActionModel::Remove { .. } => true,
        ActionModel::List => true,
        ActionModel::Clean { .. } => true,
        _ => false,
    }
}

/// The command word of an action that needs root.
pub open spec fn command_word(a: ActionModel) -> Seq<char> {
    match a {
        ActionModel::Add { .. } => "add"@,
        ActionModel::Update => "update"@,
        ActionModel::Upgrade { .. } => "upgrade"@,
        ActionModel::Remove { .. } => "remove"@,
        ActionModel::List => "list"@,
        ActionModel::Clean { .. } => "clean"@,
        _ => ""@,
    }
}

/// Where a job starts: collecting named packages starts by checking them.
pub open spec fn entry_wait(j: JobModel) -> WaitModel {
    match j {
        JobModel::Gather { names: Some(ns), .. } => WaitModel::Probing { names: ns, error: None },
        _ => WaitModel::Fresh,
    }
}

/// Where the job at `i` starts, if there is one.
pub open spec fn wait_at(jobs: Seq<JobModel>, i: int) -> WaitModel {
    if 0 <= i < jobs.len() {
        entry_wait(jobs[i])
    } else {
        WaitModel::Fresh
    }
}

/// The run of action `a` before anything has happened, for a user who is root
/// or not: it fails at once when the action needs root and the user is not.
pub open spec fn start_model(a: ActionModel, is_root: bool) -> RunModel {
    if needs_root(a) && !is_root {
        RunModel {
            jobs: Seq::empty(),
            pc: 0,
            wait: WaitModel::Fresh,
            cloned: Seq::empty(),
            outcome: Some(Err(command_word(a) + " must be run as root"@)),
        }
    } else {
        RunModel {
            jobs: script_of(a),
            pc: 0,
            wait: wait_at(script_of(a), 0),
            cloned: Seq::empty(),
            outcome: None,
        }
    }
}

// ---------------------------------------------------------------------------
// Transitions

/// The run is over: it has an outcome, or no job is left.
pub open spec fn is_over(s: RunModel) -> bool {
    s.outcome is Some || s.pc < 0 || s.pc >= s.jobs.len()
}

/// The run moved on to its next job.
pub open spec fn advanced(s: RunModel) -> RunModel {
    RunModel {
        jobs: s.jobs,
        pc: s.pc + 1,
        wait: wait_at(s.jobs, s.pc + 1),
        cloned: s.cloned,
        outcome: s.outcome,
    }
}

/// The run with its current job at `w`.
pub open spec fn waiting(s: RunModel, w: WaitModel) -> RunModel {
    RunModel { jobs: s.jobs, pc: s.pc, wait: w, cloned: s.cloned, outcome: s.outcome }
}

/// The run ended with `r`.
pub open spec fn ended(s: RunModel, r: Result<(), Seq<char>>) -> RunModel {
    RunModel { jobs: s.jobs, pc: s.pc, wait: s.wait, cloned: s.cloned, outcome: Some(r) }
}

/// The names before the first failed entry of a scan.
pub open spec fn ok_prefix(entries: Seq<Result<Seq<char>, Seq<char>>>) -> Seq<Seq<char>>
    decreases entries.len(),
{
    if entries.len() == 0 {
        Seq::empty()
    } else {
        match entries[0] {
            Ok(n) => seq![n] + ok_prefix(entries.drop_first()),
            Err(_) => Seq::empty(),
        }
    }
}

/// The failure of the first failed entry of a scan, if any.
pub open spec fn first_error(entries: Seq<Result<Seq<char>, Seq<char>>>) -> Option<Seq<char>>
    decreases entries.len(),
{
    if entries.len() == 0 {
        None
    } else {
        match entries[0] {
            Ok(_) => first_error(entries.drop_first()),
            Err(m) => Some(m),
        }
    }
}

/// The editor that `$VISUAL` and `$EDITOR` select.
pub open spec fn chosen_editor(visual: Option<Seq<char>>, editor: Option<Seq<char>>) -> Seq<char> {
    match visual {
        Some(v) => v,
        None => match editor {
            Some(e) => e,
            None => "nano"@,
        },
    }
}

/// The pairs (repository, configuration) to check for the packages `names`.
pub open spec fn probe_pairs(names: Seq<Seq<char>>) -> Seq<(Seq<char>, Seq<char>)> {
    names.map_values(|n: Seq<char>| (repo_path_of(n), config_path_of(n)))
}

/// What the caller is asked to do in the state `s`.
pub open spec fn effect_of(s: RunModel) -> EffectModel {
    match s.outcome {
        Some(r) => EffectModel::Finish(r),
        None => if s.pc < 0 || s.pc >= s.jobs.len() {
            EffectModel::Finish(Ok(()))
        } else {
            let j = s.jobs[s.pc];
            match s.wait {
                WaitModel::Printing(t) => EffectModel::Print(t),
                WaitModel::Spawning { program, args } => EffectModel::Spawn {
                    program: program,
                    args: args,
                    dir: match j {
                        JobModel::Hook { repo, .. } => Some(repo),
                        _ => None,
                    },
                },
                WaitModel::Probing { names, .. } => EffectModel::Probe(probe_pairs(names)),
                WaitModel::Fresh => match j {
                    JobModel::Say(t) => EffectModel::Print(t),
                    JobModel::Ask(q) => EffectModel::Confirm(q + " [y/n]: "@),
                    JobModel::Io { op, .. } => EffectModel::Io(op),
                    JobModel::Hook { config, .. } => EffectModel::LoadConfig(config),
                    JobModel::Edit(_) => EffectModel::LookupEditor,
                    JobModel::Clone { url, path, .. } => EffectModel::Clone { url: url, path: path },
                    JobModel::AnnounceRepo => EffectModel::Print(
                        "New package initialized at: "@ + s.cloned + "\n"@,
                    ),
                    JobModel::ShowConfig(p) => EffectModel::LoadConfig(p),
                    JobModel::ReportSize(ps) => EffectModel::ReportSize(ps),
                    JobModel::Gather { .. } => EffectModel::ScanConfigDir,
                },
            }
        },
    }
}

/// The state after a program that the current job spawned ended with `o`.
pub open spec fn after_spawn(s: RunModel, j: JobModel, o: SpawnOutcomeModel) -> RunModel {
    match j {
        JobModel::Hook { .. } => match o {
            SpawnOutcomeModel::Failed(m) => ended(s, Err("failed to execute command: "@ + m)),
            SpawnOutcomeModel::Exited { success, status } => if success {
                advanced(s)
            } else {
                ended(s, Err("command exited with non-zero status: "@ + status))
            },
        },
        JobModel::Edit(_) => match o {
            SpawnOutcomeModel::Failed(m) => ended(s, Err("failed to execute editor: "@ + m)),
            SpawnOutcomeModel::Exited { success, status } => if success {
                advanced(s)
            } else {
                ended(s, Err("editor exited with non-zero status: "@ + status))
            },
        },
        _ => s,
    }
}

/// The state after the current job loaded a configuration (`None`: none found).
pub open spec fn after_load(s: RunModel, j: JobModel, c: Option<ConfigModel>) -> RunModel {
    match j {
        JobModel::Hook { command, .. } => match c {
            None => ended(s, Err("config not found"@)),
            Some(cm) => match hook_argv_model(cm, command) {
                Err(m) => ended(s, Err(m)),
                Ok(argv) => if argv.len() == 0 {
                    advanced(s)
                } else {
                    waiting(s, WaitModel::Spawning { program: argv[0], args: argv.skip(1) })
                },
            },
        },
        JobModel::ShowConfig(_) => match c {
            None => ended(s, Err("config not found"@)),
            Some(cm) => if log_lines_model(cm).len() == 0 {
                advanced(s)
            } else {
                waiting(s, WaitModel::Printing(joined(log_lines_model(cm), "\n"@)))
            },
        },
        _ => s,
    }
}

/// The state after the installed ones among `names` were told by `v`.
pub open spec fn after_probe(
    s: RunModel,
    plan: Plan,
    names: Seq<Seq<char>>,
    error: Option<Seq<char>>,
    v: Seq<bool>,
) -> RunModel {
    match collect_model(names, v) {
        Err(m) => ended(s, Err(m)),
        Ok(l) => match error {
            Some(m) => ended(s, Err(m)),
            None => advanced(
                RunModel {
                    jobs: s.jobs + plan_jobs(plan, l),
                    pc: s.pc,
                    wait: s.wait,
                    cloned: s.cloned,
                    outcome: s.outcome,
                },
            ),
        },
    }
}

/// The state after the caller answers `e` in the state `s`. An event that does
/// not answer what `s` asks leaves it as it is.
pub open spec fn next(s: RunModel, e: EventModel) -> RunModel {
    if is_over(s) {
        s
    } else {
        let j = s.jobs[s.pc];
        match e {
            EventModel::Ack => match s.wait {
                WaitModel::Printing(_) => advanced(s),
                WaitModel::Fresh => match j {
                    JobModel::Say(_) => advanced(s),
                    JobModel::AnnounceRepo => advanced(s),
                    JobModel::ReportSize(_) => advanced(s),
                    _ => s,
                },
                _ => s,
            },
            EventModel::Answer(yes) => match s.wait {
                WaitModel::Fresh => match j {
                    JobModel::Ask(_) => if yes {
                        advanced(s)
                    } else {
                        ended(s, Ok(()))
                    },
                    _ => s,
                },
                _ => s,
            },
            EventModel::Done(r) => match s.wait {
                WaitModel::Fresh => match j {
                    JobModel::Io { fail, .. } => match r {
                        Ok(_) => advanced(s),
                        Err(m) => ended(s, Err(fail + m)),
                    },
                    _ => s,
                },
                _ => s,
            },
            EventModel::Loaded(c) => match s.wait {
                WaitModel::Fresh => after_load(s, j, c),
                _ => s,
            },
            EventModel::Ran(o) => match s.wait {
                WaitModel::Spawning { .. } => after_spawn(s, j, o),
                _ => s,
            },
            EventModel::Editor(v, ed) => match s.wait {
                WaitModel::Fresh => match j {
                    JobModel::Edit(file) => waiting(
                        s,
                        WaitModel::Spawning { program: chosen_editor(v, ed), args: seq![file] },
                    ),
                    _ => s,
                },
                _ => s,
            },
            EventModel::Cloned(r) => match s.wait {
                WaitModel::Fresh => match j {
                    JobModel::Clone { name, .. } => match r {
                        Ok(p) => advanced(
                            RunModel {
                                jobs: s.jobs,
                                pc: s.pc,
                                wait: s.wait,
                                cloned: p,
                                outcome: s.outcome,
                            },
                        ),
                        Err(m) => ended(s, Err("failed to clone "@ + name + ": "@ + m)),
                    },
                    _ => s,
                },
                _ => s,
            },
            EventModel::Scanned(r) => match s.wait {
                WaitModel::Fresh => match j {
                    JobModel::Gather { names: None, .. } => match r {
                        Err(m) => ended(s, Err(m)),
                        Ok(entries) => waiting(
                            s,
                            WaitModel::Probing {
                                names: ok_prefix(entries),
                                error: first_error(entries),
                            },
                        ),
                    },
                    _ => s,
                },
                _ => s,
            },
            EventModel::Probed(v) => match s.wait {
                WaitModel::Probing { names, error } => match j {
                    JobModel::Gather { plan, .. } => if v.len() == names.len() {
                        after_probe(s, plan, names, error, v)
                    } else {
                        s
                    },
                    _ => s,
                },
                _ => s,
            },
        }
    }
}


// ---------------------------------------------------------------------------
// Copies

fn clone_strings(v: &Vec<String>) -> (r: Vec<String>)
    ensures
        texts(r@) == texts(v@),
{
    let mut r: Vec<String> = Vec::new();
    let mut i: usize = 0;
    while i < v.len()
        invariant
            i <= v@.len(),
            texts(r@) == texts(v@).take(i as int),
        decreases v@.len() - i,
    {
        let ghost before = r@;
        r.push(v[i].clone());
        assert(texts(r@) =~= texts(before).push(v@[i as int]@));
        assert(texts(r@) =~= texts(v@).take(i + 1));
        i = i + 1;
    }
    assert(texts(v@).take(v@.len() as int) =~= texts(v@));
    r
}

fn clone_opt(o: &Option<String>) -> (r: Option<String>)
    ensures
        opt_text(r) == opt_text(*o),
{
    match o {
        Some(s) => Some(s.clone()),
        None => None,
    }
}

fn clone_unit_result(r: &Result<(), String>) -> (c: Result<(), String>)
    ensures
        unit_result(c) == unit_result(*r),
{
    match r {
        Ok(_) => Ok(()),
        Err(e) => Err(e.clone()),
    }
}

fn clone_io(op: &IoOp) -> (r: IoOp)
    ensures
        r@ == op@,
{
    match op {
        IoOp::EnsureDir(p) => IoOp::EnsureDir(p.clone()),
        IoOp::WriteFile(p, c) => IoOp::WriteFile(p.clone(), c.clone()),
        IoOp::Rename(a, b) => IoOp::Rename(a.clone(), b.clone()),
        IoOp::RemoveDir(p) => IoOp::RemoveDir(p.clone()),
        IoOp::RemoveFile(p) => IoOp::RemoveFile(p.clone()),
        IoOp::Pull(p) => IoOp::Pull(p.clone()),
        IoOp::ListInstalled => IoOp::ListInstalled,
        IoOp::ShowVersion => IoOp::ShowVersion,
    }
}

/// The (repository, configuration) pairs of the packages `names`.
fn probe_pairs_of(names: &Vec<String>) -> (r: Vec<(String, String)>)
    ensures
        pairs(r@) == probe_pairs(texts(names@)),
{
    let mut r: Vec<(String, String)> = Vec::new();
    let mut i: usize = 0;
    while i < names.len()
        invariant
            i <= names@.len(),
            pairs(r@) == probe_pairs(texts(names@).take(i as int)),
        decreases names@.len() - i,
    {
        let p = package_paths(names[i].as_str());
        let ghost before = r@;
        r.push(p);
        assert(pairs(r@) =~= pairs(before).push((p.0@, p.1@)));
        assert(texts(names@).take(i + 1) =~= texts(names@).take(i as int).push(names@[i as int]@));
        assert(pairs(r@) =~= probe_pairs(texts(names@).take(i + 1)));
        i = i + 1;
    }
    assert(texts(names@).take(names@.len() as int) =~= texts(names@));
    r
}

fn entry_wait_of(j: &Job) -> (w: Wait)
    ensures
        w@ == entry_wait(j@),
{
    match j {
        Job::Gather { names: Some(ns), .. } => Wait::Probing { names: clone_strings(ns), error: None },
        _ => Wait::Fresh,
    }
}

impl Run {
    proof fn lemma_len(&self)
        ensures
            self@.jobs.len() == self.jobs@.len(),
            self@.pc == self.pc as int,
    {
    }

    proof fn lemma_job_view(&self, i: int)
        requires
            0 <= i < self.jobs@.len(),
        ensures
            self@.jobs[i] == self.jobs@[i]@,
            self@.jobs.len() == self.jobs@.len(),
    {
    }

    /// What the caller is asked to do now.
    pub fn pending(&self) -> (r: Effect)
        ensures
            r@ == effect_of(self@),
    {
        match &self.outcome {
            Some(r) => {
                return Effect::Finish(clone_unit_result(r));
            },
            None => {},
        }
        if self.pc >= self.jobs.len() {
            return Effect::Finish(Ok(()));
        }
        proof {
            self.lemma_job_view(self.pc as int);
        }
        let j = &self.jobs[self.pc];
        match &self.wait {
            Wait::Printing(t) => Effect::Print(t.clone()),
            Wait::Spawning { program, args } => {
                let dir = match j {
                    Job::Hook { repo, .. } => Some(repo.clone()),
                    _ => None,
                };
                Effect::Spawn { program: program.clone(), args: clone_strings(args), dir }
            },
            Wait::Probing { names, .. } => Effect::Probe(probe_pairs_of(names)),
            Wait::Fresh => match j {
                Job::Say(t) => Effect::Print(t.clone()),
                Job::Ask(q) => Effect::Confirm(prompt_text(q.as_str())),
                Job::Io { op, .. } => Effect::Io(clone_io(op)),
                Job::Hook { config, .. } => Effect::LoadConfig(config.clone()),
                Job::Edit(_) => Effect::LookupEditor,
                Job::Clone { url, path, .. } => Effect::Clone { url: url.clone(), path: path.clone() },
                Job::AnnounceRepo => Effect::Print(
                    strcat3("New package initialized at: ", self.cloned.as_str(), "\n"),
                ),
                Job::ShowConfig(p) => Effect::LoadConfig(p.clone()),
                Job::ReportSize(ps) => Effect::ReportSize(clone_strings(ps)),
                Job::Gather { .. } => Effect::ScanConfigDir,
            },
        }
    }

    /// Moves on to the next job.
    fn advance(&mut self)
        requires
            !is_over(old(self)@),
        ensures
            final(self)@ == advanced(old(self)@),
    {
        proof {
            self.lemma_len();
            assert(!is_over(self@));
        }
        let n = self.jobs.len();
        assert(self.pc < n);
        self.pc = self.pc + 1;
        if self.pc < self.jobs.len() {
            proof {
                self.lemma_job_view(self.pc as int);
            }
            self.wait = entry_wait_of(&self.jobs[self.pc]);
        } else {
            self.wait = Wait::Fresh;
        }
    }

    /// Ends the run with `r`.
    fn end_with(&mut self, r: Result<(), String>)
        ensures
            final(self)@ == ended(old(self)@, unit_result(r)),
    {
        self.outcome = Some(r);
    }

    /// Puts the current job at `w`.
    fn set_wait(&mut self, w: Wait)
        ensures
            final(self)@ == waiting(old(self)@, w@),
    {
        self.wait = w;
    }
}


// ---------------------------------------------------------------------------
// Building the scripts

fn say(t: &str) -> (j: Job)
    ensures
        j@ == JobModel::Say(t@),
{
    Job::Say(String::from_str(t))
}

fn ask(q: &str) -> (j: Job)
    ensures
        j@ == JobModel::Ask(q@),
{
    Job::Ask(String::from_str(q))
}

fn hook_job(config: &String, repo: &String, command: ConfigCommand) -> (j: Job)
    ensures
        j@ == (JobModel::Hook { config: config@, repo: repo@, command: command }),
{
    Job::Hook { config: config.clone(), repo: repo.clone(), command }
}

fn push_job(v: &mut Vec<Job>, j: Job)
    ensures
        jobs_model(final(v)@) == jobs_model(old(v)@).push(j@),
{
    let ghost jm = j@;
    v.push(j);
    assert(jobs_model(v@) =~= jobs_model(old(v)@).push(jm));
}

/// What is printed, shown and asked before the plan's work on `l`.
fn plan_header_jobs(plan: Plan, l: &PackageList) -> (r: Vec<Job>)
    ensures
        jobs_model(r@) == plan_header(plan, list_model(l@)),
{
    let mut r: Vec<Job> = Vec::new();
    let ghost lm = list_model(l@);
    match plan {
        Plan::Update => {
            push_job(&mut r, Job::Say(collected_packages_message(l, "Packages to update")));
            push_job(&mut r, ask("Proceed with update?"));
        },
        Plan::Upgrade => {
            push_job(&mut r, Job::Say(collected_packages_message(l, "Packages to upgrade")));
            push_job(&mut r, ask("Proceed with upgrade?"));
        },
        Plan::Remove => {
            push_job(&mut r, Job::Say(collected_packages_message(l, "Packages to remove")));
            let mut paths: Vec<String> = Vec::new();
            let mut i: usize = 0;
            while i < l.len()
                invariant
                    i <= l@.len(),
                    lm == list_model(l@),
                    texts(paths@) == lm.map_values(|e: PackageEntry| e.1).take(i as int),
                decreases l@.len() - i,
            {
                let ghost before = paths@;
                paths.push(l[i].1.clone());
                assert(texts(paths@) =~= texts(before).push(l@[i as int].1@));
                assert(lm[i as int].1 == l@[i as int].1@);
                assert(texts(paths@) =~= lm.map_values(|e: PackageEntry| e.1).take(i + 1));
                i = i + 1;
            }
            assert(lm.map_values(|e: PackageEntry| e.1).take(l@.len() as int) =~= lm.map_values(
                |e: PackageEntry| e.1,
            ));
            push_job(&mut r, Job::ReportSize(paths));
            push_job(&mut r, ask("Proceed with removal?"));
        },
        Plan::Clean => {
            push_job(&mut r, Job::Say(collected_packages_message(l, "Packages to clean")));
            push_job(&mut r, ask("Proceed with cleanup?"));
        },
    }
    assert(jobs_model(r@) =~= plan_header(plan, lm));
    r
}

/// Appends the plan's work on one package.
fn push_package_jobs(v: &mut Vec<Job>, plan: Plan, e: &(String, String, String))
    ensures
        jobs_model(final(v)@) == jobs_model(old(v)@) + package_jobs(plan, (e.0@, e.1@, e.2@)),
{
    let ghost start = jobs_model(v@);
    match plan {
        Plan::Update => {
            push_job(
                v,
                Job::Io {
                    op: IoOp::Pull(e.1.clone()),
                    fail: String::from_str("failed to update repo: "),
                },
            );
            push_job(v, Job::Say(strcat(e.0.as_str(), " up to date.")));
        },
        Plan::Upgrade => {
            push_job(v, hook_job(&e.2, &e.1, ConfigCommand::Build));
            push_job(v, hook_job(&e.2, &e.1, ConfigCommand::Install));
            push_job(v, Job::Say(strcat("Upgraded ", e.0.as_str())));
        },
        Plan::Remove => {
            push_job(v, hook_job(&e.2, &e.1, ConfigCommand::Uninstall));
            push_job(
                v,
                Job::Io {
                    op: IoOp::RemoveDir(e.1.clone()),
                    fail: strcat3("failed to remove ", e.0.as_str(), ": "),
                },
            );
            push_job(
                v,
                Job::Io {
                    op: IoOp::RemoveFile(e.2.clone()),
                    fail: strcat3("failed to remove ", e.0.as_str(), ": "),
                },
            );
            push_job(v, Job::Say(strcat("Removed ", e.0.as_str())));
        },
        Plan::Clean => {
            push_job(v, hook_job(&e.2, &e.1, ConfigCommand::Clean));
            push_job(v, Job::Say(strcat("Cleaned ", e.0.as_str())));
        },
    }
    assert(jobs_model(v@) =~= start + package_jobs(plan, (e.0@, e.1@, e.2@)));
}

/// Everything a plan does once its packages `l` are collected.
pub fn plan_jobs_for(plan: Plan, l: &PackageList) -> (r: Vec<Job>)
    ensures
        jobs_model(r@) == plan_jobs(plan, list_model(l@)),
{
    let ghost lm = list_model(l@);
    let mut r = plan_header_jobs(plan, l);
    let mut i: usize = 0;
    assert(per_package(plan, lm.take(0)) =~= Seq::<JobModel>::empty());
    assert(jobs_model(r@) =~= plan_header(plan, lm) + per_package(plan, lm.take(0)));
    while i < l.len()
        invariant
            i <= l@.len(),
            lm == list_model(l@),
            jobs_model(r@) == plan_header(plan, lm) + per_package(plan, lm.take(i as int)),
        decreases l@.len() - i,
    {
        push_package_jobs(&mut r, plan, &l[i]);
        proof {
            let t = lm.take(i + 1);
            assert(t.drop_last() =~= lm.take(i as int));
            assert(t.last() == (l@[i as int].0@, l@[i as int].1@, l@[i as int].2@));
        }
        assert(jobs_model(r@) =~= plan_header(plan, lm) + per_package(plan, lm.take(i + 1)));
        i = i + 1;
    }
    assert(lm.take(l@.len() as int) =~= lm);
    r
}


// ---------------------------------------------------------------------------
// Stepping

/// The names before the first failed entry of a scan, and the failure of that entry.
fn split_scan(entries: Vec<Result<String, String>>) -> (r: (Vec<String>, Option<String>))
    ensures
        texts(r.0@) == ok_prefix(text_results(entries@)),
        opt_text(r.1) == first_error(text_results(entries@)),
{
    let ghost all = text_results(entries@);
    let mut names: Vec<String> = Vec::new();
    let mut i: usize = 0;
    assert(all.skip(0) =~= all);
    while i < entries.len()
        invariant
            i <= entries@.len(),
            all == text_results(entries@),
            ok_prefix(all) == texts(names@) + ok_prefix(all.skip(i as int)),
            first_error(all) == first_error(all.skip(i as int)),
        decreases entries@.len() - i,
    {
        let ghost rest = all.skip(i as int);
        assert(rest[0] == text_result(entries@[i as int]));
        assert(rest.drop_first() =~= all.skip(i + 1));
        match &entries[i] {
            Ok(n) => {
                let ghost before = names@;
                names.push(n.clone());
                assert(texts(names@) =~= texts(before).push(n@));
                assert(texts(names@) + ok_prefix(all.skip(i + 1)) =~= texts(before) + (seq![n@]
                    + ok_prefix(all.skip(i + 1))));
            },
            Err(m) => {
                assert(ok_prefix(rest) =~= Seq::<Seq<char>>::empty());
                assert(texts(names@) + Seq::<Seq<char>>::empty() =~= texts(names@));
                return (names, Some(m.clone()));
            },
        }
        i = i + 1;
    }
    assert(all.skip(i as int) =~= Seq::<Result<Seq<char>, Seq<char>>>::empty());
    assert(texts(names@) + Seq::<Seq<char>>::empty() =~= texts(names@));
    (names, None)
}

impl Run {
    /// Takes the caller's answer `event` to what it was asked: moves the run on,
    /// or ends it. An event that does not answer what was asked changes nothing.
    pub fn step(&mut self, event: Event)
        ensures
            final(self)@ == next(old(self)@, event@),
    {
        proof {
            self.lemma_len();
        }
        if self.outcome.is_some() || self.pc >= self.jobs.len() {
            return;
        }
        match event {
            Event::Ack => self.on_ack(),
            Event::Answer(yes) => self.on_answer(yes),
            Event::Done(r) => self.on_done(r),
            Event::Loaded(c) => self.on_loaded(c),
            Event::Ran(o) => self.on_ran(o),
            Event::Editor(v, e) => self.on_editor(v, e),
            Event::Cloned(r) => self.on_cloned(r),
            Event::Scanned(r) => self.on_scanned(r),
            Event::Probed(v) => self.on_probed(v),
        }
    }

    fn on_ack(&mut self)
        requires
            !is_over(old(self)@),
        ensures
            final(self)@ == next(old(self)@, EventModel::Ack),
    {
        proof {
            self.lemma_len();
            self.lemma_job_view(self.pc as int);
        }
        let go = match &self.wait {
            Wait::Printing(_) => true,
            Wait::Fresh => match &self.jobs[self.pc] {
                Job::Say(_) => true,
                Job::AnnounceRepo => true,
                Job::ReportSize(_) => true,
                _ => false,
            },
            _ => false,
        };
        if go {
            self.advance();
        }
    }

    fn on_answer(&mut self, yes: bool)
        requires
            !is_over(old(self)@),
        ensures
            final(self)@ == next(old(self)@, EventModel::Answer(yes)),
    {
        proof {
            self.lemma_len();
            self.lemma_job_view(self.pc as int);
        }
        let asking = match &self.wait {
            Wait::Fresh => match &self.jobs[self.pc] {
                Job::Ask(_) => true,
                _ => false,
            },
            _ => false,
        };
        if asking {
            if yes {
                self.advance();
            } else {
                self.end_with(Ok(()));
            }
        }
    }

    fn on_done(&mut self, r: Result<(), String>)
        requires
            !is_over(old(self)@),
        ensures
            final(self)@ == next(old(self)@, EventModel::Done(unit_result(r))),
    {
        proof {
            self.lemma_len();
            self.lemma_job_view(self.pc as int);
        }
        let fail = match &self.wait {
            Wait::Fresh => match &self.jobs[self.pc] {
                Job::Io { fail, .. } => Some(fail.clone()),
                _ => None,
            },
            _ => None,
        };
        match fail {
            Some(f) => match r {
                Ok(_) => self.advance(),
                Err(m) => self.end_with(Err(strcat(f.as_str(), m.as_str()))),
            },
            None => {},
        }
    }

    fn on_loaded(&mut self, c: Option<Config>)
        requires
            !is_over(old(self)@),
        ensures
            final(self)@ == next(
                old(self)@,
                EventModel::Loaded(
                    match c {
                        Some(c) => Some(c@),
                        None => None,
                    },
                ),
            ),
    {
        proof {
            self.lemma_len();
            self.lemma_job_view(self.pc as int);
        }
        let fresh = match &self.wait {
            Wait::Fresh => true,
            _ => false,
        };
        if !fresh {
            return;
        }
        let hook = match &self.jobs[self.pc] {
            Job::Hook { command, .. } => Some(*command),
            _ => None,
        };
        let show = match &self.jobs[self.pc] {
            Job::ShowConfig(_) => true,
            _ => false,
        };
        match hook {
            Some(command) => match c {
                None => self.end_with(Err(String::from_str("config not found"))),
                Some(cfg) => match cfg.hook_argv(command) {
                    Err(m) => self.end_with(Err(m)),
                    Ok(argv) => {
                        if argv.len() == 0 {
                            self.advance();
                        } else {
                            let mut args = argv;
                            let ghost all = texts(args@);
                            let program = args.remove(0);
                            assert(texts(args@) =~= all.skip(1));
                            self.set_wait(Wait::Spawning { program, args });
                        }
                    },
                },
            },
            None => {
                if show {
                    match c {
                        None => self.end_with(Err(String::from_str("config not found"))),
                        Some(cfg) => {
                            let lines = cfg.log_lines();
                            if lines.len() == 0 {
                                self.advance();
                            } else {
                                let text = crate::text::join_texts(&lines, "\n");
                                self.set_wait(Wait::Printing(text));
                            }
                        },
                    }
                }
            },
        }
    }

    fn on_ran(&mut self, o: SpawnOutcome)
        requires
            !is_over(old(self)@),
        ensures
            final(self)@ == next(old(self)@, EventModel::Ran(o@)),
    {
        proof {
            self.lemma_len();
            self.lemma_job_view(self.pc as int);
        }
        let spawning = match &self.wait {
            Wait::Spawning { .. } => true,
            _ => false,
        };
        if !spawning {
            return;
        }
        let kind: u8 = match &self.jobs[self.pc] {
            Job::Hook { .. } => 1,
            Job::Edit(_) => 2,
            _ => 0,
        };
        if kind == 1 {
            match o {
                SpawnOutcome::Failed(m) => self.end_with(
                    Err(strcat("failed to execute command: ", m.as_str())),
                ),
                SpawnOutcome::Exited { success, status } => {
                    if success {
                        self.advance();
                    } else {
                        self.end_with(
                            Err(strcat("command exited with non-zero status: ", status.as_str())),
                        );
                    }
                },
            }
        } else if kind == 2 {
            match o {
                SpawnOutcome::Failed(m) => self.end_with(
                    Err(strcat("failed to execute editor: ", m.as_str())),
                ),
                SpawnOutcome::Exited { success, status } => {
                    if success {
                        self.advance();
                    } else {
                        self.end_with(
                            Err(strcat("editor exited with non-zero status: ", status.as_str())),
                        );
                    }
                },
            }
        }
    }

    fn on_editor(&mut self, v: Option<String>, e: Option<String>)
        requires
            !is_over(old(self)@),
        ensures
            final(self)@ == next(old(self)@, EventModel::Editor(opt_text(v), opt_text(e))),
    {
        proof {
            self.lemma_len();
            self.lemma_job_view(self.pc as int);
        }
        let file = match &self.wait {
            Wait::Fresh => match &self.jobs[self.pc] {
                Job::Edit(f) => Some(f.clone()),
                _ => None,
            },
            _ => None,
        };
        match file {
            Some(f) => {
                let program = choose_editor(v, e);
                let mut args: Vec<String> = Vec::new();
                let ghost fm = f@;
                args.push(f);
                assert(texts(args@) =~= seq![fm]);
                self.set_wait(Wait::Spawning { program, args });
            },
            None => {},
        }
    }

    fn on_cloned(&mut self, r: Result<String, String>)
        requires
            !is_over(old(self)@),
        ensures
            final(self)@ == next(old(self)@, EventModel::Cloned(text_result(r))),
    {
        proof {
            self.lemma_len();
            self.lemma_job_view(self.pc as int);
        }
        let name = match &self.wait {
            Wait::Fresh => match &self.jobs[self.pc] {
                Job::Clone { name, .. } => Some(name.clone()),
                _ => None,
            },
            _ => None,
        };
        match name {
            Some(n) => match r {
                Ok(p) => {
                    self.cloned = p;
                    self.advance();
                },
                Err(m) => {
                    let mut msg = strcat3("failed to clone ", n.as_str(), ": ");
                    msg.append(m.as_str());
                    self.end_with(Err(msg));
                },
            },
            None => {},
        }
    }

    fn on_scanned(&mut self, r: Result<Vec<Result<String, String>>, String>)
        requires
            !is_over(old(self)@),
        ensures
            final(self)@ == next(
                old(self)@,
                EventModel::Scanned(
                    match r {
                        Ok(v) => Ok(text_results(v@)),
                        Err(e) => Err(e@),
                    },
                ),
            ),
    {
        proof {
            self.lemma_len();
            self.lemma_job_view(self.pc as int);
        }
        let gathering_all = match &self.wait {
            Wait::Fresh => match &self.jobs[self.pc] {
                Job::Gather { names: None, .. } => true,
                _ => false,
            },
            _ => false,
        };
        if gathering_all {
            match r {
                Err(m) => self.end_with(Err(m)),
                Ok(entries) => {
                    let (names, error) = split_scan(entries);
                    self.set_wait(Wait::Probing { names, error });
                },
            }
        }
    }

    fn on_probed(&mut self, v: Vec<bool>)
        requires
            !is_over(old(self)@),
        ensures
            final(self)@ == next(old(self)@, EventModel::Probed(v@)),
    {
        proof {
            self.lemma_len();
            self.lemma_job_view(self.pc as int);
        }
        let plan = match &self.jobs[self.pc] {
            Job::Gather { plan, .. } => Some(*plan),
            _ => None,
        };
        let probing = match &self.wait {
            Wait::Probing { names, error } => Some((clone_strings(names), clone_opt(error))),
            _ => None,
        };
        match (plan, probing) {
            (Some(plan), Some((names, error))) => {
                if v.len() != names.len() {
                    return;
                }
                match collect_named_packages(names, v) {
                    Err(m) => self.end_with(Err(m)),
                    Ok(l) => match error {
                        Some(m) => self.end_with(Err(m)),
                        None => {
                            let mut more = plan_jobs_for(plan, &l);
                            let ghost before = jobs_model(self.jobs@);
                            self.jobs.append(&mut more);
                            assert(jobs_model(self.jobs@) =~= before + plan_jobs(plan, list_model(l@)));
                            self.advance();
                        },
                    },
                }
            },
            _ => {},
        }
    }
}


// ---------------------------------------------------------------------------
// Starting a run

fn io_job(op: IoOp, fail: &str) -> (j: Job)
    ensures
        j@ == (JobModel::Io { op: op@, fail: fail@ }),
{
    Job::Io { op, fail: String::from_str(fail) }
}

/// The steps of adding the package whose repository is at `url`.
fn add_jobs(url: String) -> (r: Vec<Job>)
    ensures
        jobs_model(r@) == add_script(url@),
{
    let ghost u = url@;
    let name = repo_name(url.as_str());
    let file = config_file_name(name.as_str());
    let temp = strcat3(TEMP_CONFIG_PATH, "/", file.as_str());
    let repo = join_path(BASE_REPO_PATH, name.as_str());
    let config = join_path(BASE_CONFIG_PATH, file.as_str());
    let mut r: Vec<Job> = Vec::new();
    push_job(&mut r, Job::Say(strcat("Creating config: ", file.as_str())));
    push_job(
        &mut r,
        io_job(
            IoOp::EnsureDir(String::from_str(TEMP_CONFIG_PATH)),
            "failed to create temp config directory: ",
        ),
    );
    push_job(
        &mut r,
        io_job(
            IoOp::WriteFile(
                join_path(TEMP_CONFIG_PATH, file.as_str()),
                config_template(name.as_str()),
            ),
            "failed to create config: ",
        ),
    );
    push_job(&mut r, Job::Edit(temp.clone()));
    push_job(&mut r, Job::Clone { url, path: repo.clone(), name: name.clone() });
    push_job(
        &mut r,
        io_job(
            IoOp::EnsureDir(String::from_str(BASE_CONFIG_PATH)),
            "failed to create config directory: ",
        ),
    );
    push_job(
        &mut r,
        io_job(IoOp::Rename(temp, config.clone()), "failed to place config in system directory: "),
    );
    push_job(&mut r, Job::AnnounceRepo);
    push_job(&mut r, ask("Run build and install commands?"));
    push_job(&mut r, say("Building..."));
    push_job(&mut r, hook_job(&config, &repo, ConfigCommand::Build));
    push_job(&mut r, say("Installing..."));
    push_job(&mut r, hook_job(&config, &repo, ConfigCommand::Install));
    assert(jobs_model(r@) =~= add_script(u));
    r
}

fn gather_job(packages: Vec<String>, plan: Plan) -> (j: Job)
    ensures
        j@ == (JobModel::Gather { names: named_or_all(texts(packages@)), plan: plan }),
{
    if packages.len() == 0 {
        Job::Gather { names: None, plan }
    } else {
        Job::Gather { names: Some(packages), plan }
    }
}

fn single(j: Job) -> (r: Vec<Job>)
    ensures
        jobs_model(r@) == seq![j@],
{
    let mut r: Vec<Job> = Vec::new();
    push_job(&mut r, j);
    assert(jobs_model(r@) =~= seq![j@]);
    r
}

/// The steps with which the action starts.
fn script_for(a: Action) -> (r: Vec<Job>)
    ensures
        jobs_model(r@) == script_of(a@),
{
    match a {
        Action::Add { url } => add_jobs(url),
        Action::Update => single(Job::Gather { names: None, plan: Plan::Update }),
        Action::Upgrade { packages } => single(gather_job(packages, Plan::Upgrade)),
        Action::Remove { packages } => {
            let mut r: Vec<Job> = Vec::new();
            push_job(&mut r, say("Checking dependencies...\n"));
            push_job(&mut r, Job::Gather { names: Some(packages), plan: Plan::Remove });
            assert(jobs_model(r@) =~= script_of(a@));
            r
        },
        Action::List => single(io_job(IoOp::ListInstalled, "")),
        Action::Search { term } => single(Job::Say(strcat("searching: ", term.as_str()))),
        Action::Clean { packages } => single(gather_job(packages, Plan::Clean)),
        Action::Show { package } => {
            let file = strcat(package.as_str(), ".toml");
            single(Job::ShowConfig(join_path(BASE_CONFIG_PATH, file.as_str())))
        },
        Action::Version => single(io_job(IoOp::ShowVersion, "")),
    }
}

/// The command word of an action that needs root, or `None` for one that does not.
fn root_command(a: &Action) -> (r: Option<&'static str>)
    ensures
        match r {
            Some(w) => needs_root(a@) && w@ == command_word(a@),
            None => !needs_root(a@),
        },
{
    match a {
        Action::Add { .. } => Some("add"),
        Action::Update => Some("update"),
        Action::Upgrade { .. } => Some("upgrade"),
        Action::Remove { .. } => Some("remove"),
        Action::List => Some("list"),
        Action::Clean { .. } => Some("clean"),
        _ => None,
    }
}

impl Run {
    /// The run of `action` for a user who is root or not; it is over at once, with
    /// "<command> must be run as root", when the action needs root and the user
    /// is not.
    pub fn start(action: Action, is_root: bool) -> (r: Run)
        ensures
            r@ == start_model(action@, is_root),
    {
        let ghost a = action@;
        match root_command(&action) {
            Some(word) => {
                if !is_root {
                    let r = Run {
                        jobs: Vec::new(),
                        pc: 0,
                        wait: Wait::Fresh,
                        cloned: String::new(),
                        outcome: Some(Err(strcat(word, " must be run as root"))),
                    };
                    assert(r@.jobs =~= Seq::<JobModel>::empty());
                    return r;
                }
            },
            None => {},
        }
        let jobs = script_for(action);
        let wait = if jobs.len() > 0 {
            entry_wait_of(&jobs[0])
        } else {
            Wait::Fresh
        };
        let r = Run { jobs, pc: 0, wait, cloned: String::new(), outcome: None };
        proof {
            assert(r@.jobs == script_of(a));
            if r.jobs@.len() > 0 {
                r.lemma_job_view(0);
            }
        }
        r
    }

    /// The run is over.
    pub fn is_finished(&self) -> (r: bool)
        ensures
            r == is_over(self@),
    {
        proof {
            self.lemma_len();
        }
        self.outcome.is_some() || self.pc >= self.jobs.len()
    }
}

/// Whether the process runs with root's effective user id, by
/// `nix::unistd::geteuid` and `Uid::is_root`. Nothing is stated of the result:
/// it depends on the process that runs.
#[verifier::external_body]
fn running_as_root() -> bool {
    nix::unistd::geteuid().is_root()
}

impl Action {
    /// Starts carrying out the action: checks whether the process runs as root and
    /// returns the run, whose effects the caller carries out one after another.
    pub fn execute(self) -> (r: Run)
        ensures
            r@ == start_model(self@, true) || r@ == start_model(self@, false),
    {
        let root = running_as_root();
        Run::start(self, root)
    }
}


/// The line with which a failed run is reported.
pub fn failure_line(message: &str) -> (r: String)
    ensures
        r@ == "forge: "@ + message@,
{
    strcat("forge: ", message)
}

// ---------------------------------------------------------------------------
// Laws of a run

/// The event that answers what `eff` asks for: an acknowledgement of a print, the
/// answer to a question, and so on; nothing answers the end of a run.
pub open spec fn answers(eff: EffectModel, e: EventModel) -> bool {
    match eff {
        EffectModel::Print(_) => e is Ack,
        EffectModel::ReportSize(_) => e is Ack,
        EffectModel::Confirm(_) => e is Answer,
        EffectModel::ScanConfigDir => e is Scanned,
        EffectModel::Probe(ps) => match e {
            EventModel::Probed(v) => v.len() == ps.len(),
            _ => false,
        },
        EffectModel::LoadConfig(_) => e is Loaded,
        EffectModel::Spawn { .. } => e is Ran,
        EffectModel::Io(_) => e is Done,
        EffectModel::LookupEditor => e is Editor,
        EffectModel::Clone { .. } => e is Cloned,
        EffectModel::Finish(_) => false,
    }
}

/// A run that is over stays over: it asks only to finish, with the same result,
/// and no event changes it.
pub proof fn lemma_finished_run_stays(s: RunModel, e: EventModel)
    requires
        is_over(s),
    ensures
        next(s, e) == s,
        effect_of(s) is Finish,
{
}

/// An event that does not answer what the run asks for changes nothing.
pub proof fn lemma_unanswered_event_ignored(s: RunModel, e: EventModel)
    requires
        !answers(effect_of(s), e),
    ensures
        next(s, e) == s,
{
    match s.wait {
        WaitModel::Probing { names, .. } => {
            assert(probe_pairs(names).len() == names.len());
        },
        _ => {},
    }
}

/// An action that needs root, started by a user who is not root, asks for
/// nothing but to finish with "<command> must be run as root"; the other actions
/// start alike for every user.
pub proof fn lemma_root_gate(a: ActionModel)
    ensures
        needs_root(a) ==> effect_of(start_model(a, false)) == EffectModel::Finish(
            Err(command_word(a) + " must be run as root"@),
        ),
        !needs_root(a) ==> start_model(a, false) == start_model(a, true),
{
}

/// Answering no to a question ends the run successfully, with nothing more done.
pub proof fn lemma_no_ends_run(s: RunModel)
    requires
        !is_over(s),
        s.wait is Fresh,
        s.jobs[s.pc] is Ask,
    ensures
        effect_of(next(s, EventModel::Answer(false))) == EffectModel::Finish(Ok(())),
        next(next(s, EventModel::Answer(false)), EventModel::Answer(true)) == next(
            s,
            EventModel::Answer(false),
        ),
{
}

/// A change that fails ends the run with the step's message followed by the
/// reason of the failure.
pub proof fn lemma_failed_change_ends_run(s: RunModel, m: Seq<char>)
    requires
        !is_over(s),
        s.wait is Fresh,
        s.jobs[s.pc] is Io,
    ensures
        effect_of(next(s, EventModel::Done(Err(m)))) == EffectModel::Finish(
            Err(s.jobs[s.pc]->fail + m),
        ),
{
}

/// A job that changes the system: runs a hook, changes files or repositories, or
/// clones.
pub open spec fn changes_system(j: JobModel) -> bool {
    j is Hook || j is Io || j is Clone
}

/// Once packages are collected, nothing is changed before the user is asked
/// whether to proceed: every job that changes the system comes after a question.
pub proof fn lemma_plan_asks_first(plan: Plan, l: Seq<PackageEntry>)
    ensures
        forall|i: int|
            0 <= i < plan_jobs(plan, l).len() && changes_system(#[trigger] plan_jobs(plan, l)[i])
                ==> exists|k: int| 0 <= k < i && plan_jobs(plan, l)[k] is Ask,
{
    let h = plan_header(plan, l);
    let js = plan_jobs(plan, l);
    assert forall|i: int|
        0 <= i < js.len() && changes_system(#[trigger] js[i]) implies exists|k: int|
        0 <= k < i && js[k] is Ask by {
        if i < h.len() {
            assert(js[i] == h[i]);
        } else {
            assert(js[h.len() - 1] == h[h.len() - 1]);
            assert(js[h.len() - 1] is Ask);
        }
    }
}

/// Adding a package builds or installs it only after the user agreed.
pub proof fn lemma_add_asks_before_building(url: Seq<char>)
    ensures
        forall|i: int|
            0 <= i < add_script(url).len() && #[trigger] add_script(url)[i] is Hook ==> exists|
                k: int,
            | 0 <= k < i && add_script(url)[k] is Ask,
{
    let js = add_script(url);
    assert forall|i: int| 0 <= i < js.len() && #[trigger] js[i] is Hook implies exists|k: int|
        0 <= k < i && js[k] is Ask by {
        assert(js[8] is Ask);
    }
}

/// The number of jobs that a plan does per package.
pub open spec fn plan_width(plan: Plan) -> int {
    match plan {
        Plan::Update => 2,
        Plan::Upgrade => 3,
        Plan::Remove => 4,
        Plan::Clean => 2,
    }
}

/// A plan works on every collected package, one after another, in the order they
/// were collected: the jobs of the `k`th package come as a block at `k` times the
/// plan's width.
#[verifier::spinoff_prover]
#[verifier::rlimit(40)]
pub proof fn lemma_per_package_layout(plan: Plan, l: Seq<PackageEntry>)
    ensures
        per_package(plan, l).len() == l.len() * plan_width(plan),
        forall|k: int, t: int|
            0 <= k < l.len() && 0 <= t < plan_width(plan) ==> per_package(plan, l)[k * plan_width(
                plan,
            ) + t] == #[trigger] package_jobs(plan, l[k])[t],
    decreases l.len(),
{
    let w = plan_width(plan);
    if l.len() > 0 {
        let init = l.drop_last();
        lemma_per_package_layout(plan, init);
        let pj = package_jobs(plan, l.last());
        assert(pj.len() == w);
        assert((init.len() + 1) * w == init.len() * w + w) by (nonlinear_arith);
        assert forall|k: int, t: int| 0 <= k < l.len() && 0 <= t < w implies per_package(
            plan,
            l,
        )[k * w + t] == #[trigger] package_jobs(plan, l[k])[t] by {
            if k < init.len() {
                assert(k * w + t < init.len() * w) by (nonlinear_arith)
                    requires
                        k < init.len(),
                        0 <= t < w,
                        w > 0,
                ;
                assert(0 <= k * w) by (nonlinear_arith)
                    requires
                        0 <= k,
                        w > 0,
                ;
                assert(l[k] == init[k]);
            } else {
                assert(k == init.len());
            }
        }
    }
}


/// The sub-step `w` is one that the job `j` goes through: collecting named
/// packages starts by checking them, only hooks and the editor spawn programs,
/// only collecting probes, and only showing a configuration prints from a load.
pub open spec fn wait_fits(j: JobModel, w: WaitModel) -> bool {
    match w {
        WaitModel::Fresh => !(j matches JobModel::Gather { names: Some(_), .. }),
        WaitModel::Spawning { .. } => j is Hook || j is Edit,
        WaitModel::Probing { .. } => j is Gather,
        WaitModel::Printing(_) => j is ShowConfig,
    }
}

/// The run is at one of its jobs or just past the last, and, while it goes on,
/// at a sub-step that its current job goes through.
pub open spec fn well_formed(s: RunModel) -> bool {
    &&& 0 <= s.pc <= s.jobs.len()
    &&& (s.outcome is None && s.pc < s.jobs.len()) ==> wait_fits(s.jobs[s.pc], s.wait)
}

proof fn lemma_entry_wait_fits(jobs: Seq<JobModel>, i: int)
    requires
        0 <= i < jobs.len(),
    ensures
        wait_fits(jobs[i], wait_at(jobs, i)),
{
}

/// Every run starts well formed.
pub proof fn lemma_start_well_formed(a: ActionModel, is_root: bool)
    ensures
        well_formed(start_model(a, is_root)),
{
    let s = start_model(a, is_root);
    if s.outcome is None && s.jobs.len() > 0 {
        lemma_entry_wait_fits(s.jobs, 0);
    }
}

/// Every step keeps a run well formed.
pub proof fn lemma_step_keeps_well_formed(s: RunModel, e: EventModel)
    requires
        well_formed(s),
    ensures
        well_formed(next(s, e)),
{
    let t = next(s, e);
    if !is_over(s) && t.outcome is None && t.pc < t.jobs.len() {
        if t.pc == s.pc + 1 {
            lemma_entry_wait_fits(t.jobs, t.pc);
        }
    }
}

/// In a well-formed run that goes on, an event that answers what is asked moves
/// the run: to its next job, to the next sub-step of its job, or to its end.
pub proof fn lemma_answer_moves_run(s: RunModel, e: EventModel)
    requires
        well_formed(s),
        !is_over(s),
        answers(effect_of(s), e),
    ensures
        next(s, e) != s,
{
    match s.wait {
        WaitModel::Probing { names, .. } => {
            assert(probe_pairs(names).len() == names.len());
        },
        _ => {},
    }
}


// ---------------------------------------------------------------------------
// Laws on what the actions do to their packages

/// The hook commands that a plan runs for each package, in order.
pub open spec fn plan_commands(plan: Plan) -> Seq<ConfigCommand> {
    match plan {
        Plan::Update => Seq::empty(),
        Plan::Upgrade => seq![ConfigCommand::Build, ConfigCommand::Install],
        Plan::Remove => seq![ConfigCommand::Uninstall],
        Plan::Clean => seq![ConfigCommand::Clean],
    }
}

proof fn lemma_block_index(i: int, w: int, n: int)
    requires
        w > 0,
        0 <= i < n * w,
    ensures
        0 <= i / w < n,
        0 <= i % w < w,
        i == (i / w) * w + i % w,
{
    vstd::arithmetic::div_mod::lemma_fundamental_div_mod(i, w);
    assert(0 <= i % w < w) by {
        vstd::arithmetic::div_mod::lemma_mod_bound(i, w);
    }
    assert(0 <= i / w) by {
        vstd::arithmetic::div_mod::lemma_div_pos_is_pos(i, w);
    }
    if i / w >= n {
        assert((i / w) * w >= n * w) by (nonlinear_arith)
            requires
                i / w >= n,
                w > 0,
        ;
    }
}

/// The hook commands that a plan may run: `upgrade` builds and installs,
/// `remove` uninstalls, `clean` cleans, and `update` runs no hook.
pub open spec fn hook_allowed(plan: Plan, command: ConfigCommand) -> bool {
    match plan {
        Plan::Update => false,
        Plan::Upgrade => command == ConfigCommand::Build || command == ConfigCommand::Install,
        Plan::Remove => command == ConfigCommand::Uninstall,
        Plan::Clean => command == ConfigCommand::Clean,
    }
}

/// Where the job at `i` of a plan comes from: the header, or the job `t` of the
/// `k`th package.
proof fn plan_job_origin(plan: Plan, l: Seq<PackageEntry>, i: int) -> (kt: (int, int))
    requires
        plan_header(plan, l).len() <= i < plan_jobs(plan, l).len(),
    ensures
        0 <= kt.0 < l.len(),
        0 <= kt.1 < plan_width(plan),
        plan_jobs(plan, l)[i] == package_jobs(plan, l[kt.0])[kt.1],
{
    lemma_per_package_layout(plan, l);
    let h = plan_header(plan, l);
    let pp = per_package(plan, l);
    let w = plan_width(plan);
    let m = i - h.len();
    assert(plan_jobs(plan, l)[i] == pp[m]);
    lemma_block_index(m, w, l.len() as int);
    let k = m / w;
    let t = m % w;
    assert(pp[k * w + t] == package_jobs(plan, l[k])[t]);
    (k, t)
}

/// The job `t` of the `k`th package sits at this position of the plan.
proof fn plan_job_position(plan: Plan, l: Seq<PackageEntry>, k: int, t: int) -> (i: int)
    requires
        0 <= k < l.len(),
        0 <= t < plan_width(plan),
    ensures
        plan_header(plan, l).len() <= i < plan_jobs(plan, l).len(),
        i == plan_header(plan, l).len() + k * plan_width(plan) + t,
        plan_jobs(plan, l)[i] == package_jobs(plan, l[k])[t],
{
    lemma_per_package_layout(plan, l);
    let w = plan_width(plan);
    let h = plan_header(plan, l);
    assert(0 <= k * w) by (nonlinear_arith)
        requires
            0 <= k,
            w > 0,
    ;
    assert(k * w + w <= l.len() * w) by (nonlinear_arith)
        requires
            k < l.len(),
            w > 0,
    ;
    let i = h.len() + k * w + t;
    assert(plan_jobs(plan, l)[i] == per_package(plan, l)[k * w + t]);
    i
}

proof fn lemma_package_hook(plan: Plan, e: PackageEntry, t: int)
    requires
        0 <= t < plan_width(plan),
        package_jobs(plan, e)[t] is Hook,
    ensures
        package_jobs(plan, e)[t]->config == e.2,
        package_jobs(plan, e)[t]->repo == e.1,
        hook_allowed(plan, package_jobs(plan, e)[t]->command),
{
}

/// Every hook that a plan runs belongs to one of its packages: it loads that
/// package's configuration, runs in that package's repository, and is one of the
/// plan's commands (`upgrade`: build, install; `remove`: uninstall; `clean`:
/// clean; `update`: none).
pub proof fn lemma_plan_hooks_belong(plan: Plan, l: Seq<PackageEntry>, i: int)
    requires
        0 <= i < plan_jobs(plan, l).len(),
        plan_jobs(plan, l)[i] is Hook,
    ensures
        exists|k: int|
            #![trigger l[k]]
            0 <= k < l.len() && plan_jobs(plan, l)[i]->config == l[k].2 && plan_jobs(plan, l)[i]->repo
                == l[k].1,
        hook_allowed(plan, plan_jobs(plan, l)[i]->command),
{
    let h = plan_header(plan, l);
    if i < h.len() {
        assert(plan_jobs(plan, l)[i] == h[i]);
    } else {
        let (k, t) = plan_job_origin(plan, l, i);
        lemma_package_hook(plan, l[k], t);
    }
}

/// Every package gets each of the plan's hook commands, on its own
/// configuration and in its own repository.
pub proof fn lemma_plan_hooks_cover(plan: Plan, l: Seq<PackageEntry>, k: int, c: int)
    requires
        0 <= k < l.len(),
        0 <= c < plan_commands(plan).len(),
    ensures
        exists|i: int|
            #![trigger plan_jobs(plan, l)[i]]
            0 <= i < plan_jobs(plan, l).len() && plan_jobs(plan, l)[i] == (JobModel::Hook {
                config: l[k].2,
                repo: l[k].1,
                command: plan_commands(plan)[c],
            }),
{
    let i = plan_job_position(plan, l, k, c);
    assert(plan_jobs(plan, l)[i] == package_jobs(plan, l[k])[c]);
}

/// Upgrading a package builds it before it installs it.
pub proof fn lemma_upgrade_builds_before_install(l: Seq<PackageEntry>, k: int)
    requires
        0 <= k < l.len(),
    ensures
        exists|i: int, j: int|
            #![trigger plan_jobs(Plan::Upgrade, l)[i], plan_jobs(Plan::Upgrade, l)[j]]
            0 <= i < j < plan_jobs(Plan::Upgrade, l).len() && plan_jobs(Plan::Upgrade, l)[i] == (
            JobModel::Hook { config: l[k].2, repo: l[k].1, command: ConfigCommand::Build })
                && plan_jobs(Plan::Upgrade, l)[j] == (JobModel::Hook {
                config: l[k].2,
                repo: l[k].1,
                command: ConfigCommand::Install,
            }),
{
    let i = plan_job_position(Plan::Upgrade, l, k, 0);
    let j = plan_job_position(Plan::Upgrade, l, k, 1);
}

/// Removing a package uninstalls it first, then deletes its repository and its
/// configuration: for every package, the uninstall hook on its configuration and
/// repository comes before the removal of its repository directory, which comes
/// before the removal of its configuration file.
pub proof fn lemma_remove_uninstalls_then_deletes(l: Seq<PackageEntry>, k: int)
    requires
        0 <= k < l.len(),
    ensures
        exists|i: int, j: int, n: int|
            #![trigger plan_jobs(Plan::Remove, l)[i], plan_jobs(Plan::Remove, l)[j], plan_jobs(Plan::Remove, l)[n]]
            0 <= i < j < n < plan_jobs(Plan::Remove, l).len() && plan_jobs(Plan::Remove, l)[i] == (
            JobModel::Hook { config: l[k].2, repo: l[k].1, command: ConfigCommand::Uninstall })
                && plan_jobs(Plan::Remove, l)[j] is Io && plan_jobs(Plan::Remove, l)[j]->op
                == IoOpModel::RemoveDir(l[k].1) && plan_jobs(Plan::Remove, l)[n] is Io && plan_jobs(
                Plan::Remove,
                l,
            )[n]->op == IoOpModel::RemoveFile(l[k].2),
{
    let i = plan_job_position(Plan::Remove, l, k, 0);
    let j = plan_job_position(Plan::Remove, l, k, 1);
    let n = plan_job_position(Plan::Remove, l, k, 2);
}

/// The packages that collecting gives are those asked for, in order, each with
/// its repository under the repository directory and its configuration
/// `<name>.toml` under the configuration directory.
pub proof fn lemma_collected_entries(names: Seq<Seq<char>>, installed: Seq<bool>)
    requires
        names.len() == installed.len(),
        collect_model(names, installed) is Ok,
    ensures
        collect_model(names, installed)->Ok_0.len() == names.len(),
        forall|k: int|
            0 <= k < names.len() ==> #[trigger] collect_model(names, installed)->Ok_0[k] == (
            names[k],
            path_join(BASE_REPO_PATH@, names[k]),
            path_join(BASE_CONFIG_PATH@, names[k] + ".toml"@),
        ),
{
}


/// Every hook of a plan on collected packages loads the configuration
/// `<name>.toml` under the configuration directory and runs in the repository
/// `<name>` under the repository directory, for one of the packages asked for.
pub proof fn lemma_collected_plan_hooks(
    plan: Plan,
    names: Seq<Seq<char>>,
    installed: Seq<bool>,
    i: int,
)
    requires
        names.len() == installed.len(),
        collect_model(names, installed) is Ok,
        0 <= i < plan_jobs(plan, collect_model(names, installed)->Ok_0).len(),
        plan_jobs(plan, collect_model(names, installed)->Ok_0)[i] is Hook,
    ensures
        exists|k: int|
            #![trigger names[k]]
            0 <= k < names.len() && plan_jobs(plan, collect_model(names, installed)->Ok_0)[i]->config
                == path_join(BASE_CONFIG_PATH@, names[k] + ".toml"@) && plan_jobs(
                plan,
                collect_model(names, installed)->Ok_0,
            )[i]->repo == path_join(BASE_REPO_PATH@, names[k]),
{
    let l = collect_model(names, installed)->Ok_0;
    lemma_collected_entries(names, installed);
    lemma_plan_hooks_belong(plan, l, i);
    let k = choose|k: int|
        #![trigger l[k]]
        0 <= k < l.len() && plan_jobs(plan, l)[i]->config == l[k].2 && plan_jobs(plan, l)[i]->repo
            == l[k].1;
    assert(l[k] == (
        names[k],
        path_join(BASE_REPO_PATH@, names[k]),
        path_join(BASE_CONFIG_PATH@, names[k] + ".toml"@),
    ));
}

/// The pairs (repository, configuration) of the packages `names`, spelled out.
pub open spec fn probes_for(ps: Seq<(Seq<char>, Seq<char>)>, names: Seq<Seq<char>>) -> bool {
    &&& ps.len() == names.len()
    &&& forall|i: int|
        #![trigger ps[i]]
        0 <= i < names.len() ==> ps[i] == (
            path_join(BASE_REPO_PATH@, names[i]),
            path_join(BASE_CONFIG_PATH@, names[i] + ".toml"@),
        )
}

/// Started by root, `upgrade` and `clean` with no package named first scan the
/// configuration directory (all configured packages), and with packages named
/// first check exactly those; `update` always scans; `remove` first says it
/// checks dependencies.
pub proof fn lemma_gather_start(packages: Seq<Seq<char>>)
    ensures
        effect_of(start_model(ActionModel::Update, true)) == EffectModel::ScanConfigDir,
        packages.len() == 0 ==> effect_of(start_model(ActionModel::Upgrade { packages }, true))
            == EffectModel::ScanConfigDir,
        packages.len() == 0 ==> effect_of(start_model(ActionModel::Clean { packages }, true))
            == EffectModel::ScanConfigDir,
        packages.len() > 0 ==> match effect_of(start_model(ActionModel::Upgrade { packages }, true)) {
            EffectModel::Probe(ps) => probes_for(ps, packages),
            _ => false,
        },
        packages.len() > 0 ==> match effect_of(start_model(ActionModel::Clean { packages }, true)) {
            EffectModel::Probe(ps) => probes_for(ps, packages),
            _ => false,
        },
        effect_of(start_model(ActionModel::Remove { packages }, true)) == EffectModel::Print(
            "Checking dependencies...\n"@,
        ),
{
}

/// Adding a package builds and installs it from the configuration that was
/// placed under the configuration directory (`<name>.toml`, where `<name>` is the
/// repository's name), in the repository cloned under the repository directory:
/// every hook loads that file and runs there, and comes only after the edited
/// configuration was moved to that file and the repository was cloned there.
#[verifier::spinoff_prover]
pub proof fn lemma_add_builds_from_placed_config(url: Seq<char>, i: int)
    requires
        0 <= i < add_script(url).len(),
        add_script(url)[i] is Hook,
    ensures
        add_script(url)[i]->config == path_join(BASE_CONFIG_PATH@, repo_name_model(url) + ".toml"@),
        add_script(url)[i]->repo == path_join(BASE_REPO_PATH@, repo_name_model(url)),
        exists|r: int|
            #![trigger add_script(url)[r]]
            0 <= r < i && add_script(url)[r] is Io && (add_script(url)[r]->op) is Rename && (add_script(
                url,
            )[r]->op)->Rename_1 == path_join(BASE_CONFIG_PATH@, repo_name_model(url) + ".toml"@),
        exists|c: int|
            #![trigger add_script(url)[c]]
            0 <= c < i && add_script(url)[c] == (JobModel::Clone {
                url: url,
                path: path_join(BASE_REPO_PATH@, repo_name_model(url)),
                name: repo_name_model(url),
            }),
{
    let js = add_script(url);
    assert(js.len() == 13);
    assert(js[0] is Say);
    assert(js[1] is Io);
    assert(js[2] is Io);
    assert(js[3] is Edit);
    assert(js[4] is Clone);
    assert(js[5] is Io);
    assert(js[6] is Io);
    assert(js[7] is AnnounceRepo);
    assert(js[8] is Ask);
    assert(js[9] is Say);
    assert(js[11] is Say);
    assert(i == 10 || i == 12);
    assert(js[6]->op is Rename);
}

/// Adding a package builds it and then installs it.
pub proof fn lemma_add_builds_then_installs(url: Seq<char>)
    ensures
        10 < 12 < add_script(url).len(),
        add_script(url)[10] is Hook && add_script(url)[10]->command == ConfigCommand::Build,
        add_script(url)[12] is Hook && add_script(url)[12]->command == ConfigCommand::Install,
{
}

/// The file that adding a package writes the template to is the one the user
/// edits, and the one then moved into place.
pub proof fn lemma_add_edits_the_written_file(url: Seq<char>)
    ensures
        add_script(url)[2] is Io && add_script(url)[3] is Edit && add_script(url)[6] is Io,
        (add_script(url)[2]->op) is WriteFile && (add_script(url)[6]->op) is Rename,
        (add_script(url)[2]->op)->WriteFile_0 == add_script(url)[3]->Edit_0,
        (add_script(url)[6]->op)->Rename_0 == add_script(url)[3]->Edit_0,
{
    reveal_strlit(".toml");
    reveal_strlit("/");
    reveal_strlit("/var/lib/forge/.tmp");
    crate::action::lemma_repo_name_is_last_segment(url);
    let name = repo_name_model(url);
    let file = name + ".toml"@;
    assert(TEMP_CONFIG_PATH@ == "/var/lib/forge/.tmp"@);
    assert(file.len() > 0);
    if name.len() > 0 {
        assert(file[0] == name[0]);
    } else {
        assert(file[0] == '.');
    }
    assert(TEMP_CONFIG_PATH@.last() != '/');
}


/// Every change to files or repositories that a plan makes concerns one of its
/// packages: `update` pulls that package's repository, `remove` deletes that
/// package's repository directory or its configuration file, and `upgrade` and
/// `clean` change nothing but through hooks.
pub proof fn lemma_plan_changes_belong(plan: Plan, l: Seq<PackageEntry>, i: int)
    requires
        0 <= i < plan_jobs(plan, l).len(),
        plan_jobs(plan, l)[i] is Io,
    ensures
        exists|k: int|
            #![trigger l[k]]
            0 <= k < l.len() && match plan {
                Plan::Update => plan_jobs(plan, l)[i]->op == IoOpModel::Pull(l[k].1),
                Plan::Remove => plan_jobs(plan, l)[i]->op == IoOpModel::RemoveDir(l[k].1)
                    || plan_jobs(plan, l)[i]->op == IoOpModel::RemoveFile(l[k].2),
                _ => false,
            },
{
    let h = plan_header(plan, l);
    if i < h.len() {
        assert(plan_jobs(plan, l)[i] == h[i]);
    } else {
        let (k, t) = plan_job_origin(plan, l, i);
    }
}

/// Updating pulls the repository of every collected package.
pub proof fn lemma_update_pulls_every_package(l: Seq<PackageEntry>, k: int)
    requires
        0 <= k < l.len(),
    ensures
        exists|i: int|
            #![trigger plan_jobs(Plan::Update, l)[i]]
            0 <= i < plan_jobs(Plan::Update, l).len() && plan_jobs(Plan::Update, l)[i] is Io
                && plan_jobs(Plan::Update, l)[i]->op == IoOpModel::Pull(l[k].1),
{
    let i = plan_job_position(Plan::Update, l, k, 0);
}

} // verus!
