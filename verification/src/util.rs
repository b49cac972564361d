use vstd::prelude::*;

use crate::text::{
    chars_of, decimal, join_path, strcat, joined, path_join, push_decimal, same_text,
    trim, trimmed,
};

verus! {

/// Where the repositories of installed packages are cloned.
pub const BASE_REPO_PATH: &'static str = "/var/db/forge";

/// Where the configurations of installed packages are kept.
pub const BASE_CONFIG_PATH: &'static str = "/etc/forge/packages";

/// Installed packages: each one's name, repository path and configuration path.
pub type PackageList = Vec<(String, String, String)>;

/// An entry of a [`PackageList`], by its characters.
pub type PackageEntry = (Seq<char>, Seq<char>, Seq<char>);

/// The characters of each entry of a package list.
pub open spec fn list_model(l: Seq<(String, String, String)>) -> Seq<PackageEntry> {
    l.map_values(|e: (String, String, String)| (e.0@, e.1@, e.2@))
}

/// Where the repository of the package `name` is cloned.
pub open spec fn repo_path_of(name: Seq<char>) -> Seq<char> {
    path_join(BASE_REPO_PATH@, name)
}

/// Where the configuration of the package `name` is kept.
pub open spec fn config_path_of(name: Seq<char>) -> Seq<char> {
    path_join(BASE_CONFIG_PATH@, name + ".toml"@)
}

/// The entry of an installed package `name`.
pub open spec fn entry_of(name: Seq<char>) -> PackageEntry {
    (name, repo_path_of(name), config_path_of(name))
}

/// The repository path and the configuration path of the package `name`.
pub fn package_paths(name: &str) -> (r: (String, String))
    ensures
        r.0@ == repo_path_of(name@),
        r.1@ == config_path_of(name@),
{
    let repo = join_path(BASE_REPO_PATH, name);
    let file = strcat(name, ".toml");
    let cfg = join_path(BASE_CONFIG_PATH, file.as_str());
    (repo, cfg)
}

/// `i` is the first position at which `installed` is false.
pub open spec fn first_missing(installed: Seq<bool>, i: int) -> bool {
    &&& 0 <= i < installed.len()
    &&& !installed[i]
    &&& forall|j: int| 0 <= j < i ==> installed[j]
}

/// The packages `names`, given which of them are installed (`installed[i]`:
/// both the repository and the configuration of `names[i]` exist): their entries
/// when all are installed, else the message that names the first that is not.
pub open spec fn collect_model(names: Seq<Seq<char>>, installed: Seq<bool>) -> Result<
    Seq<PackageEntry>,
    Seq<char>,
> {
    if forall|i: int| 0 <= i < installed.len() ==> installed[i] {
        Ok(names.map_values(|n: Seq<char>| entry_of(n)))
    } else {
        Err("no installed package: "@ + names[choose|i: int| first_missing(installed, i)])
    }
}

proof fn lemma_first_missing(installed: Seq<bool>, i: int)
    requires
        first_missing(installed, i),
    ensures
        !(forall|k: int| 0 <= k < installed.len() ==> installed[k]),
        (choose|k: int| first_missing(installed, k)) == i,
{
    let k = choose|k: int| first_missing(installed, k);
    assert(first_missing(installed, k));
    if k < i {
        assert(installed[k]);
    } else if i < k {
        assert(installed[i]);
    }
}

/// The installed packages among `packages`, in order, with their paths; fails on
/// the first one that is not installed. `installed[i]` tells whether both the
/// repository and the configuration of `packages[i]` exist.
pub fn collect_named_packages(packages: Vec<String>, installed: Vec<bool>) -> (r: Result<
    PackageList,
    String,
>)
    requires
        packages.len() == installed.len(),
    ensures
        match r {
            Ok(l) => collect_model(packages@.map_values(|s: String| s@), installed@) == Ok::<
                Seq<PackageEntry>,
                Seq<char>,
            >(list_model(l@)),
            Err(e) => collect_model(packages@.map_values(|s: String| s@), installed@) == Err::<
                Seq<PackageEntry>,
                Seq<char>,
            >(e@),
        },
{
    let ghost names = packages@.map_values(|s: String| s@);
    let n = packages.len();
    let mut out: PackageList = Vec::new();
    let mut i: usize = 0;
    while i < n
        invariant
            n == packages.len() == installed.len(),
            names == packages@.map_values(|s: String| s@),
            i <= n,
            forall|j: int| 0 <= j < i ==> installed@[j],
            list_model(out@) == names.take(i as int).map_values(|m: Seq<char>| entry_of(m)),
        decreases n - i,
    {
        let name = &packages[i];
        if !installed[i] {
            proof {
                assert(first_missing(installed@, i as int));
                lemma_first_missing(installed@, i as int);
            }
            return Err(strcat("no installed package: ", name.as_str()));
        }
        let (repo, cfg) = package_paths(name.as_str());
        let ghost before = list_model(out@);
        out.push((name.clone(), repo, cfg));
        assert(list_model(out@) =~= before.push(entry_of(names[i as int])));
        assert(names.take(i + 1).map_values(|m: Seq<char>| entry_of(m)) =~= names.take(
            i as int,
        ).map_values(|m: Seq<char>| entry_of(m)).push(entry_of(names[i as int])));
        i = i + 1;
    }
    assert(names.take(n as int) =~= names);
    Ok(out)
}

/// The line that announces a list of packages: the message, their number in
/// brackets, a colon, their names separated by commas, and an empty line.
pub open spec fn collected_message_model(names: Seq<Seq<char>>, message: Seq<char>) -> Seq<
    char,
> {
    message + " ("@ + decimal(names.len()) + "): "@ + joined(names, ", "@) + "\n"@
}

/// The names of the entries of a package list.
pub open spec fn names_of(l: Seq<PackageEntry>) -> Seq<Seq<char>> {
    l.map_values(|e: PackageEntry| e.0)
}

/// The line that announces `packages` under `message`, as `update`, `upgrade`,
/// `remove` and `clean` print it before they ask to proceed.
pub fn collected_packages_message(packages: &PackageList, message: &str) -> (r: String)
    ensures
        r@ == collected_message_model(names_of(list_model(packages@)), message@),
{
    let ghost names = names_of(list_model(packages@));
    let mut r = String::from_str(message);
    r.append(" (");
    push_decimal(&mut r, packages.len());
    r.append("): ");
    let ghost head = r@;
    let mut i: usize = 0;
    while i < packages.len()
        invariant
            i <= packages@.len(),
            names == names_of(list_model(packages@)),
            names.len() == packages@.len(),
            r@ == head + joined(names.take(i as int), ", "@),
        decreases packages@.len() - i,
    {
        assert(names[i as int] == packages@[i as int].0@);
        if i > 0 {
            r.append(", ");
        }
        r.append(packages[i].0.as_str());
        proof {
            let t = names.take(i + 1);
            assert(t.drop_last() =~= names.take(i as int));
            assert(t.last() == names[i as int]);
            if i == 0 {
                assert(joined(names.take(0), ", "@) =~= Seq::<char>::empty());
            }
        }
        assert(r@ =~= head + joined(names.take(i + 1), ", "@));
        i = i + 1;
    }
    assert(names.take(packages.len() as int) =~= names);
    r.append("\n");
    assert(r@ =~= collected_message_model(names, message@));
    r
}

/// The editor to open: `$VISUAL` when set, else `$EDITOR` when set, else `nano`.
pub fn choose_editor(visual: Option<String>, editor: Option<String>) -> (r: String)
    ensures
        r@ == match visual {
            Some(v) => v@,
            None => match editor {
                Some(e) => e@,
                None => "nano"@,
            },
        },
{
    match visual {
        Some(v) => v,
        None => match editor {
            Some(e) => e,
            None => String::from_str("nano"),
        },
    }
}

/// What `str::to_lowercase` gives for a string: Unicode's lower-case mapping,
/// character by character.
pub uninterp spec fn lowercase(s: Seq<char>) -> Seq<char>;

/// The lower-case form of `s`, by `str::to_lowercase`.
#[verifier::external_body]
fn to_lowercase(s: &str) -> (r: String)
    ensures
        r@ == lowercase(s@),
{
    s.to_lowercase()
}

/// A normalized answer to a yes/no question that counts as yes: `y`, `yes`, or
/// nothing at all.
pub open spec fn yes_word(s: Seq<char>) -> bool {
    s == "y"@ || s == "yes"@ || s.len() == 0
}

/// Whether an answer that is already trimmed and in lower case counts as yes.
pub fn is_yes_word(answer: &str) -> (r: bool)
    ensures
        r == yes_word(answer@),
{
    same_text(answer, "y") || same_text(answer, "yes") || chars_of(answer).len() == 0
}

/// Whether a line typed in answer to a yes/no question counts as yes: without
/// its surrounding white space and in lower case, it is `y`, `yes` or empty.
pub fn is_affirmative(line: &str) -> (r: bool)
    ensures
        r == yes_word(lowercase(trimmed(line@))),
{
    let t = trim(line);
    let l = to_lowercase(t.as_str());
    is_yes_word(l.as_str())
}

/// The question asked before a step, with the hint of the answers it takes.
pub fn prompt_text(question: &str) -> (r: String)
    ensures
        r@ == question@ + " [y/n]: "@,
{
    strcat(question, " [y/n]: ")
}

/// The reference of a local branch.
pub fn branch_ref(branch: &str) -> (r: String)
    ensures
        r@ == "refs/heads/"@ + branch@,
{
    strcat("refs/heads/", branch)
}

/// The reference of a tag.
pub fn tag_ref(tag: &str) -> (r: String)
    ensures
        r@ == "refs/tags/"@ + tag@,
{
    strcat("refs/tags/", tag)
}

/// `i` is the tag to move to among tags whose commits have the times `times`:
/// the earliest listed of those with the latest time, which must be after 0.
pub open spec fn is_latest(times: Seq<i64>, i: int) -> bool {
    &&& 0 <= i < times.len()
    &&& times[i] > 0
    &&& forall|j: int| 0 <= j < times.len() ==> times[j] <= times[i]
    &&& forall|j: int| 0 <= j < i ==> times[j] < times[i]
}

/// The tag whose commit is latest, given the commit time of each tag in the
/// order the tags are listed: the first of those with the greatest time, and
/// none when no time is after 0.
pub fn latest_tag(times: &Vec<i64>) -> (r: Option<usize>)
    ensures
        match r {
            Some(i) => is_latest(times@, i as int),
            None => forall|j: int| 0 <= j < times@.len() ==> times@[j] <= 0,
        },
{
    let mut best: Option<usize> = None;
    let mut best_time: i64 = 0;
    let mut i: usize = 0;
    while i < times.len()
        invariant
            i <= times@.len(),
            forall|j: int| 0 <= j < i ==> times@[j] <= best_time,
            match best {
                Some(b) => b < i && best_time == times@[b as int] && best_time > 0 && forall|
                    j: int,
                | 0 <= j < b ==> times@[j] < best_time,
                None => best_time == 0,
            },
        decreases times@.len() - i,
    {
        if times[i] > best_time {
            best_time = times[i];
            best = Some(i);
        }
        i = i + 1;
    }
    best
}

/// What a pull does after the merge analysis of the fetched commit.
#[derive(Clone, Copy, Debug, PartialEq, Eq, Structural)]
pub enum MergeStep {
    /// Move the branch to the fetched commit and check it out.
    FastForward,
    /// Nothing to do.
    UpToDate,
    /// The histories have diverged: a merge by hand is needed.
    Diverged,
}

/// Whether the merge analysis `bits` allows a fast-forward, by `git2::MergeAnalysis::is_fast_forward`.
#[verifier::external_body]
fn analysis_is_fast_forward(bits: u32) -> (r: bool)
    ensures
        r == (bits & 4u32 != 0u32),
{
    git2::MergeAnalysis::from_bits_truncate(bits).is_fast_forward()
}

/// Whether the merge analysis `bits` finds the branch up to date, by `git2::MergeAnalysis::is_up_to_date`.
#[verifier::external_body]
fn analysis_is_up_to_date(bits: u32) -> (r: bool)
    ensures
        r == (bits & 2u32 != 0u32),
{
    git2::MergeAnalysis::from_bits_truncate(bits).is_up_to_date()
}

/// The step that follows a merge analysis, given its raw bits: a fast-forward
/// when one is possible, else nothing when up to date, else a diverged history.
pub fn merge_step(bits: u32) -> (r: MergeStep)
    ensures
        r == if bits & 4u32 != 0u32 {
            MergeStep::FastForward
        } else if bits & 2u32 != 0u32 {
            MergeStep::UpToDate
        } else {
            MergeStep::Diverged
        },
{
    if analysis_is_fast_forward(bits) {
        MergeStep::FastForward
    } else if !analysis_is_up_to_date(bits) {
        MergeStep::Diverged
    } else {
        MergeStep::UpToDate
    }
}

} // verus!
