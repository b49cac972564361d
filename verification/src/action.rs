use vstd::prelude::*;

use crate::text::{chars_of, strcat, same_text, string_of_range};

verus! {

/// A command given on the command line.
pub enum Action {
    Add { url: String },
    Update,
    Upgrade { packages: Vec<String> },
    Remove { packages: Vec<String> },
    List,
    Search { term: String },
    Clean { packages: Vec<String> },
    Show { package: String },
    Version,
}

/// What an [`Action`] denotes, with its strings taken by their characters.
pub enum ActionModel {
    Add { url: Seq<char> },
    Update,
    Upgrade { packages: Seq<Seq<char>> },
    Remove { packages: Seq<Seq<char>> },
    List,
    Search { term: Seq<char> },
    Clean { packages: Seq<Seq<char>> },
    Show { package: Seq<char> },
    Version,
}

/// The characters of each string of `v`.
pub open spec fn texts(v: Seq<String>) -> Seq<Seq<char>> {
    v.map_values(|s: String| s@)
}

impl View for Action {
    type V = ActionModel;

    open spec fn view(&self) -> ActionModel {
        match self {
            Action::Add { url } => ActionModel::Add { url: url@ },
            Action::Update => ActionModel::Update,
            Action::Upgrade { packages } => ActionModel::Upgrade { packages: texts(packages@) },
            Action::Remove { packages } => ActionModel::Remove { packages: texts(packages@) },
            Action::List => ActionModel::List,
            Action::Search { term } => ActionModel::Search { term: term@ },
            Action::Clean { packages } => ActionModel::Clean { packages: texts(packages@) },
            Action::Show { package } => ActionModel::Show { package: package@ },
            Action::Version => ActionModel::Version,
        }
    }
}

/// The action that the argument list `args` asks for (`args[0]` is the program's
/// name), or the message that explains why there is none.
pub open spec fn parse_model(args: Seq<Seq<char>>) -> Result<ActionModel, Seq<char>> {
    if args.len() < 2 {
        Err("no command provided"@)
    } else {
        let cmd = args[1];
        let rest = args.skip(2);
        if cmd == "add"@ {
            if args.len() < 3 {
                Err("add requires <repo>"@)
            } else {
                Ok(ActionModel::Add { url: args[2] })
            }
        } else if cmd == "update"@ {
            Ok(ActionModel::Update)
        } else if cmd == "upgrade"@ {
            Ok(ActionModel::Upgrade { packages: rest })
        } else if cmd == "remove"@ {
            if rest.len() == 0 {
                Err("remove requires a package"@)
            } else {
                Ok(ActionModel::Remove { packages: rest })
            }
        } else if cmd == "list"@ {
            Ok(ActionModel::List)
        } else if cmd == "search"@ {
            if args.len() < 3 {
                Err("search requires <term>"@)
            } else {
                Ok(ActionModel::Search { term: args[2] })
            }
        } else if cmd == "clean"@ {
            Ok(ActionModel::Clean { packages: rest })
        } else if cmd == "show"@ {
            if args.len() < 3 {
                Err("show requires <package>"@)
            } else {
                Ok(ActionModel::Show { package: args[2] })
            }
        } else if cmd == "--version"@ {
            Ok(ActionModel::Version)
        } else {
            Err("unknown command "@ + cmd)
        }
    }
}

/// Copies `args[from..]` into a new vector.
fn copy_from(args: &[String], from: usize) -> (r: Vec<String>)
    requires
        from <= args@.len(),
    ensures
        texts(r@) == texts(args@).skip(from as int),
{
    let mut r: Vec<String> = Vec::new();
    let mut i = from;
    while i < args.len()
        invariant
            from <= i <= args@.len(),
            texts(r@) == texts(args@).subrange(from as int, i as int),
        decreases args@.len() - i,
    {
        let s = args[i].clone();
        assert(s@ == texts(args@)[i as int]);
        let ghost before = r@;
        r.push(s);
        assert(r@ == before.push(s));
        assert(texts(r@) =~= texts(before).push(s@));
        assert(texts(r@) =~= texts(args@).subrange(from as int, i + 1));
        i = i + 1;
    }
    assert(texts(args@).subrange(from as int, args@.len() as int) =~= texts(args@).skip(
        from as int,
    ));
    r
}

impl Action {
    /// Reads the action from the command line: `args[0]` is the program's name,
    /// `args[1]` the command and what follows its operands.
    pub fn parse(args: &[String]) -> (r: Result<Action, String>)
        ensures
            match r {
                Ok(a) => parse_model(texts(args@)) == Ok::<ActionModel, Seq<char>>(a@),
                Err(e) => parse_model(texts(args@)) == Err::<ActionModel, Seq<char>>(e@),
            },
    {
        let ghost m = texts(args@);
        if args.len() < 2 {
            return Err(String::from_str("no command provided"));
        }
        let cmd = args[1].as_str();
        assert(cmd@ == m[1]);
        assert(args.len() >= 3 ==> args[2]@ == m[2]);
        if same_text(cmd, "add") {
            if args.len() < 3 {
                Err(String::from_str("add requires <repo>"))
            } else {
                Ok(Action::Add { url: args[2].clone() })
            }
        } else if same_text(cmd, "update") {
            Ok(Action::Update)
        } else if same_text(cmd, "upgrade") {
            Ok(Action::Upgrade { packages: copy_from(args, 2) })
        } else if same_text(cmd, "remove") {
            let packages = copy_from(args, 2);
            if packages.len() == 0 {
                Err(String::from_str("remove requires a package"))
            } else {
                Ok(Action::Remove { packages })
            }
        } else if same_text(cmd, "list") {
            Ok(Action::List)
        } else if same_text(cmd, "search") {
            if args.len() < 3 {
                Err(String::from_str("search requires <term>"))
            } else {
                Ok(Action::Search { term: args[2].clone() })
            }
        } else if same_text(cmd, "clean") {
            Ok(Action::Clean { packages: copy_from(args, 2) })
        } else if same_text(cmd, "show") {
            if args.len() < 3 {
                Err(String::from_str("show requires <package>"))
            } else {
                Ok(Action::Show { package: args[2].clone() })
            }
        } else if same_text(cmd, "--version") {
            Ok(Action::Version)
        } else {
            Err(strcat("unknown command ", cmd))
        }
    }
}

/// The program's own name, `args[0]`, plays no part in which action is read.
pub proof fn lemma_parse_ignores_program_name(args: Seq<Seq<char>>, name: Seq<char>)
    requires
        args.len() >= 1,
    ensures
        parse_model(args.update(0, name)) == parse_model(args),
{
    let a2 = args.update(0, name);
    if args.len() >= 2 {
        assert(a2.skip(2) =~= args.skip(2));
    }
}

/// Every action that `parse` reads names a command: with no command word the
/// argument list is refused.
pub proof fn lemma_parse_needs_command(args: Seq<Seq<char>>)
    requires
        args.len() < 2,
    ensures
        parse_model(args) == Err::<ActionModel, Seq<char>>("no command provided"@),
{
}


/// The part of `url` after its last `/` (all of it when it has none).
pub open spec fn last_segment(url: Seq<char>) -> Seq<char>
    decreases url.len(),
{
    if url.len() == 0 {
        url
    } else if url.last() == '/' {
        Seq::empty()
    } else {
        last_segment(url.drop_last()).push(url.last())
    }
}

/// `s` without the suffix `suffix`, when it ends with it.
pub open spec fn strip_suffix(s: Seq<char>, suffix: Seq<char>) -> Seq<char> {
    if suffix.len() <= s.len() && s.skip(s.len() - suffix.len()) == suffix {
        s.take(s.len() - suffix.len())
    } else {
        s
    }
}

/// The name of the package that the repository at `url` becomes: the last
/// segment of the URL, without a `.git` suffix.
pub open spec fn repo_name_model(url: Seq<char>) -> Seq<char> {
    strip_suffix(last_segment(url), ".git"@)
}

proof fn lemma_last_segment_from(s: Seq<char>, k: int)
    requires
        0 <= k <= s.len(),
        forall|j: int| k <= j < s.len() ==> s[j] != '/',
        k > 0 ==> s[k - 1] == '/',
    ensures
        last_segment(s) == s.skip(k),
    decreases s.len(),
{
    if s.len() == 0 {
        assert(s.skip(k) =~= s);
    } else if k == s.len() {
        assert(s.skip(k) =~= Seq::<char>::empty());
    } else {
        lemma_last_segment_from(s.drop_last(), k);
        assert(s.drop_last().skip(k).push(s.last()) =~= s.skip(k));
    }
}

/// The name of the package that the repository at `url` becomes: the part after
/// the last `/`, without a trailing `.git`.
pub fn repo_name(url: &str) -> (r: String)
    ensures
        r@ == repo_name_model(url@),
{
    let cs = chars_of(url);
    let n = cs.len();
    let mut k = n;
    while k > 0 && cs[k - 1] != '/'
        invariant
            k <= n == cs.len(),
            forall|j: int| k <= j < n ==> cs@[j] != '/',
        decreases k,
    {
        k = k - 1;
    }
    proof {
        lemma_last_segment_from(cs@, k as int);
    }
    let seg = string_of_range(&cs, k, n);
    let sc = chars_of(seg.as_str());
    let suffix = chars_of(".git");
    let m = sc.len();
    let t = suffix.len();
    if t <= m {
        let mut i: usize = 0;
        let mut same = true;
        while i < t
            invariant
                t <= m,
                m == sc@.len(),
                t == suffix@.len(),
                i <= t,
                same == (forall|j: int| 0 <= j < i ==> sc@[m - t + j] == suffix@[j]),
            decreases t - i,
        {
            if sc[m - t + i] != suffix[i] {
                same = false;
            }
            i = i + 1;
        }
        proof {
            let tail = sc@.skip(m - t);
            if same {
                assert(tail =~= suffix@);
            } else {
                let j = choose|j: int| 0 <= j < t && sc@[m - t + j] != suffix@[j];
                assert(tail[j] != suffix@[j]);
            }
        }
        if same {
            let r = string_of_range(&sc, 0, m - t);
            assert(r@ =~= sc@.take(m - t));
            return r;
        }
    }
    seg
}


/// The command words are told apart: each differs from every other.
proof fn lemma_command_words_differ()
    ensures
        "add"@.len() == 3,
        "update"@.len() == 6,
        "upgrade"@.len() == 7,
        "remove"@.len() == 6,
        "list"@.len() == 4,
        "search"@.len() == 6,
        "clean"@.len() == 5,
        "show"@.len() == 4,
        "update"@ != "remove"@,
        "update"@ != "search"@,
        "remove"@ != "search"@,
        "list"@ != "show"@,
{
    reveal_strlit("add");
    reveal_strlit("update");
    reveal_strlit("upgrade");
    reveal_strlit("remove");
    reveal_strlit("list");
    reveal_strlit("search");
    reveal_strlit("clean");
    reveal_strlit("show");
    assert("update"@[0] != "remove"@[0]);
    assert("update"@[0] != "search"@[0]);
    assert("remove"@[0] != "search"@[0]);
    assert("list"@[0] != "show"@[0]);
}

/// `upgrade` and `clean` take every word after the command as a package, in
/// order, and none is dropped or added.
pub proof fn lemma_parse_keeps_all_packages(args: Seq<Seq<char>>)
    requires
        args.len() >= 2,
        args[1] == "upgrade"@ || args[1] == "clean"@,
    ensures
        match parse_model(args) {
            Ok(ActionModel::Upgrade { packages }) => args[1] == "upgrade"@ && packages.len()
                == args.len() - 2 && forall|i: int|
                0 <= i < packages.len() ==> packages[i] == args[i + 2],
            Ok(ActionModel::Clean { packages }) => args[1] == "clean"@ && packages.len()
                == args.len() - 2 && forall|i: int|
                0 <= i < packages.len() ==> packages[i] == args[i + 2],
            _ => false,
        },
{
    lemma_command_words_differ();
}

/// `remove` takes every word after the command as a package, in order, and is
/// refused without one.
pub proof fn lemma_parse_remove_keeps_all_packages(args: Seq<Seq<char>>)
    requires
        args.len() >= 2,
        args[1] == "remove"@,
    ensures
        args.len() == 2 ==> parse_model(args) is Err,
        args.len() > 2 ==> match parse_model(args) {
            Ok(ActionModel::Remove { packages }) => packages.len() == args.len() - 2 && forall|
                i: int,
            | 0 <= i < packages.len() ==> packages[i] == args[i + 2],
            _ => false,
        },
{
    lemma_command_words_differ();
}

/// `add`, `search` and `show` take the word after the command as their operand.
pub proof fn lemma_parse_operand(args: Seq<Seq<char>>)
    requires
        args.len() >= 3,
    ensures
        args[1] == "add"@ ==> parse_model(args) == Ok::<ActionModel, Seq<char>>(
            ActionModel::Add { url: args[2] },
        ),
        args[1] == "search"@ ==> parse_model(args) == Ok::<ActionModel, Seq<char>>(
            ActionModel::Search { term: args[2] },
        ),
        args[1] == "show"@ ==> parse_model(args) == Ok::<ActionModel, Seq<char>>(
            ActionModel::Show { package: args[2] },
        ),
{
    lemma_command_words_differ();
}

proof fn lemma_last_segment_no_slash(url: Seq<char>)
    ensures
        forall|i: int| 0 <= i < last_segment(url).len() ==> last_segment(url)[i] != '/',
    decreases url.len(),
{
    if url.len() > 0 && url.last() != '/' {
        lemma_last_segment_no_slash(url.drop_last());
        let a = last_segment(url.drop_last());
        assert forall|i: int| 0 <= i < a.push(url.last()).len() implies a.push(url.last())[i]
            != '/' by {
            if i < a.len() {
                assert(a.push(url.last())[i] == a[i]);
            }
        }
    }
}

/// The name of a package added from a URL holds no `/`, and the URL ends with it,
/// or with it followed by `.git`.
pub proof fn lemma_repo_name_is_last_segment(url: Seq<char>)
    ensures
        forall|i: int|
            0 <= i < repo_name_model(url).len() ==> #[trigger] repo_name_model(url)[i] != '/',
        url.len() >= repo_name_model(url).len(),
        url.skip(url.len() - repo_name_model(url).len()) == repo_name_model(url) || (url.len()
            >= repo_name_model(url).len() + 4 && url.skip(
            url.len() - repo_name_model(url).len() - 4,
        ) == repo_name_model(url) + ".git"@),
{
    reveal_strlit(".git");
    lemma_last_segment_no_slash(url);
    lemma_last_segment_suffix(url);
    let seg = last_segment(url);
    let n = repo_name_model(url);
    if ".git"@.len() <= seg.len() && seg.skip(seg.len() - 4) == ".git"@ {
        assert(n == seg.take(seg.len() - 4));
        assert(seg =~= n + ".git"@);
        assert(url.skip(url.len() - n.len() - 4) =~= seg);
    }
}

proof fn lemma_last_segment_suffix(url: Seq<char>)
    ensures
        last_segment(url).len() <= url.len(),
        url.skip(url.len() - last_segment(url).len()) == last_segment(url),
    decreases url.len(),
{
    if url.len() == 0 {
        assert(url.skip(0) =~= url);
    } else if url.last() == '/' {
        assert(url.skip(url.len() as int) =~= Seq::<char>::empty());
    } else {
        lemma_last_segment_suffix(url.drop_last());
        let a = last_segment(url.drop_last());
        let d = url.drop_last();
        assert(d.skip(d.len() - a.len()) == a);
        assert(url.skip(url.len() - (a.len() + 1)) =~= a.push(url.last())) by {
            assert forall|i: int| 0 <= i < a.len() implies url.skip(url.len() - (a.len() + 1))[i]
                == a[i] by {
                assert(d.skip(d.len() - a.len())[i] == a[i]);
            }
        }
    }
}


} // verus!
