use forge::action::{repo_name, Action};

fn args(v: &[&str]) -> Vec<String> {
    v.iter().map(|s| s.to_string()).collect()
}

fn parse_err(v: &[&str]) -> String {
    match Action::parse(&args(v)) {
        Err(e) => e,
        Ok(_) => panic!("expected an error"),
    }
}

#[test]
fn parse_without_command_fails() {
    assert_eq!(parse_err(&[]), "no command provided");
    assert_eq!(parse_err(&["forge"]), "no command provided");
}

#[test]
fn parse_add_needs_repo() {
    assert_eq!(parse_err(&["forge", "add"]), "add requires <repo>");
}

#[test]
fn parse_add_with_repo() {
    match Action::parse(&args(&["forge", "add", "https://example.org/x.git", "extra"])) {
        Ok(Action::Add { url }) => assert_eq!(url, "https://example.org/x.git"),
        _ => panic!("expected add"),
    }
}

#[test]
fn parse_simple_commands() {
    assert!(matches!(Action::parse(&args(&["forge", "update"])), Ok(Action::Update)));
    assert!(matches!(Action::parse(&args(&["forge", "update", "x"])), Ok(Action::Update)));
    assert!(matches!(Action::parse(&args(&["forge", "list"])), Ok(Action::List)));
    assert!(matches!(Action::parse(&args(&["forge", "--version"])), Ok(Action::Version)));
}

#[test]
fn parse_upgrade_and_clean_take_any_number_of_packages() {
    match Action::parse(&args(&["forge", "upgrade"])) {
        Ok(Action::Upgrade { packages }) => assert!(packages.is_empty()),
        _ => panic!("expected upgrade"),
    }
    match Action::parse(&args(&["forge", "upgrade", "a", "b"])) {
        Ok(Action::Upgrade { packages }) => assert_eq!(packages, vec!["a", "b"]),
        _ => panic!("expected upgrade"),
    }
    match Action::parse(&args(&["forge", "clean", "c"])) {
        Ok(Action::Clean { packages }) => assert_eq!(packages, vec!["c"]),
        _ => panic!("expected clean"),
    }
}

#[test]
fn parse_remove_needs_a_package() {
    assert_eq!(parse_err(&["forge", "remove"]), "remove requires a package");
    match Action::parse(&args(&["forge", "remove", "a", "b"])) {
        Ok(Action::Remove { packages }) => assert_eq!(packages, vec!["a", "b"]),
        _ => panic!("expected remove"),
    }
}

#[test]
fn parse_search_and_show() {
    assert_eq!(parse_err(&["forge", "search"]), "search requires <term>");
    assert_eq!(parse_err(&["forge", "show"]), "show requires <package>");
    match Action::parse(&args(&["forge", "search", "vim"])) {
        Ok(Action::Search { term }) => assert_eq!(term, "vim"),
        _ => panic!("expected search"),
    }
    match Action::parse(&args(&["forge", "show", "vim"])) {
        Ok(Action::Show { package }) => assert_eq!(package, "vim"),
        _ => panic!("expected show"),
    }
}

#[test]
fn parse_unknown_command() {
    assert_eq!(parse_err(&["forge", "frobnicate"]), "unknown command frobnicate");
    assert_eq!(parse_err(&["forge", "ADD", "x"]), "unknown command ADD");
    assert_eq!(parse_err(&["forge", ""]), "unknown command ");
}

#[test]
fn parse_ignores_program_name() {
    let a = Action::parse(&args(&["forge", "remove", "p"]));
    let b = Action::parse(&args(&["/usr/bin/other", "remove", "p"]));
    match (a, b) {
        (Ok(Action::Remove { packages: x }), Ok(Action::Remove { packages: y })) => assert_eq!(x, y),
        _ => panic!("expected remove twice"),
    }
    assert_eq!(parse_err(&["x", "nope"]), parse_err(&["forge", "nope"]));
}

#[test]
fn repo_name_takes_last_segment_without_git() {
    assert_eq!(repo_name("https://github.com/user/forge.git"), "forge");
    assert_eq!(repo_name("https://github.com/user/forge"), "forge");
    assert_eq!(repo_name("git@host:user/proj.git"), "proj");
    assert_eq!(repo_name("plain"), "plain");
    assert_eq!(repo_name("a/b/"), "");
    assert_eq!(repo_name(".git"), "");
    assert_eq!(repo_name("x/git"), "git");
    assert_eq!(repo_name("x/y.git.git"), "y.git");
}
