use forge::action::Action;
use forge::config::{Config, Hooks};
use forge::run::{Effect, Event, IoOp, Run, SpawnOutcome};

fn s(x: &str) -> String {
    x.to_string()
}

fn print_text(e: Effect) -> String {
    match e {
        Effect::Print(t) => t,
        _ => panic!("expected a print"),
    }
}

fn finish(e: Effect) -> Result<(), String> {
    match e {
        Effect::Finish(r) => r,
        _ => panic!("expected the end of the run"),
    }
}

fn step(run: &mut Run, e: Event) -> Effect {
    run.step(e);
    run.pending()
}

fn config_with(build: Option<&str>, install: Option<&str>, uninstall: Option<&str>) -> Config {
    Config {
        update: Some(s("live")),
        hooks: Some(Hooks {
            build: build.map(s),
            install: install.map(s),
            uninstall: uninstall.map(s),
            post_install: None,
            post_uninstall: None,
            clean: Some(s("make clean")),
        }),
    }
}

fn ok(x: &str) -> Result<String, String> {
    Ok(s(x))
}

#[test]
fn search_prints_and_ends() {
    let mut run = Run::start(Action::Search { term: s("vim") }, false);
    assert_eq!(print_text(run.pending()), "searching: vim");
    assert_eq!(finish(step(&mut run, Event::Ack)), Ok(()));
    assert!(run.is_finished());
}

#[test]
fn execute_starts_a_run() {
    let mut run = Action::Search { term: s("x") }.execute();
    assert_eq!(print_text(run.pending()), "searching: x");
    assert_eq!(finish(step(&mut run, Event::Ack)), Ok(()));
}

#[test]
fn version_shows_banner() {
    let mut run = Run::start(Action::Version, false);
    assert!(matches!(run.pending(), Effect::Io(IoOp::ShowVersion)));
    assert_eq!(finish(step(&mut run, Event::Done(Ok(())))), Ok(()));
}

#[test]
fn root_only_actions_refuse_others() {
    for (a, word) in [
        (Action::Update, "update"),
        (Action::List, "list"),
        (Action::Add { url: s("u") }, "add"),
        (Action::Upgrade { packages: vec![] }, "upgrade"),
        (Action::Remove { packages: vec![s("p")] }, "remove"),
        (Action::Clean { packages: vec![] }, "clean"),
    ] {
        let mut run = Run::start(a, false);
        assert_eq!(finish(run.pending()), Err(format!("{word} must be run as root")));
        assert_eq!(finish(step(&mut run, Event::Ack)), Err(format!("{word} must be run as root")));
    }
}

#[test]
fn update_pulls_each_package_after_consent() {
    let mut run = Run::start(Action::Update, true);
    assert!(matches!(run.pending(), Effect::ScanConfigDir));
    let e = step(&mut run, Event::Scanned(Ok(vec![ok("a"), ok("b")])));
    match e {
        Effect::Probe(pairs) => assert_eq!(
            pairs,
            vec![
                (s("/var/db/forge/a"), s("/etc/forge/packages/a.toml")),
                (s("/var/db/forge/b"), s("/etc/forge/packages/b.toml")),
            ]
        ),
        _ => panic!("expected a probe"),
    }
    let e = step(&mut run, Event::Probed(vec![true, true]));
    assert_eq!(print_text(e), "Packages to update (2): a, b\n");
    match step(&mut run, Event::Ack) {
        Effect::Confirm(q) => assert_eq!(q, "Proceed with update? [y/n]: "),
        _ => panic!("expected a question"),
    }
    // an event that does not answer the question changes nothing
    assert!(matches!(step(&mut run, Event::Ack), Effect::Confirm(_)));
    match step(&mut run, Event::Answer(true)) {
        Effect::Io(IoOp::Pull(p)) => assert_eq!(p, "/var/db/forge/a"),
        _ => panic!("expected a pull"),
    }
    assert_eq!(print_text(step(&mut run, Event::Done(Ok(())))), "a up to date.");
    assert!(matches!(step(&mut run, Event::Ack), Effect::Io(IoOp::Pull(_))));
    assert_eq!(
        finish(step(&mut run, Event::Done(Err(s("boom"))))),
        Err(s("failed to update repo: boom"))
    );
    assert_eq!(finish(step(&mut run, Event::Answer(true))), Err(s("failed to update repo: boom")));
}

#[test]
fn declining_ends_successfully() {
    let mut run = Run::start(Action::Clean { packages: vec![s("p")] }, true);
    assert!(matches!(run.pending(), Effect::Probe(_)));
    step(&mut run, Event::Probed(vec![true]));
    assert_eq!(print_text(run.pending()), "Packages to clean (1): p\n");
    assert!(matches!(step(&mut run, Event::Ack), Effect::Confirm(_)));
    assert_eq!(finish(step(&mut run, Event::Answer(false))), Ok(()));
}

#[test]
fn scan_failures_come_in_order() {
    let entries = vec![ok("a"), Err(s("bad entry")), ok("c")];
    let mut run = Run::start(Action::Update, true);
    match step(&mut run, Event::Scanned(Ok(entries.clone()))) {
        Effect::Probe(pairs) => assert_eq!(pairs.len(), 1),
        _ => panic!("expected a probe"),
    }
    assert_eq!(finish(step(&mut run, Event::Probed(vec![false]))), Err(s("no installed package: a")));

    let mut run = Run::start(Action::Update, true);
    step(&mut run, Event::Scanned(Ok(entries)));
    // a probe of the wrong length answers nothing
    assert!(matches!(step(&mut run, Event::Probed(vec![true, true])), Effect::Probe(_)));
    assert_eq!(finish(step(&mut run, Event::Probed(vec![true]))), Err(s("bad entry")));

    let mut run = Run::start(Action::Update, true);
    assert_eq!(
        finish(step(&mut run, Event::Scanned(Err(s("failed to iterate package directory: x"))))),
        Err(s("failed to iterate package directory: x"))
    );
}

#[test]
fn upgrade_builds_then_installs() {
    let mut run = Run::start(Action::Upgrade { packages: vec![s("p")] }, true);
    step(&mut run, Event::Probed(vec![true]));
    assert_eq!(print_text(run.pending()), "Packages to upgrade (1): p\n");
    step(&mut run, Event::Ack);
    match step(&mut run, Event::Answer(true)) {
        Effect::LoadConfig(p) => assert_eq!(p, "/etc/forge/packages/p.toml"),
        _ => panic!("expected to load the configuration"),
    }
    match step(&mut run, Event::Loaded(Some(config_with(Some("make -j2"), None, None)))) {
        Effect::Spawn { program, args, dir } => {
            assert_eq!(program, "make");
            assert_eq!(args, vec!["-j2"]);
            assert_eq!(dir, Some(s("/var/db/forge/p")));
        }
        _ => panic!("expected a spawn"),
    }
    let e = step(&mut run, Event::Ran(SpawnOutcome::Exited { success: true, status: s("exit status: 0") }));
    assert!(matches!(e, Effect::LoadConfig(_)));
    // the install hook is not set: nothing runs
    let e = step(&mut run, Event::Loaded(Some(config_with(Some("make"), None, None))));
    assert_eq!(print_text(e), "Upgraded p");
    assert_eq!(finish(step(&mut run, Event::Ack)), Ok(()));
}

#[test]
fn hook_failures() {
    let start = || {
        let mut run = Run::start(Action::Upgrade { packages: vec![s("p")] }, true);
        step(&mut run, Event::Probed(vec![true]));
        step(&mut run, Event::Ack);
        step(&mut run, Event::Answer(true));
        run
    };
    let mut run = start();
    assert_eq!(finish(step(&mut run, Event::Loaded(None))), Err(s("config not found")));
    let mut run = start();
    let no_hooks = Config { update: None, hooks: None };
    assert_eq!(finish(step(&mut run, Event::Loaded(Some(no_hooks)))), Err(s("no hooks section")));
    let mut run = start();
    step(&mut run, Event::Loaded(Some(config_with(Some("make"), None, None))));
    assert_eq!(
        finish(step(&mut run, Event::Ran(SpawnOutcome::Failed(s("not found"))))),
        Err(s("failed to execute command: not found"))
    );
    let mut run = start();
    step(&mut run, Event::Loaded(Some(config_with(Some("make"), None, None))));
    assert_eq!(
        finish(step(&mut run, Event::Ran(SpawnOutcome::Exited { success: false, status: s("exit status: 2") }))),
        Err(s("command exited with non-zero status: exit status: 2"))
    );
}

#[test]
fn remove_uninstalls_then_deletes() {
    let mut run = Run::start(Action::Remove { packages: vec![s("p")] }, true);
    assert_eq!(print_text(run.pending()), "Checking dependencies...\n");
    assert!(matches!(step(&mut run, Event::Ack), Effect::Probe(_)));
    assert_eq!(print_text(step(&mut run, Event::Probed(vec![true]))), "Packages to remove (1): p\n");
    match step(&mut run, Event::Ack) {
        Effect::ReportSize(paths) => assert_eq!(paths, vec![s("/var/db/forge/p")]),
        _ => panic!("expected a size report"),
    }
    match step(&mut run, Event::Ack) {
        Effect::Confirm(q) => assert_eq!(q, "Proceed with removal? [y/n]: "),
        _ => panic!("expected a question"),
    }
    step(&mut run, Event::Answer(true));
    step(&mut run, Event::Loaded(Some(config_with(None, None, Some("make uninstall")))));
    match step(&mut run, Event::Ran(SpawnOutcome::Exited { success: true, status: s("0") })) {
        Effect::Io(IoOp::RemoveDir(p)) => assert_eq!(p, "/var/db/forge/p"),
        _ => panic!("expected the removal of the repository"),
    }
    match step(&mut run, Event::Done(Ok(()))) {
        Effect::Io(IoOp::RemoveFile(p)) => assert_eq!(p, "/etc/forge/packages/p.toml"),
        _ => panic!("expected the removal of the configuration"),
    }
    assert_eq!(
        finish(step(&mut run, Event::Done(Err(s("permission denied"))))),
        Err(s("failed to remove p: permission denied"))
    );
}

#[test]
fn remove_of_missing_package_fails() {
    let mut run = Run::start(Action::Remove { packages: vec![s("p"), s("q")] }, true);
    step(&mut run, Event::Ack);
    assert_eq!(finish(step(&mut run, Event::Probed(vec![true, false]))), Err(s("no installed package: q")));
}

#[test]
fn add_walks_through_its_steps() {
    let url = "https://example.org/me/proj.git";
    let mut run = Run::start(Action::Add { url: s(url) }, true);
    assert_eq!(print_text(run.pending()), "Creating config: proj.toml");
    match step(&mut run, Event::Ack) {
        Effect::Io(IoOp::EnsureDir(p)) => assert_eq!(p, "/var/lib/forge/.tmp"),
        _ => panic!("expected the temp directory"),
    }
    match step(&mut run, Event::Done(Ok(()))) {
        Effect::Io(IoOp::WriteFile(p, text)) => {
            assert_eq!(p, "/var/lib/forge/.tmp/proj.toml");
            assert!(text.starts_with("# proj configuration\n"));
        }
        _ => panic!("expected the template"),
    }
    assert!(matches!(step(&mut run, Event::Done(Ok(()))), Effect::LookupEditor));
    match step(&mut run, Event::Editor(None, Some(s("vim")))) {
        Effect::Spawn { program, args, dir } => {
            assert_eq!(program, "vim");
            assert_eq!(args, vec![s("/var/lib/forge/.tmp/proj.toml")]);
            assert_eq!(dir, None);
        }
        _ => panic!("expected the editor"),
    }
    match step(&mut run, Event::Ran(SpawnOutcome::Exited { success: true, status: s("0") })) {
        Effect::Clone { url: u, path } => {
            assert_eq!(u, url);
            assert_eq!(path, "/var/db/forge/proj");
        }
        _ => panic!("expected a clone"),
    }
    match step(&mut run, Event::Cloned(ok("/var/db/forge/proj/.git/"))) {
        Effect::Io(IoOp::EnsureDir(p)) => assert_eq!(p, "/etc/forge/packages"),
        _ => panic!("expected the configuration directory"),
    }
    match step(&mut run, Event::Done(Ok(()))) {
        Effect::Io(IoOp::Rename(a, b)) => {
            assert_eq!(a, "/var/lib/forge/.tmp/proj.toml");
            assert_eq!(b, "/etc/forge/packages/proj.toml");
        }
        _ => panic!("expected the move"),
    }
    assert_eq!(
        print_text(step(&mut run, Event::Done(Ok(())))),
        "New package initialized at: /var/db/forge/proj/.git/\n"
    );
    match step(&mut run, Event::Ack) {
        Effect::Confirm(q) => assert_eq!(q, "Run build and install commands? [y/n]: "),
        _ => panic!("expected a question"),
    }
    assert_eq!(print_text(step(&mut run, Event::Answer(true))), "Building...");
    assert!(matches!(step(&mut run, Event::Ack), Effect::LoadConfig(_)));
    step(&mut run, Event::Loaded(Some(config_with(None, Some("make install"), None))));
    assert_eq!(print_text(run.pending()), "Installing...");
    assert!(matches!(step(&mut run, Event::Ack), Effect::LoadConfig(_)));
    assert!(matches!(
        step(&mut run, Event::Loaded(Some(config_with(None, Some("make install"), None)))),
        Effect::Spawn { .. }
    ));
    assert_eq!(
        finish(step(&mut run, Event::Ran(SpawnOutcome::Exited { success: true, status: s("0") }))),
        Ok(())
    );
}

#[test]
fn add_failures() {
    let to_edit = || {
        let mut run = Run::start(Action::Add { url: s("u/x") }, true);
        step(&mut run, Event::Ack);
        step(&mut run, Event::Done(Ok(())));
        step(&mut run, Event::Done(Ok(())));
        run
    };
    let mut run = Run::start(Action::Add { url: s("u/x") }, true);
    step(&mut run, Event::Ack);
    assert_eq!(
        finish(step(&mut run, Event::Done(Err(s("denied"))))),
        Err(s("failed to create temp config directory: denied"))
    );
    let mut run = to_edit();
    step(&mut run, Event::Editor(None, None));
    assert!(matches!(run.pending(), Effect::Spawn { ref program, .. } if program == "nano"));
    assert_eq!(
        finish(step(&mut run, Event::Ran(SpawnOutcome::Failed(s("no such file"))))),
        Err(s("failed to execute editor: no such file"))
    );
    let mut run = to_edit();
    step(&mut run, Event::Editor(Some(s("code")), Some(s("vim"))));
    assert_eq!(
        finish(step(&mut run, Event::Ran(SpawnOutcome::Exited { success: false, status: s("exit status: 1") }))),
        Err(s("editor exited with non-zero status: exit status: 1"))
    );
    let mut run = to_edit();
    step(&mut run, Event::Editor(None, None));
    step(&mut run, Event::Ran(SpawnOutcome::Exited { success: true, status: s("0") }));
    assert_eq!(finish(step(&mut run, Event::Cloned(Err(s("offline"))))), Err(s("failed to clone x: offline")));
}

#[test]
fn show_prints_the_configuration() {
    let mut run = Run::start(Action::Show { package: s("p") }, false);
    match run.pending() {
        Effect::LoadConfig(p) => assert_eq!(p, "/etc/forge/packages/p.toml"),
        _ => panic!("expected to load the configuration"),
    }
    let e = step(&mut run, Event::Loaded(Some(config_with(Some("make"), None, None))));
    assert_eq!(print_text(e), "update: live\nhooks:\n  build: make\n  clean: make clean");
    assert_eq!(finish(step(&mut run, Event::Ack)), Ok(()));

    let mut run = Run::start(Action::Show { package: s("p") }, false);
    assert_eq!(finish(step(&mut run, Event::Loaded(None))), Err(s("config not found")));

    let mut run = Run::start(Action::Show { package: s("p") }, false);
    let empty = Config { update: None, hooks: None };
    assert_eq!(finish(step(&mut run, Event::Loaded(Some(empty)))), Ok(()));
}

#[test]
fn list_reports_its_own_failure() {
    let mut run = Run::start(Action::List, true);
    assert!(matches!(run.pending(), Effect::Io(IoOp::ListInstalled)));
    assert_eq!(finish(step(&mut run, Event::Done(Err(s("x"))))), Err(s("x")));
}

#[test]
fn clean_without_names_scans_all() {
    let mut run = Run::start(Action::Clean { packages: vec![] }, true);
    assert!(matches!(run.pending(), Effect::ScanConfigDir));
    step(&mut run, Event::Scanned(Ok(vec![])));
    assert_eq!(print_text(step(&mut run, Event::Probed(vec![]))), "Packages to clean (0): \n");
    step(&mut run, Event::Ack);
    assert_eq!(finish(step(&mut run, Event::Answer(true))), Ok(()));
}

#[test]
fn failure_line_prefix() {
    assert_eq!(forge::run::failure_line("oops"), "forge: oops");
}
