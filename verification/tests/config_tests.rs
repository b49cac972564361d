use forge::config::{config_file_name, config_template, Config, ConfigCommand, Hooks};

fn hooks(build: Option<&str>, install: Option<&str>) -> Hooks {
    Hooks {
        build: build.map(|s| s.to_string()),
        install: install.map(|s| s.to_string()),
        uninstall: Some("make uninstall".to_string()),
        post_install: Some("".to_string()),
        post_uninstall: None,
        clean: Some("   ".to_string()),
    }
}

#[test]
fn hook_argv_splits_the_selected_hook() {
    let c = Config { update: None, hooks: Some(hooks(Some("make  -j4  all"), None)) };
    assert_eq!(c.hook_argv(ConfigCommand::Build).unwrap(), vec!["make", "-j4", "all"]);
    assert_eq!(c.hook_argv(ConfigCommand::Uninstall).unwrap(), vec!["make", "uninstall"]);
}

#[test]
fn missing_or_blank_hook_runs_nothing() {
    let c = Config { update: None, hooks: Some(hooks(None, None)) };
    assert!(c.hook_argv(ConfigCommand::Install).unwrap().is_empty());
    assert!(c.hook_argv(ConfigCommand::PostInstall).unwrap().is_empty());
    assert!(c.hook_argv(ConfigCommand::PostUninstall).unwrap().is_empty());
    assert!(c.hook_argv(ConfigCommand::Clean).unwrap().is_empty());
}

#[test]
fn no_hooks_section_is_an_error() {
    let c = Config { update: Some("live".to_string()), hooks: None };
    assert_eq!(c.hook_argv(ConfigCommand::Build).unwrap_err(), "no hooks section");
}

#[test]
fn log_lines_show_what_is_set() {
    let c = Config { update: Some("live".to_string()), hooks: Some(hooks(Some("make"), None)) };
    assert_eq!(
        c.log_lines(),
        vec![
            "update: live",
            "hooks:",
            "  build: make",
            "  uninstall: make uninstall",
            "  post_install: ",
            "  clean:    ",
        ]
    );
    let empty = Config { update: None, hooks: None };
    assert!(empty.log_lines().is_empty());
}

#[test]
fn template_and_file_name() {
    assert_eq!(config_file_name("vim"), "vim.toml");
    let expected = "# vim configuration\nupdate = \"live\" # no | live | tagged\n\n[hooks]\nbuild = \"make\"\ninstall = \"make install\"\nuninstall = \"make uninstall\"\npost_install = \"\"\npost_uninstall = \"\"\nclean = \"make clean\"\n    ";
    assert_eq!(config_template("vim"), expected);
}
