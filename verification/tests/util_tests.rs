use forge::util::{
    branch_ref, choose_editor, collect_named_packages, collected_packages_message, is_affirmative,
    is_yes_word, latest_tag, merge_step, package_paths, prompt_text, tag_ref, MergeStep,
};

fn names(v: &[&str]) -> Vec<String> {
    v.iter().map(|s| s.to_string()).collect()
}

#[test]
fn paths_of_a_package() {
    let (repo, cfg) = package_paths("vim");
    assert_eq!(repo, "/var/db/forge/vim");
    assert_eq!(cfg, "/etc/forge/packages/vim.toml");
}

#[test]
fn collect_named_all_installed() {
    let l = collect_named_packages(names(&["a", "b"]), vec![true, true]).unwrap();
    assert_eq!(
        l,
        vec![
            ("a".to_string(), "/var/db/forge/a".to_string(), "/etc/forge/packages/a.toml".to_string()),
            ("b".to_string(), "/var/db/forge/b".to_string(), "/etc/forge/packages/b.toml".to_string()),
        ]
    );
    assert!(collect_named_packages(Vec::new(), Vec::new()).unwrap().is_empty());
}

#[test]
fn collect_named_reports_first_missing() {
    let e = collect_named_packages(names(&["a", "b", "c"]), vec![true, false, false]).unwrap_err();
    assert_eq!(e, "no installed package: b");
}

#[test]
fn collected_message() {
    let l = collect_named_packages(names(&["a", "b"]), vec![true, true]).unwrap();
    assert_eq!(collected_packages_message(&l, "Packages to update"), "Packages to update (2): a, b\n");
    assert_eq!(collected_packages_message(&Vec::new(), "Packages to clean"), "Packages to clean (0): \n");
    let many: Vec<String> = (0..12).map(|i| format!("p{i}")).collect();
    let l = collect_named_packages(many, vec![true; 12]).unwrap();
    assert!(collected_packages_message(&l, "M").starts_with("M (12): p0, p1"));
}

#[test]
fn editor_choice() {
    assert_eq!(choose_editor(Some("code".into()), Some("vim".into())), "code");
    assert_eq!(choose_editor(None, Some("vim".into())), "vim");
    assert_eq!(choose_editor(None, None), "nano");
}

#[test]
fn yes_answers() {
    assert!(is_affirmative("y\n"));
    assert!(is_affirmative("  YES  \n"));
    assert!(is_affirmative("Y"));
    assert!(is_affirmative("\n"));
    assert!(is_affirmative(""));
    assert!(!is_affirmative("n\n"));
    assert!(!is_affirmative("yes please"));
    assert!(!is_affirmative("ja"));
    assert!(is_yes_word("yes"));
    assert!(!is_yes_word("YES"));
    assert_eq!(prompt_text("Proceed?"), "Proceed? [y/n]: ");
}

#[test]
fn references() {
    assert_eq!(branch_ref("main"), "refs/heads/main");
    assert_eq!(tag_ref("v1.0"), "refs/tags/v1.0");
}

#[test]
fn latest_tag_picks_first_latest() {
    assert_eq!(latest_tag(&vec![]), None);
    assert_eq!(latest_tag(&vec![0, -5]), None);
    assert_eq!(latest_tag(&vec![3, 7, 7, 2]), Some(1));
    assert_eq!(latest_tag(&vec![5]), Some(0));
    assert_eq!(latest_tag(&vec![-1, 1]), Some(1));
}

#[test]
fn merge_steps_from_analysis_bits() {
    assert_eq!(merge_step(4), MergeStep::FastForward);
    assert_eq!(merge_step(4 | 1), MergeStep::FastForward);
    assert_eq!(merge_step(2), MergeStep::UpToDate);
    assert_eq!(merge_step(1), MergeStep::Diverged);
    assert_eq!(merge_step(0), MergeStep::Diverged);
    assert_eq!(merge_step(git2::MergeAnalysis::ANALYSIS_FASTFORWARD.bits()), MergeStep::FastForward);
    assert_eq!(merge_step(git2::MergeAnalysis::ANALYSIS_UP_TO_DATE.bits()), MergeStep::UpToDate);
}
