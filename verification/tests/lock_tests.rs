use forge::lock::{Lockfile, Package};

fn pkg(name: &str, checksum: &str) -> Package {
    Package { name: name.to_string(), source: format!("https://x/{name}"), checksum: checksum.to_string() }
}

#[test]
fn unknown_package_is_out_of_date() {
    let l = Lockfile::default();
    assert!(l.package.is_empty());
    assert!(l.out_of_date(pkg("a", "1")));
}

#[test]
fn recorded_package_is_current() {
    let mut l = Lockfile::default();
    l.update_pkg(pkg("a", "1"));
    assert!(!l.out_of_date(pkg("a", "1")));
    assert!(l.out_of_date(pkg("a", "2")));
    assert!(l.out_of_date(pkg("b", "1")));
}

#[test]
fn update_replaces_same_name_and_appends_new() {
    let mut l = Lockfile::default();
    l.update_pkg(pkg("a", "1"));
    l.update_pkg(pkg("b", "1"));
    l.update_pkg(pkg("a", "2"));
    assert_eq!(l.package.len(), 2);
    assert_eq!(l.package[0].name, "a");
    assert_eq!(l.package[0].checksum, "2");
    assert_eq!(l.package[1].name, "b");
    assert!(!l.out_of_date(pkg("a", "2")));
}

#[test]
fn update_twice_is_update_once() {
    let mut l = Lockfile::default();
    l.update_pkg(pkg("a", "1"));
    l.update_pkg(pkg("c", "3"));
    l.update_pkg(pkg("c", "3"));
    assert_eq!(l.package.len(), 2);
}

#[test]
fn first_of_duplicate_names_decides() {
    let l = Lockfile { package: vec![pkg("a", "1"), pkg("a", "2")] };
    assert!(!l.out_of_date(pkg("a", "1")));
    assert!(l.out_of_date(pkg("a", "2")));
    let mut l = l;
    l.update_pkg(pkg("a", "9"));
    assert_eq!(l.package[0].checksum, "9");
    assert_eq!(l.package[1].checksum, "2");
}
