use modpack_installer::version::PackVersion;

#[test]
fn releases_are_ordered_by_their_numbers() {
    let a = PackVersion::new(1, 5, 0);
    let b = PackVersion::new(1, 19, 0);
    assert!(a.precedes(&b));
    assert!(!b.precedes(&a));
    assert!(a.at_most(&b));
    assert!(a.at_most(&a));
    assert!(!a.precedes(&a));
}

#[test]
fn a_pre_release_comes_before_its_release() {
    let release = PackVersion::new(1, 2, 0);
    let mut beta = PackVersion::new(1, 2, 0);
    beta.pre = String::from("beta.1");
    assert!(beta.precedes(&release));
    assert!(!release.precedes(&beta));
    let mut rc = PackVersion::new(1, 2, 0);
    rc.pre = String::from("rc.1");
    assert!(beta.precedes(&rc));
}
