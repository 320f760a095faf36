use qeda_svg::{ChipPackage, PackageError, PackageType, Packages};

#[test]
fn chip_handler_is_registered() {
    let p = Packages::new();
    assert_eq!(p.get_handler("chip"), Ok(&ChipPackage::new()));
}

#[test]
fn unknown_package_is_refused() {
    let p = Packages::new();
    assert_eq!(p.get_handler("qfn"), Err(PackageError::InvalidPackageType("qfn".to_string())));
    assert_eq!(PackageType::default(), PackageType::Unknown);
}
