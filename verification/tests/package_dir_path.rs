use ktra::error::Error;
use ktra::names::package_dir_path;

#[test]
fn test_package_dir_path_a() {
    let dir = package_dir_path("a").unwrap();
    assert_eq!(dir.as_str(), "1");
}

#[test]
fn test_package_dir_path_ab() {
    let dir = package_dir_path("ab").unwrap();
    assert_eq!(dir.as_str(), "2");
}

#[test]
fn test_package_dir_path_abc() {
    let dir = package_dir_path("abc").unwrap();
    assert_eq!(dir.as_str(), "3/a");
}

#[test]
fn test_package_dir_path_abcd() {
    let dir = package_dir_path("abcd").unwrap();
    assert_eq!(dir.as_str(), "ab/cd");
}

#[test]
fn package_dir_path_of_an_empty_name_is_not_defined() {
    assert!(matches!(package_dir_path(""), Err(Error::CrateNameNotDefined)));
}

#[test]
fn package_dir_path_is_lower_case() {
    assert_eq!(package_dir_path("AbCdEf").unwrap().as_str(), "ab/cd");
    assert_eq!(package_dir_path("XYZ").unwrap().as_str(), "3/x");
}
