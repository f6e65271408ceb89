use cargo_bundle::file::resource_relpath;
use cargo_bundle::image::is_retina;

#[test]
fn resource_relative_paths() {
    assert_eq!(
        resource_relpath("./data/images/button.png"),
        "data/images/button.png"
    );
    assert_eq!(
        resource_relpath("../../images/wheel.png"),
        "_up_/_up_/images/wheel.png"
    );
    assert_eq!(
        resource_relpath("/home/ferris/crab.png"),
        "_root_/home/ferris/crab.png"
    );
}

#[test]
fn resource_relpath_edge_cases() {
    assert_eq!(resource_relpath(""), "");
    assert_eq!(resource_relpath("."), "");
    assert_eq!(resource_relpath("/"), "_root_");
    assert_eq!(resource_relpath("a//b/"), "a/b");
    assert_eq!(resource_relpath("a/./b"), "a/b");
    assert_eq!(resource_relpath(".."), "_up_");
    // The output never contains a parent reference as a segment.
    assert_eq!(resource_relpath("../.."), "_up_/_up_");
}

#[test]
fn retina_icon_paths() {
    assert!(!is_retina("data/icons/512x512.png"));
    assert!(is_retina("data/icons/512x512@2x.png"));
}

#[test]
fn retina_icon_path_edge_cases() {
    // The stem is what precedes the last dot of the file name.
    assert!(is_retina("icon@2x"));
    assert!(!is_retina("icon@2x.png/other.png"));
    assert!(is_retina("a/b/icon@2x.tar.png") == false);
    assert!(is_retina("a/b/icon.tar@2x.png"));
    assert!(!is_retina(""));
    assert!(!is_retina(".."));
}
