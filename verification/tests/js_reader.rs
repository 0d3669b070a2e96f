use shade_octree::js_reader::{checked_meta_path, get_meta_path, meta_extension};

#[test]
fn meta_path_appends_to_extension() {
    assert_eq!(get_meta_path("shaders/compute.wgsl"), "shaders/compute.wgsl.meta");
    assert_eq!(get_meta_path("a/b.tar.gz"), "a/b.tar.gz.meta");
}

#[test]
fn meta_path_without_extension() {
    assert_eq!(get_meta_path("assets/model"), "assets/model..meta");
}

#[test]
fn meta_extension_values() {
    assert_eq!(meta_extension(Some("wgsl".to_string())), "wgsl.meta");
    assert_eq!(meta_extension(None), ".meta");
}

#[test]
fn checked_meta_path_matches_meta_path() {
    assert_eq!(
        checked_meta_path("shaders/fragment.wgsl"),
        Some("shaders/fragment.wgsl.meta".to_string())
    );
    assert_eq!(checked_meta_path("model"), Some("model..meta".to_string()));
}
