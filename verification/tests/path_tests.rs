use hermitfile::error::CompileError;
use hermitfile::path::{manifest_dir, normalize, resolve};

#[test]
fn relative_source_is_joined_to_the_manifest_directory() {
    assert_eq!(resolve("mod.wasm", "/srv/app"), "/srv/app/mod.wasm");
    assert_eq!(resolve("bin/mod.wasm", "proj"), "proj/bin/mod.wasm");
    assert_eq!(resolve("mod.wasm", "/srv/app/"), "/srv/app/mod.wasm");
}

#[test]
fn absolute_source_ignores_the_manifest_directory() {
    assert_eq!(resolve("/opt/mod.wasm", "/srv/app"), "/opt/mod.wasm");
}

#[test]
fn remote_source_is_returned_unchanged() {
    assert_eq!(resolve("https://h/x.wasm", "/srv"), "https://h/x.wasm");
    assert_eq!(resolve("://", "/srv"), "://");
}

#[test]
fn source_without_directory_is_only_normalized() {
    assert_eq!(resolve("./a//b/./m.wasm", ""), "a/b/m.wasm");
    assert_eq!(resolve("mod.wasm", "."), "mod.wasm");
}

#[test]
fn normal_form_drops_empty_and_dot_segments() {
    assert_eq!(normalize("/a//b/./c/"), "/a/b/c");
    assert_eq!(normalize("a/../b"), "a/../b");
    assert_eq!(normalize("./"), ".");
    assert_eq!(normalize(""), ".");
    assert_eq!(normalize("/"), "/");
    assert_eq!(normalize("///"), "/");
    assert_eq!(normalize("x"), "x");
}

#[test]
fn manifest_directory_is_the_path_without_its_last_segment() {
    assert_eq!(manifest_dir("/srv/app/Hermitfile"), Ok("/srv/app".to_string()));
    assert_eq!(manifest_dir("Hermitfile"), Ok(".".to_string()));
    assert_eq!(manifest_dir("/Hermitfile"), Ok("/".to_string()));
    assert_eq!(manifest_dir("a/b/Hermitfile"), Ok("a/b".to_string()));
    assert_eq!(manifest_dir("./a/./Hermitfile"), Ok("a".to_string()));
}

#[test]
fn manifest_path_without_file_has_no_directory() {
    assert_eq!(manifest_dir(""), Err(CompileError::InvalidManifestLocation));
    assert_eq!(manifest_dir("/"), Err(CompileError::InvalidManifestLocation));
    assert_eq!(manifest_dir("."), Err(CompileError::InvalidManifestLocation));
    assert_eq!(manifest_dir("//./"), Err(CompileError::InvalidManifestLocation));
}

#[test]
fn normalizing_twice_changes_nothing() {
    for path in ["/a//b/./c/", "a/../b", "./", "", "/", "x", "./a/./b", "//x//"] {
        let once = normalize(path);
        assert_eq!(normalize(&once), once);
    }
}
