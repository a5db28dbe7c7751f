use std::collections::hash_map::DefaultHasher;
use std::hash::{Hash, Hasher};

use crabtime::options::MacroOptions;
use crabtime::paths::{
    find_cargo_configs, find_parent_dir, parent_dir, project_name_from_input, FsPath, PathError,
    Paths,
};

fn path(segs: &[&str]) -> FsPath {
    FsPath { segments: segs.iter().map(|s| s.to_string()).collect() }
}

fn segs(p: &FsPath) -> Vec<String> {
    p.segments.clone()
}

// The parent of a path drops its final segment; an empty path has none.
#[test]
fn parent_of_path() {
    let p = parent_dir(&path(&["home", "work", "src"])).unwrap();
    assert_eq!(segs(&p), vec!["home", "work"]);
    assert_eq!(parent_dir(&path(&[])).unwrap_err(), PathError::NoParent);
}

// The nearest ancestor with the wanted name is found, the path itself
// included.
#[test]
fn ancestor_by_name() {
    let p = path(&["home", "target", "debug", "build", "out"]);
    let build = find_parent_dir(&p, "build").unwrap();
    assert_eq!(segs(&build), vec!["home", "target", "debug", "build"]);
    let target = find_parent_dir(&p, "target").unwrap();
    assert_eq!(segs(&target), vec!["home", "target"]);
    assert_eq!(find_parent_dir(&p, "missing").unwrap_err(), PathError::NoSuchAncestor);
}

// The output root is the enclosing build directory plus the engine's own
// subdirectory.
#[test]
fn output_root() {
    let out = path(&["t", "debug", "build", "pkg", "out"]);
    let root = Paths::get_output_root(&out).unwrap();
    assert_eq!(segs(&root), vec!["t", "debug", "build", "crabtime"]);
}

// The content-hash project name matches the fixed-prefix hexadecimal
// rendering of the body's fingerprint.
#[test]
fn project_name_matches_hasher() {
    let body = "let x = 1;";
    let mut hasher = DefaultHasher::new();
    body.hash(&mut hasher);
    let expected = format!("project_{:016x}", hasher.finish());
    assert_eq!(project_name_from_input(body), expected);
}

// Caching idempotence: the same body text maps to the same address, and a
// different body to a different one.
#[test]
fn caching_idempotence() {
    let a = project_name_from_input("body text");
    let b = project_name_from_input("body text");
    assert_eq!(a, b);
    let opts = MacroOptions { cache: true, content_base_name: true };
    let out = path(&["t", "build", "pkg", "out"]);
    let cs = path(&["src", "lib.rs"]);
    let manifests = vec![path(&["ws", "Cargo.toml"])];
    let p1 = Paths::new(opts, "gen", "body text", &out, Some(&cs), &manifests).unwrap();
    let p2 = Paths::new(opts, "gen", "body text", &out, Some(&cs), &manifests).unwrap();
    assert_eq!(segs(&p1.output_dir), segs(&p2.output_dir));
}

// Location-keyed addressing: the invocation file's path, extension
// stripped, and the definition's name key the directory, and the found
// manifests are split into crate and workspace configuration.
#[test]
fn location_keyed_paths() {
    let opts = MacroOptions { cache: true, content_base_name: false };
    let out = path(&["t", "build", "pkg", "out"]);
    let cs = path(&["src", "lib.rs"]);
    let manifests = vec![path(&["ws", "crate", "Cargo.toml"]), path(&["ws", "Cargo.toml"])];
    let p = Paths::new(opts, "gen", "body", &out, Some(&cs), &manifests).unwrap();
    assert_eq!(segs(&p.output_dir), vec!["t", "build", "crabtime", "src", "lib", "gen"]);
    let cfg = p.cargo_toml_path.as_ref().unwrap();
    assert_eq!(segs(&cfg.crate_config), vec!["ws", "crate", "Cargo.toml"]);
    assert_eq!(
        segs(cfg.workspace_config.as_ref().unwrap()),
        vec!["ws", "Cargo.toml"]
    );
    assert!(!p.should_remove_after_run(true));
    assert!(p.should_remove_after_run(false));
}

// Content-keyed addressing: no manifest resolution, and the directory is
// always removed after the run.
#[test]
fn content_keyed_paths() {
    let opts = MacroOptions { cache: true, content_base_name: false };
    let out = path(&["t", "build", "pkg", "out"]);
    let p = Paths::new(opts, "gen", "body", &out, None, &vec![]).unwrap();
    let name = project_name_from_input("body");
    assert_eq!(
        segs(&p.output_dir),
        vec!["t".to_string(), "build".to_string(), "crabtime".to_string(), "crabtime".to_string(), name]
    );
    assert!(p.cargo_toml_path.is_none());
    assert!(p.should_remove_after_run(true));
}

// Without any manifest the location-keyed resolution fails.
#[test]
fn no_manifest_found() {
    let opts = MacroOptions { cache: true, content_base_name: false };
    let out = path(&["t", "build", "pkg", "out"]);
    let cs = path(&["src", "lib.rs"]);
    let r = Paths::new(opts, "gen", "body", &out, Some(&cs), &vec![]);
    assert_eq!(r.unwrap_err(), PathError::NoManifest);
    assert_eq!(find_cargo_configs(&vec![]).unwrap_err(), PathError::NoManifest);
}

// A hidden-file name keeps its leading dot; only a real extension is
// stripped.
#[test]
fn extension_stripping() {
    let opts = MacroOptions { cache: true, content_base_name: false };
    let out = path(&["t", "build", "pkg", "out"]);
    let cs = path(&[".hidden"]);
    let manifests = vec![path(&["Cargo.toml"])];
    let p = Paths::new(opts, "gen", "b", &out, Some(&cs), &manifests).unwrap();
    assert_eq!(segs(&p.output_dir), vec!["t", "build", "crabtime", ".hidden", "gen"]);
}
