use eos_build::util::{classify_entry, object_source_map, DirAction};

#[test]
fn maps_source_and_object_paths() {
    let src = vec!["a.c".to_string()];
    let pairs = object_source_map("usr/src/uts/foo/build.toml", &src).ok().unwrap();
    assert_eq!(pairs.len(), 1);
    assert_eq!(pairs[0].0, "usr/src/uts/foo/a.c");
    assert_eq!(pairs[0].1, "bld/usr/src/uts/foo/a.o");
}

#[test]
fn maps_nested_relative_source() {
    let src = vec!["sub/x.c".to_string()];
    let pairs = object_source_map("usr/src/uts/foo/build.toml", &src).ok().unwrap();
    assert_eq!(pairs[0].0, "usr/src/uts/foo/sub/x.c");
    assert_eq!(pairs[0].1, "bld/usr/src/uts/foo/sub/x.o");
}

#[test]
fn maps_bare_description_file_name() {
    let src = vec!["a.c".to_string()];
    let pairs = object_source_map("build.toml", &src).ok().unwrap();
    assert_eq!(pairs[0].0, "a.c");
    assert_eq!(pairs[0].1, "bld/a.o");
}

#[test]
fn mapper_is_deterministic() {
    let src = vec!["a.c".to_string(), "d/e.c".to_string()];
    let first = object_source_map("usr/src/m/build.toml", &src).ok().unwrap();
    let second = object_source_map("usr/src/m/build.toml", &src).ok().unwrap();
    assert_eq!(first, second);
}

#[test]
fn object_paths_are_under_build_root() {
    let src = vec!["a.c".to_string(), "deep/dir/b.c".to_string()];
    let pairs = object_source_map("usr/src/uts/foo/build.toml", &src).ok().unwrap();
    for (_, obj) in &pairs {
        assert!(obj.starts_with("bld/"));
    }
}

#[test]
fn rejects_declaration_without_c_suffix() {
    let src = vec!["a.c".to_string(), "b.txt".to_string()];
    let err = object_source_map("usr/src/m/build.toml", &src).err().unwrap();
    assert_eq!(err.src, "b.txt");
    assert_eq!(err.message(), "b.txt: expected c source file");
}

#[test]
fn rejects_too_short_declaration() {
    let src = vec!["c".to_string()];
    let err = object_source_map("build.toml", &src).err().unwrap();
    assert_eq!(err.message(), "c: expected c source file");
}

#[test]
fn discovery_skips_symlinks() {
    assert!(matches!(classify_entry(true, true, "sub"), DirAction::Skip));
    assert!(matches!(classify_entry(true, false, "build.toml"), DirAction::Skip));
}

#[test]
fn discovery_recurses_into_directories() {
    assert!(matches!(classify_entry(false, true, "sub"), DirAction::Recurse));
}

#[test]
fn discovery_collects_only_description_files() {
    assert!(matches!(classify_entry(false, false, "build.toml"), DirAction::Collect));
    assert!(matches!(classify_entry(false, false, "build.tomk"), DirAction::Skip));
    assert!(matches!(classify_entry(false, false, "Makefile"), DirAction::Skip));
}
