use self_import_check::paths::{strip_extension, SourcePath};
use self_import_check::roots::{collect_module_roots, SourceLocation};

fn sp(absolute: bool, comps: &[&str]) -> SourcePath {
    SourcePath {
        absolute,
        components: comps.iter().map(|c| c.to_string()).collect(),
    }
}

fn loc(absolute: bool, comps: &[&str], local: bool) -> SourceLocation {
    SourceLocation {
        path: sp(absolute, comps),
        local,
    }
}

#[test]
fn collects_top_level_modules_from_relative_paths() {
    let root = Some(sp(true, &["home", "proj"]));
    let files = vec![
        loc(false, &["src", "foo", "mod.rs"], true),
        loc(false, &["src", "bar", "mod.rs"], true),
    ];
    let m = collect_module_roots(&root, &files);
    assert!(m.contains(&"foo".to_string()));
    assert!(m.contains(&"bar".to_string()));
    assert!(!m.contains(&"src".to_string()));
    assert!(!m.contains(&"mod".to_string()));
    assert_eq!(m.names.len(), 2);
}

#[test]
fn collects_module_name_from_file_directly_under_source_root() {
    let root = Some(sp(true, &["home", "proj"]));
    let files = vec![loc(false, &["src", "parser.rs"], true)];
    let m = collect_module_roots(&root, &files);
    assert!(m.contains(&"parser".to_string()));
    assert!(!m.contains(&"parser.rs".to_string()));
}

#[test]
fn absolute_path_is_stripped_of_the_root_prefix() {
    let root = Some(sp(true, &["home", "proj"]));
    let files = vec![loc(true, &["home", "proj", "src", "widgets", "mod.rs"], true)];
    let m = collect_module_roots(&root, &files);
    assert!(m.contains(&"widgets".to_string()));
}

#[test]
fn absolute_path_outside_the_root_is_skipped() {
    let root = Some(sp(true, &["home", "proj"]));
    let files = vec![loc(true, &["elsewhere", "src", "widgets", "mod.rs"], true)];
    let m = collect_module_roots(&root, &files);
    assert!(m.names.is_empty());
}

#[test]
fn shallow_path_contributes_nothing() {
    let root = Some(sp(true, &["home", "proj"]));
    let files = vec![
        loc(false, &["src"], true),
        loc(false, &[], true),
        loc(true, &["home", "proj", "src"], true),
    ];
    let m = collect_module_roots(&root, &files);
    assert!(m.names.is_empty());
}

#[test]
fn foreign_locations_are_skipped() {
    let root = Some(sp(true, &["home", "proj"]));
    let files = vec![
        loc(false, &["src", "foo", "mod.rs"], false),
        loc(false, &["src", "bar", "mod.rs"], true),
    ];
    let m = collect_module_roots(&root, &files);
    assert!(!m.contains(&"foo".to_string()));
    assert!(m.contains(&"bar".to_string()));
}

#[test]
fn unresolved_root_yields_empty_set() {
    let files = vec![
        loc(false, &["src", "foo", "mod.rs"], true),
        loc(false, &["src", "bar", "mod.rs"], true),
    ];
    let m = collect_module_roots(&None, &files);
    assert!(m.names.is_empty());
    assert!(!m.contains(&"foo".to_string()));
}

#[test]
fn duplicate_module_names_collapse() {
    let root = Some(sp(true, &["home", "proj"]));
    let files = vec![
        loc(false, &["src", "foo", "a.rs"], true),
        loc(false, &["src", "foo", "b.rs"], true),
        loc(false, &["src", "foo.rs"], true),
    ];
    let m = collect_module_roots(&root, &files);
    assert!(m.contains(&"foo".to_string()));
    assert_eq!(m.names.len(), 1);
}

#[test]
fn qualifier_is_never_collected_as_a_module_name() {
    let root = Some(sp(true, &["home", "proj"]));
    let files = vec![loc(false, &["src", "crate", "mod.rs"], true)];
    let m = collect_module_roots(&root, &files);
    assert!(!m.contains(&"crate".to_string()));
    assert!(m.names.is_empty());
}

#[test]
fn strip_extension_removes_the_last_extension() {
    assert_eq!(strip_extension("mod.rs"), "mod");
    assert_eq!(strip_extension("archive.tar.gz"), "archive.tar");
    assert_eq!(strip_extension("trail."), "trail");
}

#[test]
fn strip_extension_keeps_names_without_one() {
    assert_eq!(strip_extension("noext"), "noext");
    assert_eq!(strip_extension(".hidden"), ".hidden");
    assert_eq!(strip_extension(""), "");
    assert_eq!(strip_extension("x"), "x");
}
