use almk::command::{Arg, Commands};
use almk::config::{add_dep, rm_dep, Build, Config, Dependency, Package, RemoveError};
use almk::new::{new, toolchain};
use almk::sync::{
    after_clone, finish_copy, finish_download, sync_action, ArchiveStep, CloneStep, SyncAction,
};
use almk::record::{parse_hash_record, RecordError};
use almk::table::StrMap;

fn config() -> Config {
    Config {
        package: Package {
            name: "hello".to_string(),
            version: Some("0.1.0".to_string()),
            author: None,
            license: None,
            language: Some("C".to_string()),
        },
        build: Build {
            debug: true,
            linker: "clang".to_string(),
            cc: Some("clang".to_string()),
            cxx: None,
            cflags: None,
            cxxflags: None,
            lnflags: None,
            includes: None,
        },
        dependencies: None,
    }
}

fn zip_dep(url: &str) -> Dependency {
    Dependency { local: None, url: Some(url.to_string()), git: false, tag: None }
}

#[test]
fn add_creates_table_and_lists_entry() {
    let mut c = config();
    add_dep(&mut c, "util".to_string(), None, Some("https://x/util.zip".to_string()), false, None);
    let deps = c.dependencies.as_ref().unwrap();
    assert_eq!(deps.len(), 1);
    let d = deps.get("util").unwrap();
    assert_eq!(d.url.as_deref(), Some("https://x/util.zip"));
    assert!(!d.git);
    assert_eq!(c.package.name, "hello");
}

#[test]
fn add_twice_keeps_second() {
    let mut c = config();
    add_dep(&mut c, "util".to_string(), None, Some("a".to_string()), false, None);
    add_dep(&mut c, "util".to_string(), None, Some("b".to_string()), true, Some("v1".to_string()));
    let deps = c.dependencies.as_ref().unwrap();
    assert_eq!(deps.len(), 1);
    let d = deps.get("util").unwrap();
    assert_eq!(d.url.as_deref(), Some("b"));
    assert!(d.git);
    assert_eq!(d.tag.as_deref(), Some("v1"));
}

#[test]
fn add_keeps_other_entries() {
    let mut c = config();
    add_dep(&mut c, "a".to_string(), Some("/tmp/a".to_string()), None, false, None);
    add_dep(&mut c, "b".to_string(), None, Some("u".to_string()), false, None);
    let deps = c.dependencies.as_ref().unwrap();
    assert_eq!(deps.len(), 2);
    assert_eq!(deps.get("a").unwrap().local.as_deref(), Some("/tmp/a"));
}

#[test]
fn remove_undoes_add() {
    let mut c = config();
    add_dep(&mut c, "util".to_string(), None, Some("u".to_string()), false, None);
    assert!(rm_dep(&mut c, "util").is_ok());
    assert!(c.dependencies.is_none());

    add_dep(&mut c, "keep".to_string(), None, Some("k".to_string()), false, None);
    add_dep(&mut c, "util".to_string(), None, Some("u".to_string()), false, None);
    assert!(rm_dep(&mut c, "util").is_ok());
    let deps = c.dependencies.as_ref().unwrap();
    assert_eq!(deps.len(), 1);
    assert!(deps.contains_key("keep"));
    assert!(!deps.contains_key("util"));
}

#[test]
fn remove_without_table_fails() {
    let mut c = config();
    match rm_dep(&mut c, "util") {
        Err(e @ RemoveError::NoDependencies(_)) => {
            assert_eq!(e.message(), "No dependency 'util' found")
        }
        _ => panic!("expected an error"),
    }
    assert!(c.dependencies.is_none());
}

#[test]
fn remove_unlisted_fails() {
    let mut c = config();
    add_dep(&mut c, "other".to_string(), None, Some("u".to_string()), false, None);
    match rm_dep(&mut c, "util") {
        Err(e @ RemoveError::NotListed(_)) => assert_eq!(e.message(), "No dependency util found"),
        _ => panic!("expected an error"),
    }
    assert_eq!(c.dependencies.as_ref().unwrap().len(), 1);
}

#[test]
fn table_refuses_repeated_keys() {
    let pairs = vec![("a".to_string(), 1u8), ("b".to_string(), 2u8), ("a".to_string(), 3u8)];
    assert!(StrMap::from_pairs(pairs).is_none());
    let pairs = vec![("a".to_string(), 1u8), ("b".to_string(), 2u8)];
    let m = StrMap::from_pairs(pairs).unwrap();
    assert_eq!(m.get("b"), Some(&2u8));
    assert_eq!(m.get("c"), None);
    let mut m = m;
    assert_eq!(m.remove("a"), Some(1u8));
    assert_eq!(m.remove("a"), None);
    assert_eq!(m.into_pairs(), vec![("b".to_string(), 2u8)]);
}

#[test]
fn toolchains_of_languages() {
    let t = toolchain("C").unwrap();
    assert_eq!(t.cc.as_deref(), Some("clang"));
    assert!(t.cxx.is_none());
    assert_eq!(t.linker, "clang");
    let t = toolchain("C++").unwrap();
    assert!(t.cc.is_none());
    assert_eq!(t.cxx.as_deref(), Some("clang++"));
    assert_eq!(t.linker, "clang++");
    assert!(toolchain("Rust").is_none());
    assert!(toolchain("c").is_none());
}

#[test]
fn new_c_project() {
    let p = new("hello".to_string(), "C".to_string(), Some("clang".to_string()), None, "clang".to_string());
    assert_eq!(p.directories, vec!["hello".to_string(), "hello/src".to_string()]);
    let (file, text) = p.main_source.unwrap();
    assert_eq!(file, "hello/src/main.c");
    assert_eq!(
        text,
        "#include <stdio.h>\n\nint main() {\n    printf(\"Hello world!\\n\");\n    return 0;\n}\n"
    );
    assert_eq!(p.manifest_path, "hello/Alumake.toml");
    assert_eq!(p.config.package.name, "hello");
    assert_eq!(p.config.package.version.as_deref(), Some("0.1.0"));
    assert_eq!(p.config.package.author.as_deref(), Some(""));
    assert_eq!(p.config.package.license.as_deref(), Some("No License"));
    assert_eq!(p.config.package.language.as_deref(), Some("C"));
    assert!(p.config.build.debug);
    assert_eq!(p.config.build.linker, "clang");
    assert_eq!(p.config.build.cc.as_deref(), Some("clang"));
    assert!(p.config.build.cxx.is_none());
    assert!(p.config.dependencies.is_none());
}

#[test]
fn new_cpp_project() {
    let p = new("app".to_string(), "C++".to_string(), None, Some("clang++".to_string()), "clang++".to_string());
    let (file, text) = p.main_source.unwrap();
    assert_eq!(file, "app/src/main.cpp");
    assert!(text.contains("std::cout << \"Hello, World!\" << std::endl;"));
    assert_eq!(p.config.build.cxx.as_deref(), Some("clang++"));
}

#[test]
fn new_other_language_has_no_source() {
    let p = new("x".to_string(), "Go".to_string(), None, None, "cc".to_string());
    assert!(p.main_source.is_none());
    assert_eq!(p.directories.len(), 2);
}

#[test]
fn sync_git_is_cloned_with_tag() {
    let dep = Dependency { local: None, url: Some("https://x/u.git".to_string()), git: true, tag: Some("v1.0".to_string()) };
    let h: StrMap<String> = StrMap::new();
    match sync_action("u", &dep, &h, true) {
        SyncAction::Clone { url, dest, tag } => {
            assert_eq!(url, "https://x/u.git");
            assert_eq!(dest, ".deps/u");
            assert_eq!(tag.as_deref(), Some("v1.0"));
        }
        _ => panic!("expected a clone"),
    }
}

#[test]
fn sync_archive_downloaded_then_settled() {
    let dep = zip_dep("https://x/u.zip");
    let mut h: StrMap<String> = StrMap::new();
    match sync_action("u", &dep, &h, false) {
        SyncAction::Download { url, archive, dest } => {
            assert_eq!(url, "https://x/u.zip");
            assert_eq!(archive, ".deps/u.zip");
            assert_eq!(dest, ".deps/u");
        }
        _ => panic!("expected a download"),
    }
    match finish_download(&mut h, "u".to_string(), "h1".to_string(), false) {
        ArchiveStep::Extract { clear_dest } => assert!(!clear_dest),
        _ => panic!("expected extraction"),
    }
    assert!(matches!(sync_action("u", &dep, &h, true), SyncAction::Skip));
    assert!(matches!(sync_action("u", &dep, &h, false), SyncAction::Download { .. }));
    assert!(matches!(finish_download(&mut h, "u".to_string(), "h1".to_string(), true), ArchiveStep::Discard));
    match finish_download(&mut h, "u".to_string(), "h2".to_string(), true) {
        ArchiveStep::Extract { clear_dest } => assert!(clear_dest),
        _ => panic!("expected extraction"),
    }
    assert_eq!(h.get("u"), Some(&"h2".to_string()));
}

#[test]
fn sync_local_copied_once() {
    let dep = Dependency { local: Some("/src/lib.c".to_string()), url: None, git: false, tag: None };
    let h: StrMap<String> = StrMap::new();
    match sync_action("lib", &dep, &h, false) {
        SyncAction::CopyLocal { source, dest } => {
            assert_eq!(source, "/src/lib.c");
            assert_eq!(dest, ".deps/lib");
        }
        _ => panic!("expected a copy"),
    }
    assert!(matches!(sync_action("lib", &dep, &h, true), SyncAction::Skip));
    let none = Dependency { local: None, url: None, git: true, tag: None };
    assert!(matches!(sync_action("n", &none, &h, false), SyncAction::Skip));
}

#[test]
fn command_values() {
    let a = Arg { cmd: Commands::Remove { name: "util".to_string() } };
    match a.cmd {
        Commands::Remove { name } => assert_eq!(name, "util"),
        _ => panic!(),
    }
}

#[test]
fn hash_records_read_from_json() {
    let m = parse_hash_record("{\n  \"src/main.c\": \"ab\",\n  \"src/a.h\": \"cd\"\n}").ok().unwrap();
    assert_eq!(m.len(), 2);
    assert_eq!(m.get("src/main.c"), Some(&"ab".to_string()));
    assert_eq!(m.get("src/a.h"), Some(&"cd".to_string()));
    assert_eq!(parse_hash_record("{}").ok().unwrap().len(), 0);
    assert!(matches!(parse_hash_record("[1, 2]"), Err(RecordError::Malformed(_))));
    assert!(matches!(parse_hash_record("{\"a\": 1}"), Err(RecordError::Malformed(_))));
}

#[test]
fn copy_records_hash() {
    let mut h: StrMap<String> = StrMap::new();
    finish_copy(&mut h, "lib".to_string(), "abc".to_string());
    assert_eq!(h.get("lib"), Some(&"abc".to_string()));
    finish_copy(&mut h, "lib".to_string(), "def".to_string());
    assert_eq!(h.get("lib"), Some(&"def".to_string()));
    assert_eq!(h.len(), 1);
}

#[test]
fn second_sync_run_fetches_nothing() {
    let zip = zip_dep("https://x/u.zip");
    let local = Dependency { local: Some("/l.c".to_string()), url: None, git: false, tag: None };
    let git = Dependency { local: None, url: Some("https://x/g.git".to_string()), git: true, tag: None };
    let mut h: StrMap<String> = StrMap::new();
    finish_copy(&mut h, "old".to_string(), "o".to_string());
    // first run: nothing in place yet
    assert!(matches!(sync_action("u", &zip, &h, false), SyncAction::Download { .. }));
    finish_download(&mut h, "u".to_string(), "hu".to_string(), false);
    assert!(matches!(sync_action("l", &local, &h, false), SyncAction::CopyLocal { .. }));
    finish_copy(&mut h, "l".to_string(), "hl".to_string());
    assert!(matches!(sync_action("g", &git, &h, false), SyncAction::Clone { .. }));
    assert_eq!(h.get("old"), Some(&"o".to_string()));
    assert_eq!(h.len(), 3);
    // second run: every directory in place
    assert!(matches!(sync_action("u", &zip, &h, true), SyncAction::Skip));
    assert!(matches!(sync_action("l", &local, &h, true), SyncAction::Skip));
    assert!(matches!(sync_action("g", &git, &h, true), SyncAction::Clone { .. }));
    assert_eq!(h.len(), 3);
}

#[test]
fn steps_after_a_clone() {
    assert!(matches!(after_clone(true, None), CloneStep::Done));
    assert!(matches!(after_clone(false, None), CloneStep::Done));
    match after_clone(true, Some("v1".to_string())) {
        CloneStep::CheckoutCloned { tag } => assert_eq!(tag, "v1"),
        _ => panic!("expected a checkout"),
    }
    match after_clone(false, Some("v2".to_string())) {
        CloneStep::OpenAndCheckout { tag } => assert_eq!(tag, "v2"),
        _ => panic!("expected open and checkout"),
    }
}
