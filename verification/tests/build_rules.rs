use almk::compile::{
    compile_command, debug_flags, executable_path, include_flags, is_target, link_command,
    build_plan, needs_compile, needs_link, record_hashes, refresh_hash, run_path, CompileStep,
    Target,
};
use almk::config::Build;
use almk::depfile::parse_deps;
use almk::hash::{hash_hex, to_lower_hex};
use almk::paths::{
    check_under, object_path, parent_dir, path_extension, path_file_stem, with_o_extension_of,
};
use almk::table::StrMap;

fn strings(v: &[&str]) -> Vec<String> {
    v.iter().map(|s| s.to_string()).collect()
}

#[test]
fn deps_of_simple_rule() {
    let d = parse_deps("target/objects/main.o: ./src/main.c ./src/util.h\n");
    assert_eq!(d, strings(&["./src/main.c", "./src/util.h"]));
}

#[test]
fn deps_with_continuation_lines() {
    let d = parse_deps("main.o: src/main.c \\\n  src/a.h \\\n  src/b.h\n");
    assert_eq!(d, strings(&["src/main.c", "src/a.h", "src/b.h"]));
}

#[test]
fn deps_with_crlf_and_tabs() {
    let d = parse_deps("x.o:\tx.c\r\ny.o: y.c\ty.h\r\n");
    assert_eq!(d, strings(&["x.c", "y.c", "y.h"]));
}

#[test]
fn deps_skip_lines_without_colon() {
    let d = parse_deps("no colon here\nmain.o: main.c\n\n");
    assert_eq!(d, strings(&["main.c"]));
}

#[test]
fn deps_unfinished_continuation_is_dropped() {
    let d = parse_deps("a.o: a.c\nb.o: b.c \\");
    assert_eq!(d, strings(&["a.c"]));
}

#[test]
fn deps_of_empty_file() {
    assert!(parse_deps("").is_empty());
    assert!(parse_deps("main.o:\n").is_empty());
}

#[test]
fn deps_only_first_colon_splits() {
    let d = parse_deps("a.o: c:/x.h y.h");
    assert_eq!(d, strings(&["c:/x.h", "y.h"]));
}

#[test]
fn extensions_of_paths() {
    assert_eq!(path_extension("./src/main.c"), Some("c".to_string()));
    assert_eq!(path_extension("a.tar.gz"), Some("gz".to_string()));
    assert_eq!(path_extension(".deps/.hidden"), None);
    assert_eq!(path_extension("dir.d/file"), None);
    assert_eq!(path_extension("a/.."), None);
    assert_eq!(path_extension("name."), Some("".to_string()));
}

#[test]
fn extensions_replaced_and_parents() {
    assert_eq!(with_o_extension_of("target/objects/sub/x.d"), "target/objects/sub/x.o");
    assert_eq!(with_o_extension_of("src/a.b.cpp"), "src/a.b.o");
    assert_eq!(with_o_extension_of(".bashrc"), ".bashrc.o");
    assert_eq!(parent_dir(".deps/util/util.h"), ".deps/util");
    assert_eq!(parent_dir("util.h"), "");
}

#[test]
fn targets_by_extension() {
    assert!(is_target("./src/main.c", &Target::CSRC));
    assert!(!is_target("./src/main.cpp", &Target::CSRC));
    assert!(is_target("./src/main.cpp", &Target::CXXSRC));
    assert!(is_target("./src/main.cc", &Target::CXXSRC));
    assert!(is_target("./src/main.cxx", &Target::CXXSRC));
    assert!(is_target("target/objects/main.o", &Target::OBJ));
    assert!(is_target("target/objects/main.d", &Target::DEPS));
    assert!(is_target(".deps/u/u.h", &Target::HEADERS));
    assert!(!is_target("./src", &Target::CSRC));
    assert!(!is_target("./src/.c", &Target::CSRC));
}

#[test]
fn object_paths() {
    assert_eq!(object_path("./src", "./src/main.c"), "target/objects/main.o");
    assert_eq!(object_path("./src", "./src/sub/x.cpp"), "target/objects/sub/x.o");
    assert_eq!(object_path(".deps", ".deps/util/a.c"), "target/objects/util/a.o");
    assert_eq!(object_path("./src", "./src/noext"), "target/objects/noext.o");
    assert!(check_under("./src", "./src/main.c"));
    assert!(!check_under("./src", "./srcx/main.c"));
    assert!(!check_under("./src", "./src/"));
}

#[test]
fn compile_command_of_readme() {
    let cmd = compile_command("clang", true, "", "./src/main.c", "target/objects/main.o");
    assert_eq!(cmd, "clang -g -O0 -DDEBUG  -c ./src/main.c -o target/objects/main.o -MMD");
    let cmd = compile_command("clang++", false, "-Wall", "a.cpp", "a.o");
    assert_eq!(cmd, "clang++ -O2 -DNDEBUG -Wall -c a.cpp -o a.o -MMD");
    assert_eq!(debug_flags(true), "-g -O0 -DDEBUG");
    assert_eq!(debug_flags(false), "-O2 -DNDEBUG");
}

#[test]
fn link_command_of_readme() {
    let objs = strings(&["target/objects/main.o"]);
    assert_eq!(link_command("clang", &None, &objs, "hello"), "clang target/objects/main.o -o target/hello");
    let objs = strings(&["a.o", "b.o"]);
    assert_eq!(
        link_command("clang", &Some("-lm".to_string()), &objs, "app"),
        "clang -lm a.o b.o -o target/app"
    );
    assert_eq!(link_command("cc", &None, &vec![], "x"), "cc -o target/x");
    assert_eq!(executable_path("hello"), "target/hello");
    assert_eq!(run_path("hello"), "./target/hello");
}

#[test]
fn include_flags_each_directory_once() {
    let headers = strings(&[".deps/u/a.h", ".deps/u/b.h", ".deps/v/c.h"]);
    let s = include_flags(Some("-O1".to_string()), Some(strings(&["inc", ".deps/v"])), &headers);
    assert_eq!(s, "-O1 -Iinc -I.deps/v -I.deps/u");
    let s = include_flags(None, None, &headers);
    assert_eq!(s, " -I.deps/u -I.deps/v");
    let s = include_flags(None, None, &vec![]);
    assert_eq!(s, "");
    let s = include_flags(Some("-g".to_string()), Some(strings(&["a", "a"])), &vec![]);
    assert_eq!(s, "-g -Ia");
}

#[test]
fn hex_of_bytes() {
    assert_eq!(to_lower_hex(&[10, 20, 30]), "0a141e");
    assert_eq!(to_lower_hex(&[]), "");
    assert_eq!(to_lower_hex(&[0xff, 0x00]), "ff00");
}

#[test]
fn sha256_hashes() {
    assert_eq!(
        hash_hex(b""),
        "e3b0c44298fc1c149afbf4c8996fb92427ae41e4649b934ca495991b7852b855"
    );
    assert_eq!(
        hash_hex(b"abc"),
        "ba7816bf8f01cfea414140de5dae2223b00361a396177a9cb410ff61f20015ad"
    );
}

fn pairs(v: &[(&str, &str)]) -> Vec<(String, String)> {
    v.iter().map(|(a, b)| (a.to_string(), b.to_string())).collect()
}

#[test]
fn refresh_settles_after_one_change() {
    let mut h: StrMap<String> = StrMap::new();
    let d = "target/objects/main.d";
    let first = refresh_hash(&mut h, d, "./src/main.c".to_string(), "aa".to_string());
    assert_eq!(first, Some("target/objects/main.o".to_string()));
    let again = refresh_hash(&mut h, d, "./src/main.c".to_string(), "aa".to_string());
    assert_eq!(again, None);
    assert_eq!(h.get("./src/main.c"), Some(&"aa".to_string()));
    let changed = refresh_hash(&mut h, d, "./src/main.c".to_string(), "bb".to_string());
    assert_eq!(changed, Some("target/objects/main.o".to_string()));
    assert_eq!(h.get("./src/main.c"), Some(&"bb".to_string()));
    assert_eq!(h.len(), 1);
}

#[test]
fn header_change_drops_object_of_its_stem() {
    let mut h: StrMap<String> = StrMap::new();
    record_hashes(&mut h, &pairs(&[("./src/util.h", "1")]));
    let r = refresh_hash(&mut h, "target/objects/main.d", "./src/util.h".to_string(), "2".to_string());
    assert_eq!(r, Some("target/objects/util.o".to_string()));
    let r = refresh_hash(&mut h, "target/objects/other.d", "./src/util.h".to_string(), "2".to_string());
    assert_eq!(r, None);
    assert_eq!(path_file_stem("src/a.b.cpp"), "a.b");
    assert_eq!(path_file_stem(".bashrc"), ".bashrc");
}

#[test]
fn record_hashes_keeps_the_last() {
    let mut h: StrMap<String> = StrMap::new();
    record_hashes(&mut h, &pairs(&[("a", "1"), ("b", "2"), ("a", "3")]));
    assert_eq!(h.len(), 2);
    assert_eq!(h.get("a"), Some(&"3".to_string()));
}

fn build_settings(cc: Option<&str>, cxx: Option<&str>) -> Build {
    Build {
        debug: true,
        linker: "clang".to_string(),
        cc: cc.map(|s| s.to_string()),
        cxx: cxx.map(|s| s.to_string()),
        cflags: Some("-Wall".to_string()),
        cxxflags: None,
        lnflags: None,
        includes: Some(strings(&["inc"])),
    }
}

#[test]
fn build_plans() {
    let p = build_plan(&build_settings(Some("clang"), Some("clang++")), true);
    assert!(p.refresh_record);
    assert_eq!(p.steps.len(), 3);
    match &p.steps[0] {
        CompileStep::Sources { compiler, target: Target::CSRC, flags, includes } => {
            assert_eq!(compiler, "clang");
            assert_eq!(flags.as_deref(), Some("-Wall"));
            assert_eq!(includes.as_ref().unwrap(), &strings(&["inc"]));
        }
        _ => panic!("expected the C sources"),
    }
    match &p.steps[1] {
        CompileStep::DepSources { compiler, flags } => {
            assert_eq!(compiler, "clang");
            assert_eq!(flags.as_deref(), Some("-Wall"));
        }
        _ => panic!("expected the dependency sources"),
    }
    match &p.steps[2] {
        CompileStep::Sources { compiler, target: Target::CXXSRC, flags, .. } => {
            assert_eq!(compiler, "clang++");
            assert!(flags.is_none());
        }
        _ => panic!("expected the C++ sources"),
    }
    let p = build_plan(&build_settings(None, Some("clang++")), false);
    assert!(!p.refresh_record);
    assert_eq!(p.steps.len(), 1);
    assert_eq!(build_plan(&build_settings(None, None), true).steps.len(), 0);
    assert!(needs_compile(false));
    assert!(!needs_compile(true));
}

#[test]
fn link_only_when_needed() {
    assert!(needs_link(true, true));
    assert!(needs_link(false, false));
    assert!(needs_link(true, false));
    assert!(!needs_link(false, true));
}

#[test]
fn changed_source_object_is_recompiled() {
    let mut h: StrMap<String> = StrMap::new();
    let stale = refresh_hash(&mut h, "target/objects/sub/x.d", "./src/sub/x.c".to_string(), "h".to_string());
    assert_eq!(stale, Some(object_path("./src", "./src/sub/x.c")));
    let stale = refresh_hash(&mut h, "target/objects/main.d", "./src/main.c".to_string(), "h".to_string());
    assert_eq!(stale, Some(object_path("./src", "./src/main.c")));
}
