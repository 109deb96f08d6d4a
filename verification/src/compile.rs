//! The rules of `almk build`: which files are sources, the compiler and
//! linker command lines, the include flags, and which objects a change of
//! a source invalidates.
use vstd::prelude::*;
use crate::paths::{
    extension, file_name, file_stem, last_dot, lemma_name_start, lemma_name_start_append,
    name_start, parent, parent_dir, path_extension, path_file_stem, stem_len, with_o_extension,
    with_o_extension_of,
};
use crate::table::StrMap;
use crate::config::Build;
use crate::text::{clone_opt, clone_opt_strings, same_text};

verus! {

/// The kinds of files that a build looks for.
#[allow(non_camel_case_types)]
pub enum Target {
    /// C sources: `.c`.
    CSRC,
    /// C++ sources: `.cpp`, `.cc`, `.cxx`.
    CXXSRC,
    /// Object files: `.o`.
    OBJ,
    /// Dependency files written by the compiler: `.d`.
    DEPS,
    /// Headers: `.h`.
    HEADERS,
}

/// Whether extension `e` marks a file of kind `t`.
pub open spec fn target_extension(t: Target, e: Seq<char>) -> bool {
    match t {
        Target::CSRC => e == "c"@,
        Target::CXXSRC => e == "cpp"@ || e == "cc"@ || e == "cxx"@,
        Target::OBJ => e == "o"@,
        Target::DEPS => e == "d"@,
        Target::HEADERS => e == "h"@,
    }
}

/// Whether the file at `p` is of kind `t`, judged by its extension.
pub open spec fn is_target_file(p: Seq<char>, t: Target) -> bool {
    extension(p) matches Some(e) && target_extension(t, e)
}

/// Tests whether the file at `path` is of kind `target`.
pub fn is_target(path: &str, target: &Target) -> (b: bool)
    ensures
        b == is_target_file(path@, *target),
{
    match path_extension(path) {
        None => false,
        Some(e) => {
            let e = e.as_str();
            match target {
                Target::CSRC => same_text(e, "c"),
                Target::CXXSRC => same_text(e, "cpp") || same_text(e, "cc") || same_text(e, "cxx"),
                Target::OBJ => same_text(e, "o"),
                Target::DEPS => same_text(e, "d"),
                Target::HEADERS => same_text(e, "h"),
            }
        },
    }
}

/// The optimisation flags of a debug or a release build.
pub open spec fn debug_flags_text(debug: bool) -> Seq<char> {
    if debug {
        "-g -O0 -DDEBUG"@
    } else {
        "-O2 -DNDEBUG"@
    }
}

/// The optimisation flags of a debug or a release build.
pub fn debug_flags(debug: bool) -> (s: &'static str)
    ensures
        s@ == debug_flags_text(debug),
{
    if debug {
        "-g -O0 -DDEBUG"
    } else {
        "-O2 -DNDEBUG"
    }
}

/// The command that compiles `source` into `object`, also writing its
/// dependency file (`-MMD`).
pub open spec fn compile_command_text(
    compiler: Seq<char>,
    debug: bool,
    flags: Seq<char>,
    source: Seq<char>,
    object: Seq<char>,
) -> Seq<char> {
    compiler + " "@ + debug_flags_text(debug) + " "@ + flags + " -c "@ + source + " -o "@ + object
        + " -MMD"@
}

/// The command that compiles `source` into `object`.
pub fn compile_command(compiler: &str, debug: bool, flags: &str, source: &str, object: &str) -> (s:
    String)
    ensures
        s@ == compile_command_text(compiler@, debug, flags@, source@, object@),
{
    let mut s = String::from_str(compiler);
    s.append(" ");
    s.append(debug_flags(debug));
    s.append(" ");
    s.append(flags);
    s.append(" -c ");
    s.append(source);
    s.append(" -o ");
    s.append(object);
    s.append(" -MMD");
    s
}

/// `s` without repeats, each element kept at its first occurrence.
pub open spec fn dedup(s: Seq<Seq<char>>) -> Seq<Seq<char>>
    decreases s.len(),
{
    if s.len() == 0 {
        Seq::empty()
    } else {
        let d = dedup(s.drop_last());
        if d.contains(s.last()) {
            d
        } else {
            d.push(s.last())
        }
    }
}

/// `dedup` keeps exactly the elements of `s`, each once.
pub proof fn lemma_dedup(s: Seq<Seq<char>>)
    ensures
        forall|x: Seq<char>| dedup(s).contains(x) <==> s.contains(x),
        forall|i: int, j: int|
            0 <= i < dedup(s).len() && 0 <= j < dedup(s).len() && i != j ==> dedup(s)[i] != dedup(
                s,
            )[j],
    decreases s.len(),
{
    if s.len() > 0 {
        let d = s.drop_last();
        let dd = dedup(d);
        let l = s.last();
        lemma_dedup(d);
        assert forall|x: Seq<char>| s.contains(x) <==> (d.contains(x) || x == l) by {
            if s.contains(x) {
                let k = choose|k: int| 0 <= k < s.len() && s[k] == x;
                if k < s.len() - 1 {
                    assert(d[k] == x);
                }
            }
            if d.contains(x) {
                let k = choose|k: int| 0 <= k < d.len() && d[k] == x;
                assert(s[k] == x);
            }
            if x == l {
                assert(s[s.len() - 1] == x);
            }
        }
        if !dd.contains(l) {
            let e = dd.push(l);
            assert forall|x: Seq<char>| e.contains(x) <==> (dd.contains(x) || x == l) by {
                if e.contains(x) {
                    let k = choose|k: int| 0 <= k < e.len() && e[k] == x;
                    if k < dd.len() {
                        assert(dd[k] == x);
                    }
                }
                if dd.contains(x) {
                    let k = choose|k: int| 0 <= k < dd.len() && dd[k] == x;
                    assert(e[k] == x);
                }
                if x == l {
                    assert(e[e.len() - 1] == x);
                }
            }
            assert forall|i: int, j: int| 0 <= i < e.len() && 0 <= j < e.len() && i != j implies e[i]
                != e[j] by {
                if i < dd.len() && j < dd.len() {
                    assert(dd[i] != dd[j]);
                } else if i < dd.len() {
                    assert(e[i] == dd[i]);
                } else {
                    assert(e[j] == dd[j]);
                }
            }
        }
    }
}

/// The parents of the given paths.
pub open spec fn parents(paths: Seq<Seq<char>>) -> Seq<Seq<char>> {
    paths.map_values(|p: Seq<char>| parent(p))
}

/// ` -I<dir>` for each directory, in order.
pub open spec fn include_args(dirs: Seq<Seq<char>>) -> Seq<char>
    decreases dirs.len(),
{
    if dirs.len() == 0 {
        Seq::empty()
    } else {
        include_args(dirs.drop_last()) + " -I"@ + dirs.last()
    }
}

/// The directories searched for headers: the configured include
/// directories, then the directory of every header found among the
/// dependencies, each directory once.
pub open spec fn include_dirs(includes: Seq<Seq<char>>, headers: Seq<Seq<char>>) -> Seq<Seq<char>> {
    dedup(includes + parents(headers))
}

/// The configured flags (none where absent) followed by ` -I<dir>` for each
/// include directory.
pub open spec fn include_flags_text(
    flags: Option<String>,
    includes: Option<Vec<String>>,
    headers: Seq<Seq<char>>,
) -> Seq<char> {
    let base = match flags {
        Some(f) => f@,
        None => Seq::empty(),
    };
    let inc = match includes {
        Some(v) => v.deep_view(),
        None => Seq::empty(),
    };
    base + include_args(include_dirs(inc, headers))
}

/// The compiler flags of a build: the configured flags, then ` -I<dir>` for
/// each directory of `include_dirs`.
pub fn include_flags(flags: Option<String>, includes: Option<Vec<String>>, headers: &Vec<String>) -> (s:
    String)
    ensures
        s@ == include_flags_text(flags, includes, headers.deep_view()),
{
    let ghost inc = match &includes {
        Some(v) => v.deep_view(),
        None => Seq::<Seq<char>>::empty(),
    };
    let ghost base0 = match &flags {
        Some(f) => f@,
        None => Seq::<char>::empty(),
    };
    let mut s = match flags {
        Some(f) => f,
        None => String::new(),
    };
    let mut all: Vec<String> = match includes {
        Some(v) => v,
        None => Vec::new(),
    };
    assert(all.deep_view() =~= inc);
    let mut i: usize = 0;
    while i < headers.len()
        invariant
            i <= headers@.len(),
            all.deep_view() == inc + parents(headers.deep_view().take(i as int)),
        decreases headers@.len() - i,
    {
        let p = parent_dir(headers[i].as_str());
        let ghost before = all.deep_view();
        all.push(p);
        assert(all.deep_view() =~= before.push(p@));
        assert(headers.deep_view()[i as int] == headers@[i as int]@);
        assert(inc + parents(headers.deep_view().take(i + 1)) =~= before.push(p@));
        i = i + 1;
    }
    assert(headers.deep_view().take(headers@.len() as int) =~= headers.deep_view());
    let ghost all_v = all.deep_view();
    let mut dirs: Vec<String> = Vec::new();
    let mut j: usize = 0;
    assert(all_v.take(0) =~= Seq::<Seq<char>>::empty());
    while j < all.len()
        invariant
            all_v == all.deep_view(),
            j <= all@.len(),
            dirs.deep_view() == dedup(all_v.take(j as int)),
        decreases all@.len() - j,
    {
        let d = all[j].as_str();
        let ghost dv = dirs.deep_view();
        let mut seen = false;
        let mut k: usize = 0;
        while k < dirs.len()
            invariant
                dv == dirs.deep_view(),
                k <= dirs@.len(),
                seen == exists|m: int| 0 <= m < k && dv[m] == d@,
            decreases dirs@.len() - k,
        {
            assert(dv[k as int] == dirs@[k as int]@);
            if same_text(dirs[k].as_str(), d) {
                seen = true;
            }
            k = k + 1;
        }
        assert(all_v.take(j + 1).drop_last() =~= all_v.take(j as int));
        assert(all_v.take(j + 1).last() == d@);
        if !seen {
            dirs.push(String::from_str(d));
            assert(dirs.deep_view() =~= dv.push(d@));
        }
        j = j + 1;
    }
    assert(all_v.take(all_v.len() as int) =~= all_v);
    let ghost dir_v = dirs.deep_view();
    let ghost base = s@;
    assert(base == base0);
    let mut m: usize = 0;
    assert(dir_v.take(0) =~= Seq::<Seq<char>>::empty());
    while m < dirs.len()
        invariant
            dir_v == dirs.deep_view(),
            m <= dirs@.len(),
            s@ == base + include_args(dir_v.take(m as int)),
        decreases dirs@.len() - m,
    {
        assert(dir_v.take(m + 1).drop_last() =~= dir_v.take(m as int));
        s.append(" -I");
        s.append(dirs[m].as_str());
        m = m + 1;
        assert(s@ =~= base + include_args(dir_v.take(m as int)));
    }
    assert(dir_v.take(dir_v.len() as int) =~= dir_v);
    s
}

/// Every configured include directory and the directory of every header
/// is searched, each exactly once, and no other directory is.
pub proof fn law_include_dirs_each_once(includes: Seq<Seq<char>>, headers: Seq<Seq<char>>)
    ensures
        forall|d: Seq<char>| #[trigger]
            include_dirs(includes, headers).contains(d) <==> (includes.contains(d) || exists|i: int|
                0 <= i < headers.len() && parent(headers[i]) == d),
        forall|i: int, j: int|
            0 <= i < include_dirs(includes, headers).len() && 0 <= j < include_dirs(
                includes,
                headers,
            ).len() && i != j ==> include_dirs(includes, headers)[i] != include_dirs(
                includes,
                headers,
            )[j],
{
    let all = includes + parents(headers);
    lemma_dedup(all);
    assert forall|d: Seq<char>| #[trigger]
        include_dirs(includes, headers).contains(d) <==> (includes.contains(d) || exists|i: int|
            0 <= i < headers.len() && parent(headers[i]) == d) by {
        if all.contains(d) {
            let k = choose|k: int| 0 <= k < all.len() && all[k] == d;
            if k >= includes.len() {
                assert(parent(headers[k - includes.len()]) == d);
            }
        }
        if includes.contains(d) {
            let k = choose|k: int| 0 <= k < includes.len() && includes[k] == d;
            assert(all[k] == d);
        }
        if exists|i: int| 0 <= i < headers.len() && parent(headers[i]) == d {
            let i = choose|i: int| 0 <= i < headers.len() && parent(headers[i]) == d;
            assert(all[includes.len() + i] == d);
        }
    }
}

/// The path of the built executable: `target/<name>`.
pub fn executable_path(name: &str) -> (s: String)
    ensures
        s@ == "target/"@ + name@,
{
    let mut s = String::from_str("target/");
    s.append(name);
    s
}

/// The path `almk run` starts the executable by: `./target/<name>`.
pub fn run_path(name: &str) -> (s: String)
    ensures
        s@ == "./target/"@ + name@,
{
    let mut s = String::from_str("./target/");
    s.append(name);
    s
}

/// `<object> ` for each object file, in order.
pub open spec fn object_args(objects: Seq<Seq<char>>) -> Seq<char>
    decreases objects.len(),
{
    if objects.len() == 0 {
        Seq::empty()
    } else {
        object_args(objects.drop_last()) + objects.last() + " "@
    }
}

/// The command that links the objects into `target/<name>`.
pub open spec fn link_command_text(
    linker: Seq<char>,
    lnflags: Option<Seq<char>>,
    objects: Seq<Seq<char>>,
    name: Seq<char>,
) -> Seq<char> {
    let head = match lnflags {
        Some(f) => linker + " "@ + f + " "@,
        None => linker + " "@,
    };
    head + object_args(objects) + "-o target/"@ + name
}

/// The command that links the objects into `target/<name>`.
pub fn link_command(linker: &str, lnflags: &Option<String>, objects: &Vec<String>, name: &str) -> (s:
    String)
    ensures
        s@ == link_command_text(
            linker@,
            match lnflags {
                Some(f) => Some(f@),
                None => None,
            },
            objects.deep_view(),
            name@,
        ),
{
    let mut s = String::from_str(linker);
    match lnflags {
        Some(f) => {
            s.append(" ");
            s.append(f.as_str());
            s.append(" ");
        },
        None => {
            s.append(" ");
        },
    }
    let ghost head = s@;
    let ghost ov = objects.deep_view();
    let mut i: usize = 0;
    assert(ov.take(0) =~= Seq::<Seq<char>>::empty());
    while i < objects.len()
        invariant
            ov == objects.deep_view(),
            i <= objects@.len(),
            s@ == head + object_args(ov.take(i as int)),
        decreases objects@.len() - i,
    {
        assert(ov.take(i + 1).drop_last() =~= ov.take(i as int));
        s.append(objects[i].as_str());
        s.append(" ");
        i = i + 1;
        assert(s@ =~= head + object_args(ov.take(i as int)));
    }
    assert(ov.take(ov.len() as int) =~= ov);
    s.append("-o target/");
    s.append(name);
    s
}

/// Whether the hash recorded for `dep` differs from `current` (a missing
/// record counts as the empty text).
pub open spec fn hash_changed(hashes: Map<Seq<char>, String>, dep: Seq<char>, current: Seq<char>) -> bool {
    let recorded = if hashes.contains_key(dep) {
        hashes[dep]@
    } else {
        Seq::empty()
    };
    recorded != current
}

/// The record after the prerequisites `prereqs` (paths with their current
/// hashes) were seen, in order.
pub open spec fn recorded(record: Map<Seq<char>, String>, prereqs: Seq<(String, String)>) -> Map<
    Seq<char>,
    String,
>
    decreases prereqs.len(),
{
    if prereqs.len() == 0 {
        record
    } else {
        recorded(record, prereqs.drop_last()).insert(prereqs.last().0@, prereqs.last().1)
    }
}

/// Whether the hash recorded for `dep` differs from `current`.
fn hash_differs(previous: &StrMap<String>, dep: &str, current: &str) -> (b: bool)
    ensures
        b == hash_changed(previous@, dep@, current@),
{
    let b = match previous.get(dep) {
        Some(h) => !same_text(h.as_str(), current),
        None => current.unicode_len() != 0,
    };
    assert(current@.len() == 0 ==> current@ =~= Seq::<char>::empty());
    b
}

/// Records the current hashes of prerequisites.
pub fn record_hashes(record: &mut StrMap<String>, prereqs: &Vec<(String, String)>)
    ensures
        final(record)@ == recorded(old(record)@, prereqs@),
{
    let mut i: usize = 0;
    assert(prereqs@.take(0) =~= Seq::<(String, String)>::empty());
    while i < prereqs.len()
        invariant
            i <= prereqs@.len(),
            record@ == recorded(old(record)@, prereqs@.take(i as int)),
        decreases prereqs@.len() - i,
    {
        assert(prereqs@.take(i + 1).drop_last() =~= prereqs@.take(i as int));
        record.insert(prereqs[i].0.clone(), prereqs[i].1.clone());
        i = i + 1;
    }
    assert(prereqs@.take(prereqs@.len() as int) =~= prereqs@);
}

/// Whether `dep` is a C or C++ source.
pub open spec fn is_source(dep: Seq<char>) -> bool {
    is_target_file(dep, Target::CSRC) || is_target_file(dep, Target::CXXSRC)
}

/// The object file to drop when the prerequisite `dep`, listed by the
/// dependency file `dep_file`, has changed. For a source it is the object
/// beside `dep_file` (its path with extension `o`), the object compiled
/// from that source wherever it lies under `src/`, so that every modified
/// source is compiled again. For any other prerequisite (a header) it is
/// `target/objects/<stem of dep>.o`. For a source directly under `src/` the
/// two rules name the same object.
pub open spec fn stale_object(dep_file: Seq<char>, dep: Seq<char>) -> Seq<char> {
    if is_source(dep) {
        with_o_extension(dep_file)
    } else {
        "target/objects/"@ + file_stem(dep) + ".o"@
    }
}

/// The table of hashes after `dep` was seen with hash `current`.
pub open spec fn refreshed(hashes: Map<Seq<char>, String>, dep: Seq<char>, current: String) -> Map<
    Seq<char>,
    String,
> {
    if hash_changed(hashes, dep, current@) {
        hashes.insert(dep, current)
    } else {
        hashes
    }
}

/// Compares the hash of the prerequisite `dep`, listed by the dependency
/// file `dep_file`, with the one recorded. Where it changed, the new hash is
/// recorded and the object to drop (`stale_object`) is returned: it must be
/// rebuilt.
pub fn refresh_hash(hashes: &mut StrMap<String>, dep_file: &str, dep: String, current: String) -> (stale:
    Option<String>)
    ensures
        stale is Some <==> hash_changed(old(hashes)@, dep@, current@),
        stale matches Some(o) ==> o@ == stale_object(dep_file@, dep@),
        final(hashes)@ == refreshed(old(hashes)@, dep@, current),
{
    if hash_differs(hashes, dep.as_str(), current.as_str()) {
        let obj = if is_target(dep.as_str(), &Target::CSRC) || is_target(dep.as_str(), &Target::CXXSRC) {
            with_o_extension_of(dep_file)
        } else {
            let mut o = String::from_str("target/objects/");
            let stem = path_file_stem(dep.as_str());
            o.append(stem.as_str());
            o.append(".o");
            o
        };
        hashes.insert(dep, current);
        Some(obj)
    } else {
        None
    }
}

/// One compilation pass of a build.
pub enum CompileStep {
    /// Compile the sources of kind `target` under `./src` with `compiler`,
    /// passing the configured `flags` and the include directories.
    Sources { compiler: String, target: Target, flags: Option<String>, includes: Option<Vec<String>> },
    /// Compile the C sources of the fetched dependencies under `.deps`.
    DepSources { compiler: String, flags: Option<String> },
}

/// A compilation pass, by the text of its parts.
pub enum CompileStepView {
    Sources {
        compiler: Seq<char>,
        target: Target,
        flags: Option<Seq<char>>,
        includes: Option<Seq<Seq<char>>>,
    },
    DepSources { compiler: Seq<char>, flags: Option<Seq<char>> },
}

impl CompileStep {
    pub open spec fn text_view(self) -> CompileStepView {
        match self {
            CompileStep::Sources { compiler, target, flags, includes } => CompileStepView::Sources {
                compiler: compiler@,
                target,
                flags: flags.deep_view(),
                includes: includes.deep_view(),
            },
            CompileStep::DepSources { compiler, flags } => CompileStepView::DepSources {
                compiler: compiler@,
                flags: flags.deep_view(),
            },
        }
    }
}

/// The compilation passes of a build, in order: with a C compiler, the C
/// sources of `src/`, then the C sources of the dependencies; with a C++
/// compiler, the C++ sources of `src/`.
pub open spec fn planned_steps(b: Build) -> Seq<CompileStepView> {
    let c = match b.cc {
        Some(cc) => seq![
            CompileStepView::Sources {
                compiler: cc@,
                target: Target::CSRC,
                flags: b.cflags.deep_view(),
                includes: b.includes.deep_view(),
            },
            CompileStepView::DepSources { compiler: cc@, flags: b.cflags.deep_view() },
        ],
        None => Seq::empty(),
    };
    let x = match b.cxx {
        Some(cxx) => seq![
            CompileStepView::Sources {
                compiler: cxx@,
                target: Target::CXXSRC,
                flags: b.cxxflags.deep_view(),
                includes: b.includes.deep_view(),
            },
        ],
        None => Seq::empty(),
    };
    c + x
}

/// What a build does before linking.
pub struct BuildPlan {
    /// `target/deps.json` is refreshed before compiling where the object
    /// directory already exists; otherwise it is written afresh after
    /// linking.
    pub refresh_record: bool,
    /// The compilation passes, in order.
    pub steps: Vec<CompileStep>,
}

/// The plan of a build with settings `build`, given whether
/// `target/objects` exists.
pub fn build_plan(build: &Build, objects_dir_exists: bool) -> (plan: BuildPlan)
    ensures
        plan.refresh_record == objects_dir_exists,
        plan.steps@.map_values(|s: CompileStep| s.text_view()) == planned_steps(*build),
{
    let mut steps: Vec<CompileStep> = Vec::new();
    if let Some(cc) = &build.cc {
        steps.push(
            CompileStep::Sources {
                compiler: cc.clone(),
                target: Target::CSRC,
                flags: clone_opt(&build.cflags),
                includes: clone_opt_strings(&build.includes),
            },
        );
        steps.push(CompileStep::DepSources { compiler: cc.clone(), flags: clone_opt(&build.cflags) });
    }
    if let Some(cxx) = &build.cxx {
        steps.push(
            CompileStep::Sources {
                compiler: cxx.clone(),
                target: Target::CXXSRC,
                flags: clone_opt(&build.cxxflags),
                includes: clone_opt_strings(&build.includes),
            },
        );
    }
    assert(steps@.map_values(|s: CompileStep| s.text_view()) =~= planned_steps(*build));
    BuildPlan { refresh_record: objects_dir_exists, steps }
}

/// Whether a source is compiled: only when its object file is missing.
pub fn needs_compile(object_exists: bool) -> (b: bool)
    ensures
        b == !object_exists,
{
    !object_exists
}

/// Whether the executable must be linked: some file was compiled in this
/// build, or there is no executable yet.
pub fn needs_link(compiled_any: bool, executable_exists: bool) -> (b: bool)
    ensures
        b == (compiled_any || !executable_exists),
{
    compiled_any || !executable_exists
}

/// The compiler writes the dependency file `q.d` beside the object `q.o`;
/// the object that `refresh_hash` drops for a changed source listed in
/// `q.d` is `q.o`, so a modified source is compiled again, wherever it lies.
pub proof fn law_dep_file_names_its_object(q: Seq<char>)
    requires
        file_name(q).len() > 0,
    ensures
        with_o_extension(q + ".d"@) == q + ".o"@,
{
    reveal_strlit(".d");
    reveal_strlit(".o");
    let p = q + ".d"@;
    assert(".d"@ =~= seq!['.', 'd']);
    assert(".o"@ =~= seq!['.', 'o']);
    lemma_name_start_append(q, ".d"@);
    lemma_name_start(q);
    let n = file_name(q);
    assert(file_name(p) =~= n + seq!['.', 'd']);
    let f = file_name(p);
    assert(f.last() == 'd');
    assert(f.drop_last() =~= n.push('.'));
    assert(n.push('.').last() == '.');
    assert(last_dot(n.push('.')) == n.len());
    assert(last_dot(f) == n.len());
    assert(file_name(p) != seq!['.', '.']) by {
        if file_name(p) == seq!['.', '.'] {
            assert(file_name(p).len() == 2);
            assert(file_name(p)[1] == 'd');
        }
    }
    assert(stem_len(file_name(p)) == n.len());
    assert(p.take(name_start(p) + n.len()) =~= q);
}

/// The object dropped for a changed header does not depend on which
/// dependency file listed it; the one dropped for a changed source is the one
/// beside its dependency file. Either way it is an object file: its
/// extension is `o`.
pub proof fn law_stale_object_choice(d1: Seq<char>, d2: Seq<char>, dep: Seq<char>)
    requires
        file_name(d1).len() > 0,
    ensures
        !is_source(dep) ==> stale_object(d1, dep) == stale_object(d2, dep),
        is_source(dep) ==> stale_object(d1, dep) == with_o_extension(d1),
        stale_object(d1, dep).len() >= 2,
        stale_object(d1, dep).last() == 'o',
        stale_object(d1, dep)[stale_object(d1, dep).len() - 2] == '.',
{
    reveal_strlit(".o");
    reveal_strlit("target/objects/");
    assert(".o"@ =~= seq!['.', 'o']);
    let o = stale_object(d1, dep);
    if is_source(dep) {
        assert(o == d1.take(name_start(d1) + stem_len(file_name(d1))) + seq!['.', 'o']);
    } else {
        assert(o == "target/objects/"@ + file_stem(dep) + seq!['.', 'o']);
    }
}

/// Once a prerequisite has been seen with a hash, seeing it again with the
/// same hash changes nothing: an unchanged file causes no rebuild.
pub proof fn law_refresh_settles(hashes: Map<Seq<char>, String>, dep: Seq<char>, current: String)
    ensures
        !hash_changed(refreshed(hashes, dep, current), dep, current@),
        refreshed(refreshed(hashes, dep, current), dep, current) == refreshed(hashes, dep, current),
{
}

/// A source whose recorded hash is not its current one is always rebuilt,
/// in particular one with no record yet (a hash is never empty).
pub proof fn law_new_source_is_stale(hashes: Map<Seq<char>, String>, dep: Seq<char>, current: Seq<char>)
    requires
        !hashes.contains_key(dep),
        current.len() > 0,
    ensures
        hash_changed(hashes, dep, current),
{
}

/// Any edit is seen: where the recorded hash and the current one differ in
/// length or at any position, the prerequisite counts as changed, and the
/// refreshed record holds the current hash.
pub proof fn law_any_difference_is_a_change(
    hashes: Map<Seq<char>, String>,
    dep: Seq<char>,
    current: String,
    i: int,
)
    requires
        hashes.contains_key(dep),
        hashes[dep]@.len() != current@.len() || (0 <= i < current@.len() && i < hashes[dep]@.len()
            && hashes[dep]@[i] != current@[i]),
    ensures
        hash_changed(hashes, dep, current@),
        refreshed(hashes, dep, current).contains_key(dep),
        refreshed(hashes, dep, current)[dep] == current,
{
    if hashes[dep]@ == current@ {
        assert(hashes[dep]@.len() == current@.len());
        assert(hashes[dep]@[i] == current@[i]);
    }
}

/// A prerequisite recorded with exactly its current hash has not changed,
/// and refreshing leaves the record as it was.
pub proof fn law_same_hash_is_no_change(hashes: Map<Seq<char>, String>, dep: Seq<char>, current: String)
    requires
        hashes.contains_key(dep),
        hashes[dep]@ == current@,
    ensures
        !hash_changed(hashes, dep, current@),
        refreshed(hashes, dep, current) == hashes,
{
}

/// The kinds of file do not overlap: no path is of two kinds at once, and
/// an object file is exactly a file with extension `o`.
pub proof fn law_file_kinds_are_disjoint(p: Seq<char>, t1: Target, t2: Target)
    ensures
        is_target_file(p, t1) && is_target_file(p, t2) ==> t1 == t2,
        is_target_file(p, Target::OBJ) ==> extension(p) == Some(seq!['o']),
        is_target_file(p, Target::DEPS) ==> extension(p) == Some(seq!['d']),
        is_target_file(p, Target::HEADERS) ==> extension(p) == Some(seq!['h']),
        is_target_file(p, Target::CSRC) ==> extension(p) == Some(seq!['c']),
        is_target_file(p, Target::CXXSRC) ==> extension(p) == Some(seq!['c', 'p', 'p']) || extension(
            p,
        ) == Some(seq!['c', 'c']) || extension(p) == Some(seq!['c', 'x', 'x']),
        extension(p) == Some(seq!['o']) ==> is_target_file(p, Target::OBJ),
        extension(p) == Some(seq!['d']) ==> is_target_file(p, Target::DEPS),
        extension(p) == Some(seq!['h']) ==> is_target_file(p, Target::HEADERS),
        extension(p) == Some(seq!['c']) ==> is_target_file(p, Target::CSRC),
        extension(p) == Some(seq!['c', 'p', 'p']) || extension(p) == Some(seq!['c', 'c'])
            || extension(p) == Some(seq!['c', 'x', 'x']) ==> is_target_file(p, Target::CXXSRC),
        extension(p) is None ==> !is_target_file(p, t1),
{
    reveal_strlit("c");
    reveal_strlit("cpp");
    reveal_strlit("cc");
    reveal_strlit("cxx");
    reveal_strlit("o");
    reveal_strlit("d");
    reveal_strlit("h");
    assert("c"@ =~= seq!['c']);
    assert("cpp"@ =~= seq!['c', 'p', 'p']);
    assert("cc"@ =~= seq!['c', 'c']);
    assert("cxx"@ =~= seq!['c', 'x', 'x']);
    assert("o"@ =~= seq!['o']);
    assert("d"@ =~= seq!['d']);
    assert("h"@ =~= seq!['h']);
    if let Some(e) = extension(p) {
        if e.len() == 1 {
            if e[0] == 'o' { assert(e =~= seq!['o']); }
        }
    }
}

/// Every pass of a build takes its settings from `[build]`: each pass over
/// the project's own sources, C and C++ alike, carries the configured include
/// directories; C passes use the C compiler and `cflags`, the C++ pass the
/// C++ compiler and `cxxflags`. There is a C pass and a pass over the
/// dependencies exactly when a C compiler is set, and a C++ pass exactly
/// when a C++ compiler is set.
pub proof fn law_plan_uses_build_settings(b: Build)
    ensures
        forall|i: int|
            0 <= i < planned_steps(b).len() ==> match #[trigger] planned_steps(b)[i] {
                CompileStepView::Sources { compiler, target, flags, includes } => {
                    &&& includes == b.includes.deep_view()
                    &&& (target == Target::CSRC || target == Target::CXXSRC)
                    &&& target == Target::CSRC ==> b.cc is Some && compiler == b.cc->Some_0@ && flags
                        == b.cflags.deep_view()
                    &&& target == Target::CXXSRC ==> b.cxx is Some && compiler == b.cxx->Some_0@
                        && flags == b.cxxflags.deep_view()
                },
                CompileStepView::DepSources { compiler, flags } => b.cc is Some && compiler
                    == b.cc->Some_0@ && flags == b.cflags.deep_view(),
            },
        b.cc is Some <==> exists|i: int|
            0 <= i < planned_steps(b).len() && #[trigger] planned_steps(b)[i]
                == (CompileStepView::Sources {
                compiler: b.cc->Some_0@,
                target: Target::CSRC,
                flags: b.cflags.deep_view(),
                includes: b.includes.deep_view(),
            }),
        b.cc is Some <==> exists|i: int|
            0 <= i < planned_steps(b).len() && #[trigger] planned_steps(b)[i]
                == (CompileStepView::DepSources { compiler: b.cc->Some_0@, flags: b.cflags.deep_view() }),
        planned_steps(b).len() == (if b.cc is Some { 2int } else { 0 }) + (if b.cxx is Some {
            1int
        } else {
            0
        }),
        b.cc is Some ==> planned_steps(b)[0] is Sources && planned_steps(b)[1] is DepSources,
        b.cxx is Some ==> planned_steps(b).last() is Sources && planned_steps(b).last()->target
            == Target::CXXSRC,
        b.cxx is Some <==> exists|i: int|
            0 <= i < planned_steps(b).len() && #[trigger] planned_steps(b)[i]
                == (CompileStepView::Sources {
                compiler: b.cxx->Some_0@,
                target: Target::CXXSRC,
                flags: b.cxxflags.deep_view(),
                includes: b.includes.deep_view(),
            }),
{
    let s = planned_steps(b);
    if b.cc is Some {
        assert(s[0] == (CompileStepView::Sources {
            compiler: b.cc->Some_0@,
            target: Target::CSRC,
            flags: b.cflags.deep_view(),
            includes: b.includes.deep_view(),
        }));
        assert(s[1] == (CompileStepView::DepSources { compiler: b.cc->Some_0@, flags: b.cflags.deep_view() }));
        if b.cxx is Some {
            assert(s[2] == (CompileStepView::Sources {
                compiler: b.cxx->Some_0@,
                target: Target::CXXSRC,
                flags: b.cxxflags.deep_view(),
                includes: b.includes.deep_view(),
            }));
        }
    } else if b.cxx is Some {
        assert(s[0] == (CompileStepView::Sources {
            compiler: b.cxx->Some_0@,
            target: Target::CXXSRC,
            flags: b.cxxflags.deep_view(),
            includes: b.includes.deep_view(),
        }));
    }
}

} // verus!
