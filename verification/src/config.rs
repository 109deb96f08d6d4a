//! The project manifest, `Alumake.toml`, and the edits that `almk add` and
//! `almk rm` make to its dependency table.
use vstd::prelude::*;
use crate::table::StrMap;

verus! {

/// The `[package]` table: metadata of the project.
pub struct Package {
    pub name: String,
    pub version: Option<String>,
    pub author: Option<String>,
    pub license: Option<String>,
    pub language: Option<String>,
}

/// The `[build]` table: how the project is compiled and linked.
pub struct Build {
    pub debug: bool,
    pub linker: String,
    pub cc: Option<String>,
    pub cxx: Option<String>,
    pub cflags: Option<String>,
    pub cxxflags: Option<String>,
    pub lnflags: Option<String>,
    pub includes: Option<Vec<String>>,
}

/// One entry of the `[dependencies]` table: an archive or git repository
/// at `url`, or a local file at `local`.
pub struct Dependency {
    pub local: Option<String>,
    pub url: Option<String>,
    pub git: bool,
    pub tag: Option<String>,
}

/// The whole manifest.
pub struct Config {
    pub package: Package,
    pub build: Build,
    pub dependencies: Option<StrMap<Dependency>>,
}

/// The dependency table as a map from names, `None` where the manifest has
/// no `[dependencies]` table.
pub type DepTable = Option<Map<Seq<char>, Dependency>>;

impl Config {
    /// The dependency table of the manifest.
    pub open spec fn deps(&self) -> DepTable {
        match &self.dependencies {
            Some(m) => Some(m@),
            None => None,
        }
    }
}

/// The table after `name` is added with entry `dep`: an entry already under
/// that name is replaced, and a manifest without a table gets one.
pub open spec fn with_dependency(deps: DepTable, name: Seq<char>, dep: Dependency) -> DepTable {
    match deps {
        Some(m) => Some(m.insert(name, dep)),
        None => Some(Map::empty().insert(name, dep)),
    }
}

/// Whether `almk rm name` succeeds: the table exists and lists `name`.
pub open spec fn can_remove(deps: DepTable, name: Seq<char>) -> bool {
    deps matches Some(m) && m.contains_key(name)
}

/// The table after a successful removal of `name`: a table left empty is
/// dropped from the manifest.
pub open spec fn without_dependency(deps: DepTable, name: Seq<char>) -> DepTable {
    match deps {
        Some(m) => if m.remove(name).dom() == Set::<Seq<char>>::empty() {
            None
        } else {
            Some(m.remove(name))
        },
        None => None,
    }
}

/// Why `almk rm` refused to remove a dependency.
pub enum RemoveError {
    /// The manifest has a dependency table, but not this name in it.
    NotListed(String),
    /// The manifest has no dependency table at all.
    NoDependencies(String),
}

impl RemoveError {
    /// The message printed for the error.
    pub fn message(&self) -> (s: String)
        ensures
            self matches RemoveError::NotListed(n) ==> s@ == "No dependency "@ + n@ + " found"@,
            self matches RemoveError::NoDependencies(n) ==> s@ == "No dependency '"@ + n@
                + "' found"@,
    {
        match self {
            RemoveError::NotListed(n) => {
                let mut s = String::from_str("No dependency ");
                s.append(n.as_str());
                s.append(" found");
                s
            },
            RemoveError::NoDependencies(n) => {
                let mut s = String::from_str("No dependency '");
                s.append(n.as_str());
                s.append("' found");
                s
            },
        }
    }
}

/// Adds (or replaces) the dependency `name` in the manifest.
pub fn add_dep(
    config: &mut Config,
    name: String,
    local: Option<String>,
    url: Option<String>,
    git: bool,
    tag: Option<String>,
)
    ensures
        final(config).package == old(config).package,
        final(config).build == old(config).build,
        final(config).deps() == with_dependency(
            old(config).deps(),
            name@,
            Dependency { local, url, git, tag },
        ),
{
    let dep = Dependency { local, url, git, tag };
    match config.dependencies.take() {
        Some(mut deps) => {
            deps.insert(name, dep);
            config.dependencies = Some(deps);
        },
        None => {
            let mut deps = StrMap::new();
            deps.insert(name, dep);
            config.dependencies = Some(deps);
        },
    }
}

/// Removes the dependency `name` from the manifest; the table is dropped
/// when it becomes empty. Refused, with the manifest unchanged, when the
/// manifest has no dependency table or the table does not list `name`.
pub fn rm_dep(config: &mut Config, name: &str) -> (r: Result<(), RemoveError>)
    ensures
        r is Ok <==> can_remove(old(config).deps(), name@),
        r is Ok ==> final(config).deps() == without_dependency(old(config).deps(), name@),
        r is Ok ==> final(config).package == old(config).package,
        r is Ok ==> final(config).build == old(config).build,
        r is Err ==> *final(config) == *old(config),
        r matches Err(RemoveError::NoDependencies(n)) ==> n@ == name@ && old(config).deps() is None,
        r matches Err(RemoveError::NotListed(n)) ==> n@ == name@ && old(config).deps() is Some,
{
    let present = match &config.dependencies {
        Some(deps) => deps.contains_key(name),
        None => return Err(RemoveError::NoDependencies(String::from_str(name))),
    };
    if !present {
        return Err(RemoveError::NotListed(String::from_str(name)));
    }
    let mut deps = config.dependencies.take().unwrap();
    deps.remove(name);
    if deps.is_empty() {
        config.dependencies = None;
    } else {
        config.dependencies = Some(deps);
    }
    Ok(())
}

/// After `add_dep`, the table lists the dependency under its name.
pub proof fn law_added_is_listed(deps: DepTable, name: Seq<char>, dep: Dependency)
    ensures
        with_dependency(deps, name, dep) matches Some(m) && m.contains_key(name) && m[name] == dep,
        can_remove(with_dependency(deps, name, dep), name),
{
}

/// Adding a name leaves every other entry of the table as it was.
pub proof fn law_add_keeps_others(deps: DepTable, name: Seq<char>, dep: Dependency, other: Seq<char>)
    requires
        other != name,
    ensures
        with_dependency(deps, name, dep) is Some,
        with_dependency(deps, name, dep)->Some_0.contains_key(other) <==> (deps is Some
            && deps->Some_0.contains_key(other)),
        deps is Some && deps->Some_0.contains_key(other) ==> with_dependency(deps, name, dep)->Some_0[other]
            == deps->Some_0[other],
{
}

/// Adding the same name twice keeps only the second entry.
pub proof fn law_add_twice(deps: DepTable, name: Seq<char>, first: Dependency, second: Dependency)
    ensures
        with_dependency(with_dependency(deps, name, first), name, second) == with_dependency(
            deps,
            name,
            second,
        ),
{
    match deps {
        Some(m) => {
            assert(m.insert(name, first).insert(name, second) =~= m.insert(name, second));
        },
        None => {
            assert(Map::<Seq<char>, Dependency>::empty().insert(name, first).insert(name, second)
                =~= Map::<Seq<char>, Dependency>::empty().insert(name, second));
        },
    }
}

/// Removing a dependency that was just added under a new name gives back
/// the table as it was before. (A table that is present but empty is the one
/// exception: it is dropped instead.)
pub proof fn law_remove_undoes_add(deps: DepTable, name: Seq<char>, dep: Dependency)
    requires
        deps matches Some(m) ==> !m.contains_key(name) && m.dom() != Set::<Seq<char>>::empty(),
    ensures
        can_remove(with_dependency(deps, name, dep), name),
        without_dependency(with_dependency(deps, name, dep), name) == deps,
{
    match deps {
        Some(m) => {
            assert(m.insert(name, dep).remove(name) =~= m);
        },
        None => {
            assert(Map::<Seq<char>, Dependency>::empty().insert(name, dep).remove(name).dom()
                =~= Set::<Seq<char>>::empty());
        },
    }
}

/// A name that the table does not list cannot be removed.
pub proof fn law_remove_needs_listing(deps: DepTable, name: Seq<char>)
    requires
        !(deps matches Some(m) && m.contains_key(name)),
    ensures
        !can_remove(deps, name),
{
}

} // verus!
