//! `almk sync`: what to do for each dependency of the manifest, and what
//! the record of fetched archives (`target/deps-sync.json`) becomes. The
//! fetching itself (clone, download, unpack, copy) is done by the caller,
//! which reports back what it found.
use vstd::prelude::*;
use crate::config::Dependency;
use crate::table::StrMap;
use crate::text::same_text;

verus! {

/// Where dependency `name` is placed: `.deps/<name>`.
pub open spec fn dep_dir(name: Seq<char>) -> Seq<char> {
    ".deps/"@ + name
}

/// Where the archive of dependency `name` is downloaded to:
/// `.deps/<name>.zip`.
pub open spec fn archive_path(name: Seq<char>) -> Seq<char> {
    ".deps/"@ + name + ".zip"@
}

/// The directory of dependency `name`: `.deps/<name>`.
pub fn dep_dir_of(name: &str) -> (s: String)
    ensures
        s@ == dep_dir(name@),
{
    let mut s = String::from_str(".deps/");
    s.append(name);
    s
}

/// The step to take for one dependency.
pub enum SyncAction {
    /// Nothing to fetch.
    Skip,
    /// Clone the git repository at `url` into `dest` (where the clone fails,
    /// the repository is already there); then, where `tag` is given, check
    /// that tag out.
    Clone { url: String, dest: String, tag: Option<String> },
    /// Download the archive at `url` to `archive`; it is to be unpacked into
    /// `dest`.
    Download { url: String, archive: String, dest: String },
    /// Copy the local file `source` to `dest`.
    CopyLocal { source: String, dest: String },
}

/// The kinds of step, for stating what is decided.
pub enum StepKind {
    Skip,
    Clone,
    Download,
    CopyLocal,
}

impl SyncAction {
    pub open spec fn kind(self) -> StepKind {
        match self {
            SyncAction::Skip => StepKind::Skip,
            SyncAction::Clone { .. } => StepKind::Clone,
            SyncAction::Download { .. } => StepKind::Download,
            SyncAction::CopyLocal { .. } => StepKind::CopyLocal,
        }
    }
}

/// The kind of step for dependency `name` given the record of fetched
/// archives and whether `.deps/<name>` exists: a git repository is always
/// cloned; an archive is downloaded unless it was fetched before and is
/// still in place; a local file is copied unless already in place.
pub open spec fn planned(
    name: Seq<char>,
    dep: Dependency,
    fetched: Map<Seq<char>, String>,
    dest_exists: bool,
) -> StepKind {
    if dep.url is Some {
        if dep.git {
            StepKind::Clone
        } else if fetched.contains_key(name) && dest_exists {
            StepKind::Skip
        } else {
            StepKind::Download
        }
    } else if dep.local is Some {
        if dest_exists {
            StepKind::Skip
        } else {
            StepKind::CopyLocal
        }
    } else {
        StepKind::Skip
    }
}

fn copy_opt(s: &Option<String>) -> (r: Option<String>)
    ensures
        r is Some <==> s is Some,
        r matches Some(x) ==> x@ == s->Some_0@,
{
    match s {
        Some(x) => Some(x.clone()),
        None => None,
    }
}

/// The step to take for dependency `name`, given the record of fetched
/// archives and whether `.deps/<name>` exists.
pub fn sync_action(name: &str, dep: &Dependency, fetched: &StrMap<String>, dest_exists: bool) -> (r:
    SyncAction)
    ensures
        r.kind() == planned(name@, *dep, fetched@, dest_exists),
        r matches SyncAction::Clone { url, dest, tag } ==> url@ == dep.url->Some_0@ && dest@
            == dep_dir(name@) && (tag is Some <==> dep.tag is Some) && (tag is Some ==> tag->Some_0@
            == dep.tag->Some_0@),
        r matches SyncAction::Download { url, archive, dest } ==> url@ == dep.url->Some_0@
            && archive@ == archive_path(name@) && dest@ == dep_dir(name@),
        r matches SyncAction::CopyLocal { source, dest } ==> source@ == dep.local->Some_0@ && dest@
            == dep_dir(name@),
{
    let dest = dep_dir_of(name);
    match &dep.url {
        Some(url) => {
            if dep.git {
                SyncAction::Clone { url: url.clone(), dest, tag: copy_opt(&dep.tag) }
            } else if fetched.contains_key(name) && dest_exists {
                SyncAction::Skip
            } else {
                let mut archive = String::from_str(".deps/");
                archive.append(name);
                archive.append(".zip");
                SyncAction::Download { url: url.clone(), archive, dest }
            }
        },
        None => match &dep.local {
            Some(local) => {
                if dest_exists {
                    SyncAction::Skip
                } else {
                    SyncAction::CopyLocal { source: local.clone(), dest }
                }
            },
            None => SyncAction::Skip,
        },
    }
}

/// What follows an attempt to clone a git dependency.
pub enum CloneStep {
    /// Nothing more to do.
    Done,
    /// Check `tag` out in the repository just cloned.
    CheckoutCloned { tag: String },
    /// The clone failed (the repository is already there): open it and
    /// check `tag` out.
    OpenAndCheckout { tag: String },
}

/// The step after a clone attempt that succeeded (`cloned`) or failed,
/// for a dependency with or without a tag. Without a tag a failed clone is
/// passed over; with one, the tag is checked out in either case.
pub fn after_clone(cloned: bool, tag: Option<String>) -> (r: CloneStep)
    ensures
        tag is None ==> r is Done,
        tag is Some && cloned ==> r == (CloneStep::CheckoutCloned { tag: tag->Some_0 }),
        tag is Some && !cloned ==> r == (CloneStep::OpenAndCheckout { tag: tag->Some_0 }),
{
    match tag {
        None => CloneStep::Done,
        Some(t) => if cloned {
            CloneStep::CheckoutCloned { tag: t }
        } else {
            CloneStep::OpenAndCheckout { tag: t }
        },
    }
}

/// What to do with a downloaded archive.
pub enum ArchiveStep {
    /// The same archive is already unpacked: delete the download.
    Discard,
    /// Unpack it into `.deps/<name>` (emptied first when `clear_dest`), then
    /// delete the download.
    Extract { clear_dest: bool },
}

/// Whether the archive just downloaded for `name`, with hash `current`, is
/// the one already unpacked.
pub open spec fn already_unpacked(
    fetched: Map<Seq<char>, String>,
    name: Seq<char>,
    current: Seq<char>,
    dest_exists: bool,
) -> bool {
    fetched.contains_key(name) && fetched[name]@ == current && dest_exists
}

/// The record of fetched archives after the download of `name`.
pub open spec fn after_download(
    fetched: Map<Seq<char>, String>,
    name: Seq<char>,
    current: String,
    dest_exists: bool,
) -> Map<Seq<char>, String> {
    if already_unpacked(fetched, name, current@, dest_exists) {
        fetched
    } else {
        fetched.insert(name, current)
    }
}

/// Decides what becomes of the archive downloaded for `name`, whose hash
/// is `current`, and records the hash of an archive that gets unpacked.
pub fn finish_download(fetched: &mut StrMap<String>, name: String, current: String, dest_exists: bool) -> (r:
    ArchiveStep)
    ensures
        already_unpacked(old(fetched)@, name@, current@, dest_exists) ==> r is Discard,
        r is Discard ==> dest_exists && old(fetched)@.contains_key(name@) && old(fetched)@[name@]@
            == current@,
        !dest_exists ==> r == (ArchiveStep::Extract { clear_dest: false }),
        !already_unpacked(old(fetched)@, name@, current@, dest_exists) ==> r
            == (ArchiveStep::Extract { clear_dest: dest_exists }),
        final(fetched)@ == after_download(old(fetched)@, name@, current, dest_exists),
{
    let same = match fetched.get(name.as_str()) {
        Some(h) => same_text(h.as_str(), current.as_str()),
        None => false,
    };
    if same && dest_exists {
        ArchiveStep::Discard
    } else {
        fetched.insert(name, current);
        ArchiveStep::Extract { clear_dest: dest_exists }
    }
}

/// The record of fetched files after a local file was copied for `name`:
/// it holds the hash of the copied file.
pub fn finish_copy(fetched: &mut StrMap<String>, name: String, current: String)
    ensures
        final(fetched)@ == old(fetched)@.insert(name@, current),
{
    fetched.insert(name, current);
}

/// What a sync run meets for one dependency: its name and entry, whether
/// `.deps/<name>` existed when the step was chosen and after a download,
/// and the hash of what was downloaded or copied.
pub struct SyncEvent {
    pub name: Seq<char>,
    pub dep: Dependency,
    pub dest_exists: bool,
    pub dest_exists_after: bool,
    pub current: String,
}

/// The record after one dependency was handled: `finish_download` after a
/// download, `finish_copy` after a copy, unchanged otherwise.
pub open spec fn record_after_step(fetched: Map<Seq<char>, String>, e: SyncEvent) -> Map<
    Seq<char>,
    String,
> {
    match planned(e.name, e.dep, fetched, e.dest_exists) {
        StepKind::Download => after_download(fetched, e.name, e.current, e.dest_exists_after),
        StepKind::CopyLocal => fetched.insert(e.name, e.current),
        _ => fetched,
    }
}

/// The record after a whole run over `events`, in order.
pub open spec fn record_after_run(fetched: Map<Seq<char>, String>, events: Seq<SyncEvent>) -> Map<
    Seq<char>,
    String,
>
    decreases events.len(),
{
    if events.len() == 0 {
        fetched
    } else {
        record_after_step(record_after_run(fetched, events.drop_last()), events.last())
    }
}

/// Whether the step for `e`, taken with record `fetched`, downloads or
/// copies.
pub open spec fn fetches(fetched: Map<Seq<char>, String>, e: SyncEvent) -> bool {
    planned(e.name, e.dep, fetched, e.dest_exists) == StepKind::Download || planned(
        e.name,
        e.dep,
        fetched,
        e.dest_exists,
    ) == StepKind::CopyLocal
}

/// The names for which a run over `events` downloads or copies.
pub open spec fn fetched_names(fetched: Map<Seq<char>, String>, events: Seq<SyncEvent>) -> Set<
    Seq<char>,
>
    decreases events.len(),
{
    if events.len() == 0 {
        Set::empty()
    } else {
        let prev = fetched_names(fetched, events.drop_last());
        if fetches(record_after_run(fetched, events.drop_last()), events.last()) {
            prev.insert(events.last().name)
        } else {
            prev
        }
    }
}

/// A sync run keeps every entry of the record: entries are added or
/// changed only for the names that the run downloads or copies; all others,
/// names no longer in the manifest among them, keep their hash.
pub proof fn law_run_keeps_record(fetched: Map<Seq<char>, String>, events: Seq<SyncEvent>)
    ensures
        forall|k: Seq<char>| #[trigger]
            fetched.contains_key(k) ==> record_after_run(fetched, events).contains_key(k),
        forall|k: Seq<char>| #![trigger record_after_run(fetched, events).contains_key(k)]
            !fetched_names(fetched, events).contains(k) ==> (record_after_run(
                fetched,
                events,
            ).contains_key(k) <==> fetched.contains_key(k)),
        forall|k: Seq<char>| #![trigger record_after_run(fetched, events)[k]]
            !fetched_names(fetched, events).contains(k) && fetched.contains_key(k)
                ==> record_after_run(fetched, events)[k] == fetched[k],
    decreases events.len(),
{
    if events.len() > 0 {
        law_run_keeps_record(fetched, events.drop_last());
    }
}

/// A zip or local dependency (one that a run downloads or copies).
pub open spec fn is_fetched_kind(dep: Dependency) -> bool {
    (dep.url is Some && !dep.git) || (dep.url is None && dep.local is Some)
}

/// After a run, the record lists every archive dependency the run met.
proof fn lemma_run_lists_archives(fetched: Map<Seq<char>, String>, events: Seq<SyncEvent>, i: int)
    requires
        0 <= i < events.len(),
        events[i].dep.url is Some,
        !events[i].dep.git,
    ensures
        record_after_run(fetched, events).contains_key(events[i].name),
    decreases events.len(),
{
    let d = events.drop_last();
    if i < events.len() - 1 {
        assert(d[i] == events[i]);
        lemma_run_lists_archives(fetched, d, i);
        law_run_keeps_record(record_after_run(fetched, d), seq![events.last()]);
        assert(seq![events.last()].drop_last() =~= Seq::<SyncEvent>::empty());
    }
}

/// A second run over dependencies that the first run met, in any order,
/// with their directories in place, downloads and copies nothing and leaves
/// the record as the first run left it. (Git dependencies are cloned, or
/// checked out, again.)
pub proof fn law_second_run_settles(
    fetched: Map<Seq<char>, String>,
    first: Seq<SyncEvent>,
    second: Seq<SyncEvent>,
)
    requires
        forall|i: int|
            #![trigger second[i]]
            0 <= i < second.len() ==> exists|j: int|
                0 <= j < first.len() && second[i].name == first[j].name && second[i].dep
                    == first[j].dep,
        forall|i: int|
            0 <= i < second.len() && is_fetched_kind(#[trigger] second[i].dep)
                ==> second[i].dest_exists && second[i].dest_exists_after,
    ensures
        fetched_names(record_after_run(fetched, first), second) == Set::<Seq<char>>::empty(),
        record_after_run(record_after_run(fetched, first), second) == record_after_run(
            fetched,
            first,
        ),
{
    lemma_second_run(record_after_run(fetched, first), fetched, first, second, second.len() as int);
    assert(second.take(second.len() as int) =~= second);
}

proof fn lemma_second_run(
    r1: Map<Seq<char>, String>,
    fetched: Map<Seq<char>, String>,
    first: Seq<SyncEvent>,
    second: Seq<SyncEvent>,
    n: int,
)
    requires
        r1 == record_after_run(fetched, first),
        0 <= n <= second.len(),
        forall|i: int|
            #![trigger second[i]]
            0 <= i < second.len() ==> exists|j: int|
                0 <= j < first.len() && second[i].name == first[j].name && second[i].dep
                    == first[j].dep,
        forall|i: int|
            0 <= i < second.len() && is_fetched_kind(#[trigger] second[i].dep)
                ==> second[i].dest_exists && second[i].dest_exists_after,
    ensures
        fetched_names(r1, second.take(n)) == Set::<Seq<char>>::empty(),
        record_after_run(r1, second.take(n)) == r1,
    decreases n,
{
    if n == 0 {
        assert(second.take(0) =~= Seq::<SyncEvent>::empty());
    } else {
        let t = second.take(n);
        assert(t.drop_last() =~= second.take(n - 1));
        lemma_second_run(r1, fetched, first, second, n - 1);
        let e = second[n - 1];
        assert(t.last() == e);
        if e.dep.url is Some && !e.dep.git {
            let j = choose|j: int|
                0 <= j < first.len() && e.name == first[j].name && e.dep == first[j].dep;
            lemma_run_lists_archives(fetched, first, j);
        }
    }
}

/// A downloaded archive is thrown away only where its directory is in
/// place and the record holds the same hash; with the directory missing it is
/// unpacked, and the record then holds its hash.
pub proof fn law_discard_only_in_place(
    fetched: Map<Seq<char>, String>,
    name: Seq<char>,
    current: String,
    dest_exists: bool,
)
    ensures
        already_unpacked(fetched, name, current@, dest_exists) ==> dest_exists
            && fetched.contains_key(name) && fetched[name]@ == current@,
        !already_unpacked(fetched, name, current@, false),
        after_download(fetched, name, current, false).contains_key(name),
        after_download(fetched, name, current, false)[name] == current,
        !fetched.contains_key(name) ==> after_download(fetched, name, current, dest_exists)[name]
            == current,
{
}

/// Once an archive has been downloaded and its directory is in place, the
/// next sync fetches it no more.
pub proof fn law_download_settles(
    name: Seq<char>,
    dep: Dependency,
    fetched: Map<Seq<char>, String>,
    current: String,
    dest_exists: bool,
)
    requires
        dep.url is Some,
        !dep.git,
    ensures
        planned(name, dep, after_download(fetched, name, current, dest_exists), true)
            == StepKind::Skip,
{
}

/// A local file that is in place is not copied again.
pub proof fn law_local_copied_once(name: Seq<char>, dep: Dependency, fetched: Map<Seq<char>, String>)
    requires
        dep.url is None,
        dep.local is Some,
    ensures
        planned(name, dep, fetched, true) == StepKind::Skip,
        planned(name, dep, fetched, false) == StepKind::CopyLocal,
{
}

} // verus!
