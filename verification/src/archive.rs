//! The archive of a container as the library sees it: the ordered list of its
//! entries, each with its name and with what opening it gave, and the plan
//! by which an archive is written anew.

use crate::text::{index_of, lemma_index_of, lemma_index_of_bound};
use vstd::prelude::*;

verus! {

/// The kinds of failure that opening an entry can give.
#[derive(Debug, Clone, Copy, PartialEq, Eq, Structural)]
pub enum FaultKind {
    /// Reading the archive failed.
    Io,
    /// The entry is encrypted.
    PasswordProtected,
    /// Anything else that the archive format reports.
    Other,
}

/// Why an entry cannot be opened.
#[derive(Debug, Clone, PartialEq)]
pub struct EntryFault {
    pub kind: FaultKind,
    /// What the archive reader said.
    pub detail: String,
}

/// One entry of an archive.
#[derive(Debug, Clone, PartialEq)]
pub struct ArchiveEntry {
    pub name: String,
    /// `None` where the entry opens.
    pub fault: Option<EntryFault>,
}

impl ArchiveEntry {
    /// An entry that opens.
    pub fn new(name: String) -> (entry: ArchiveEntry)
        ensures
            entry.name == name,
            entry.fault is None,
    {
        ArchiveEntry { name, fault: None }
    }

    /// An entry that does not open.
    pub fn faulty(name: String, kind: FaultKind, detail: String) -> (entry: ArchiveEntry)
        ensures
            entry.name == name,
            entry.fault == Some(EntryFault { kind, detail }),
    {
        ArchiveEntry { name, fault: Some(EntryFault { kind, detail }) }
    }
}

/// The name of the entry that holds the manifest.
pub open spec fn manifest_name() -> Seq<char> {
    "metadata.json"@
}

/// The names of `entries`, in order.
pub open spec fn entry_names(entries: Seq<ArchiveEntry>) -> Seq<Seq<char>> {
    entries.map_values(|e: ArchiveEntry| e.name@)
}

/// The place of the first entry named `name`, if there is one.
pub open spec fn find_entry(entries: Seq<ArchiveEntry>, name: Seq<char>) -> Option<int> {
    let i = index_of(entry_names(entries), name);
    if i < entries.len() {
        Some(i as int)
    } else {
        None
    }
}

/// `find_entry` gives the first entry of that name, and nothing exactly
/// where no entry has it.
pub proof fn lemma_find_entry(entries: Seq<ArchiveEntry>, name: Seq<char>)
    ensures
        match find_entry(entries, name) {
            Some(i) => 0 <= i < entries.len() && entries[i].name@ == name && forall|j: int|
                0 <= j < i ==> entries[j].name@ != name,
            None => forall|j: int| 0 <= j < entries.len() ==> entries[j].name@ != name,
        },
{
    let names = entry_names(entries);
    lemma_index_of_bound(names, name);
    assert forall|j: int| 0 <= j < index_of(names, name) implies entries[j].name@ != name by {
        assert(names[j] == entries[j].name@);
    }
}

/// The place of the first entry named `name`, if there is one.
pub fn index_for_name(entries: &Vec<ArchiveEntry>, name: &str) -> (r: Option<usize>)
    ensures
        match r {
            Some(i) => find_entry(entries@, name@) == Some(i as int),
            None => find_entry(entries@, name@) is None,
        },
{
    let key = name.to_owned();
    let n: usize = entries.len();
    let mut i: usize = 0;
    while i < n
        invariant
            i <= n == entries.len(),
            key@ == name@,
            forall|j: int| 0 <= j < i ==> entries@[j].name@ != name@,
        decreases n - i,
    {
        if entries[i].name == key {
            proof {
                let names = entry_names(entries@);
                assert forall|j: int| 0 <= j < i implies names[j] != name@ by {
                    assert(names[j] == entries@[j].name@);
                }
                lemma_index_of(names, name@, i as int);
            }
            return Some(i);
        }
        i = i + 1;
    }
    proof {
        let names = entry_names(entries@);
        assert forall|j: int| 0 <= j < n implies names[j] != name@ by {
            assert(names[j] == entries@[j].name@);
        }
        lemma_index_of(names, name@, n as int);
    }
    None
}

/// The place of the first entry that does not open, if there is one.
pub open spec fn first_fault(entries: Seq<ArchiveEntry>) -> Option<int> {
    let i = index_of(entries.map_values(|e: ArchiveEntry| e.fault is Some), true);
    if i < entries.len() {
        Some(i as int)
    } else {
        None
    }
}

/// `first_fault` gives the first entry that does not open, and nothing
/// exactly where every entry opens.
pub proof fn lemma_first_fault(entries: Seq<ArchiveEntry>)
    ensures
        match first_fault(entries) {
            Some(i) => 0 <= i < entries.len() && entries[i].fault is Some && forall|j: int|
                0 <= j < i ==> entries[j].fault is None,
            None => forall|j: int| 0 <= j < entries.len() ==> entries[j].fault is None,
        },
{
    let flags = entries.map_values(|e: ArchiveEntry| e.fault is Some);
    lemma_index_of_bound(flags, true);
    assert forall|j: int| 0 <= j < index_of(flags, true) implies entries[j].fault is None by {
        assert(flags[j] == (entries[j].fault is Some));
    }
    if index_of(flags, true) < entries.len() {
        let i = index_of(flags, true) as int;
        assert(flags[i] == (entries[i].fault is Some));
    }
}

/// The place of the first entry that does not open, if there is one.
pub fn find_first_fault(entries: &Vec<ArchiveEntry>) -> (r: Option<usize>)
    ensures
        match r {
            Some(i) => first_fault(entries@) == Some(i as int),
            None => first_fault(entries@) is None,
        },
{
    let ghost flags = entries@.map_values(|e: ArchiveEntry| e.fault is Some);
    let n: usize = entries.len();
    let mut i: usize = 0;
    while i < n
        invariant
            i <= n == entries.len(),
            flags == entries@.map_values(|e: ArchiveEntry| e.fault is Some),
            forall|j: int| 0 <= j < i ==> flags[j] != true,
        decreases n - i,
    {
        if entries[i].fault.is_some() {
            proof {
                lemma_index_of(flags, true, i as int);
            }
            return Some(i);
        }
        i = i + 1;
    }
    proof {
        lemma_index_of(flags, true, n as int);
    }
    None
}

// ---------------------------------------------------------------------------
// Writing an archive anew
// ---------------------------------------------------------------------------

/// Where one entry of a new archive comes from.
#[derive(Debug, Clone, Copy, PartialEq, Eq, Structural)]
pub enum PlannedEntry {
    /// The manifest, written anew.
    Manifest,
    /// The entry at this place of the old archive, copied.
    Existing(usize),
    /// The file at this place of the list of files to add.
    Added(usize),
}

/// Whether an old entry of this name is copied: the manifest is not, for it
/// is written anew, nor is a name that is to be removed.
pub open spec fn is_kept(name: Seq<char>, remove: Seq<Seq<char>>) -> bool {
    name != manifest_name() && !remove.contains(name)
}

/// The copies of the first `n` old entries, in the old order.
pub open spec fn kept_entries(names: Seq<Seq<char>>, remove: Seq<Seq<char>>, n: int) -> Seq<
    PlannedEntry,
>
    decreases n,
{
    if n <= 0 {
        Seq::empty()
    } else {
        let before = kept_entries(names, remove, n - 1);
        if is_kept(names[n - 1], remove) {
            before.push(PlannedEntry::Existing((n - 1) as usize))
        } else {
            before
        }
    }
}

/// The files to add, in their order.
pub open spec fn added_entries(count: nat) -> Seq<PlannedEntry> {
    Seq::new(count, |k: int| PlannedEntry::Added(k as usize))
}

/// The new archive: the manifest first, then every old entry that is kept,
/// in the old order, then every file to add, in the order given.
pub open spec fn rebuild_plan(names: Seq<Seq<char>>, remove: Seq<Seq<char>>, added: nat) -> Seq<
    PlannedEntry,
> {
    seq![PlannedEntry::Manifest] + kept_entries(names, remove, names.len() as int) + added_entries(
        added,
    )
}

/// The name under which a planned entry is written.
pub open spec fn planned_name(
    entry: PlannedEntry,
    names: Seq<Seq<char>>,
    add_names: Seq<Seq<char>>,
) -> Seq<char> {
    match entry {
        PlannedEntry::Manifest => manifest_name(),
        PlannedEntry::Existing(i) => names[i as int],
        PlannedEntry::Added(k) => add_names[k as int],
    }
}

/// The names of a new archive, in order.
pub open spec fn planned_names(
    plan: Seq<PlannedEntry>,
    names: Seq<Seq<char>>,
    add_names: Seq<Seq<char>>,
) -> Seq<Seq<char>> {
    plan.map_values(|e: PlannedEntry| planned_name(e, names, add_names))
}

/// The copies are exactly the old entries that are kept, each once and in
/// the old order.
pub proof fn lemma_kept_entries(names: Seq<Seq<char>>, remove: Seq<Seq<char>>, n: int)
    requires
        0 <= n <= names.len() <= usize::MAX,
    ensures
        kept_entries(names, remove, n).len() <= n,
        forall|p: int|
            0 <= p < kept_entries(names, remove, n).len() ==> (#[trigger] kept_entries(
                names,
                remove,
                n,
            )[p] matches PlannedEntry::Existing(i) && i < n && is_kept(names[i as int], remove)),
        forall|i: int|
            0 <= i < n && is_kept(#[trigger] names[i], remove) ==> kept_entries(
                names,
                remove,
                n,
            ).contains(PlannedEntry::Existing(i as usize)),
        forall|p: int, q: int|
            0 <= p < q < kept_entries(names, remove, n).len() ==> (#[trigger] kept_entries(
                names,
                remove,
                n,
            )[p])->Existing_0 < (#[trigger] kept_entries(names, remove, n)[q])->Existing_0,
    decreases n,
{
    if n > 0 {
        lemma_kept_entries(names, remove, n - 1);
        let before = kept_entries(names, remove, n - 1);
        let now = kept_entries(names, remove, n);
        assert forall|i: int| 0 <= i < n && is_kept(#[trigger] names[i], remove) implies now.contains(
            PlannedEntry::Existing(i as usize),
        ) by {
            if i < n - 1 {
                let p = choose|p: int|
                    0 <= p < before.len() && before[p] == PlannedEntry::Existing(i as usize);
                assert(now[p] == PlannedEntry::Existing(i as usize));
            } else {
                assert(now[now.len() - 1] == PlannedEntry::Existing(i as usize));
            }
        }
    }
}

/// The plan by which an archive is written anew.
pub fn plan_rebuild(entries: &Vec<ArchiveEntry>, remove: &Vec<String>, added: usize) -> (plan: Vec<
    PlannedEntry,
>)
    ensures
        plan@ == rebuild_plan(
            entry_names(entries@),
            remove@.map_values(|s: String| s@),
            added as nat,
        ),
{
    let ghost names = entry_names(entries@);
    let ghost gone = remove@.map_values(|s: String| s@);
    let manifest = "metadata.json".to_owned();
    let mut plan: Vec<PlannedEntry> = Vec::new();
    plan.push(PlannedEntry::Manifest);
    let n: usize = entries.len();
    let mut i: usize = 0;
    assert(plan@ =~= seq![PlannedEntry::Manifest] + kept_entries(names, gone, 0));
    while i < n
        invariant
            i <= n == entries.len(),
            names == entry_names(entries@),
            gone == remove@.map_values(|s: String| s@),
            manifest@ == manifest_name(),
            plan@ == seq![PlannedEntry::Manifest] + kept_entries(names, gone, i as int),
        decreases n - i,
    {
        let mut listed: bool = false;
        let m: usize = remove.len();
        let mut j: usize = 0;
        while j < m
            invariant
                j <= m == remove.len(),
                i < entries.len(),
                gone == remove@.map_values(|s: String| s@),
                listed == (exists|k: int| 0 <= k < j && gone[k] == entries@[i as int].name@),
            decreases m - j,
        {
            if remove[j] == entries[i].name {
                assert(gone[j as int] == entries@[i as int].name@);
                listed = true;
            }
            j = j + 1;
        }
        assert(listed == gone.contains(entries@[i as int].name@));
        assert(names[i as int] == entries@[i as int].name@);
        if !(entries[i].name == manifest) && !listed {
            plan.push(PlannedEntry::Existing(i));
        }
        assert(plan@ =~= seq![PlannedEntry::Manifest] + kept_entries(names, gone, i + 1));
        i = i + 1;
    }
    let mut k: usize = 0;
    assert(plan@ =~= seq![PlannedEntry::Manifest] + kept_entries(names, gone, n as int)
        + added_entries(0));
    while k < added
        invariant
            k <= added,
            n == names.len(),
            plan@ == seq![PlannedEntry::Manifest] + kept_entries(names, gone, n as int)
                + added_entries(k as nat),
        decreases added - k,
    {
        plan.push(PlannedEntry::Added(k));
        assert(plan@ =~= seq![PlannedEntry::Manifest] + kept_entries(names, gone, n as int)
            + added_entries((k + 1) as nat));
        k = k + 1;
    }
    plan
}

} // verus!
