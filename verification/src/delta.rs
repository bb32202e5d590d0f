//! Paged listings of what changed in the namespace's metadata.

use vstd::prelude::*;

use crate::error::FsError;
use crate::manager_model::ManagerView;
use crate::master_filesystem::MasterFilesystem;
use crate::snapshot::{child_snapshot_path, CvMetadataSnapshotEntry, FoundInode, InodeNode};
use crate::text::{same_text, text_before};

verus! {

/// A path that changed, or was removed.
pub struct CvMetadataDeltaEntry {
    pub path: String,
    /// What stands at the path now.
    pub entry: Option<CvMetadataSnapshotEntry>,
}

/// One page of changes.
pub struct CvMetadataDeltaPage {
    pub entries: Vec<CvMetadataDeltaEntry>,
    pub next_page_token: Option<String>,
    pub from_epoch: u64,
    pub to_epoch: u64,
    /// The changes are not on record: a whole listing is needed.
    pub full_snapshot_required: bool,
}

impl CvMetadataDeltaPage {
    /// A page without changes.
    pub open spec fn is_blank(self, from_epoch: u64, to_epoch: u64, full: bool) -> bool {
        self.entries@.len() == 0 && self.next_page_token is None && self.from_epoch == from_epoch
            && self.to_epoch == to_epoch && self.full_snapshot_required == full
    }

    fn blank(from_epoch: u64, to_epoch: u64, full_snapshot_required: bool) -> (r: Self)
        ensures
            r.is_blank(from_epoch, to_epoch, full_snapshot_required),
    {
        CvMetadataDeltaPage {
            entries: Vec::new(),
            next_page_token: None,
            from_epoch,
            to_epoch,
            full_snapshot_required,
        }
    }
}

/// A change as the journal has it.
pub struct CvMetadataChange {
    pub path: String,
    pub include_subtree: bool,
}

/// How a request for changes goes on.
pub enum DeltaStart {
    /// The answer is known already.
    Answer(CvMetadataDeltaPage),
    /// The journal has to be asked for the changes up to this epoch.
    AskJournal { to_epoch: u64 },
}

/// The epoch up to which changes are wanted.
pub open spec fn wanted_epoch(target: Option<u64>, current: u64) -> u64 {
    match target {
        Some(t) => t,
        None => current,
    }
}

/// Values by path, in dictionary order, each path once.
pub struct PathMap<T> {
    pub entries: Vec<(String, T)>,
}

/// The paths are in dictionary order and none occurs twice.
pub open spec fn sorted_paths(paths: Seq<Seq<char>>) -> bool {
    forall|i: int, j: int|
        #![trigger paths[i], paths[j]]
        0 <= i < j < paths.len() ==> crate::text::before(paths[i], paths[j])
}

pub open spec fn keys_of<T>(s: Seq<(String, T)>) -> Seq<Seq<char>> {
    s.map_values(|e: (String, T)| e.0@)
}

/// Where the path stands.
pub open spec fn place_of<T>(s: Seq<(String, T)>, p: Seq<char>) -> int {
    choose|i: int| 0 <= i < s.len() && (#[trigger] s[i]).0@ == p
}

impl<T> View for PathMap<T> {
    type V = Map<Seq<char>, T>;

    open spec fn view(&self) -> Map<Seq<char>, T> {
        Map::new(
            |p: Seq<char>|
                exists|i: int| 0 <= i < self.entries@.len() && (#[trigger] self.entries@[i]).0@ == p,
            |p: Seq<char>| self.entries@[place_of(self.entries@, p)].1,
        )
    }
}

impl<T> PathMap<T> {
    pub open spec fn wf(self) -> bool {
        sorted_paths(keys_of(self.entries@))
    }

    proof fn lookup(self, i: int)
        requires
            self.wf(),
            0 <= i < self.entries@.len(),
        ensures
            self@.contains_key(self.entries@[i].0@),
            self@[self.entries@[i].0@] == self.entries@[i].1,
    {
        let p = self.entries@[i].0@;
        let k = place_of(self.entries@, p);
        let paths = keys_of(self.entries@);
        assert(paths[i] == p && paths[k] == p);
        crate::text::before_is_total(p, p);
        if k < i {
            assert(crate::text::before(paths[k], paths[i]));
        }
        if i < k {
            assert(crate::text::before(paths[i], paths[k]));
        }
    }

    pub fn new() -> (r: Self)
        ensures
            r.wf(),
            r@ == Map::<Seq<char>, T>::empty(),
    {
        let r = PathMap { entries: Vec::new() };
        assert(r@ =~= Map::<Seq<char>, T>::empty());
        r
    }

    /// Where the path stands or belongs, and whether it is there.
    fn find(&self, path: &str) -> (r: (usize, bool))
        requires
            self.wf(),
        ensures
            r.0 <= self.entries@.len(),
            r.1 == self@.contains_key(path@),
            r.1 ==> r.0 < self.entries@.len() && self.entries@[r.0 as int].0@ == path@
                && self@[path@] == self.entries@[r.0 as int].1,
            forall|j: int|
                0 <= j < r.0 ==> crate::text::before(
                    #[trigger] keys_of(self.entries@)[j],
                    path@,
                ),
            !r.1 ==> forall|j: int|
                r.0 <= j < self.entries@.len() ==> crate::text::before(
                    path@,
                    #[trigger] keys_of(self.entries@)[j],
                ),
    {
        let ghost paths = keys_of(self.entries@);
        let mut i: usize = 0;
        while i < self.entries.len() && text_before(self.entries[i].0.as_str(), path)
            invariant
                i <= self.entries.len(),
                paths == keys_of(self.entries@),
                forall|j: int| 0 <= j < i ==> crate::text::before(#[trigger] paths[j], path@),
            decreases self.entries.len() - i,
        {
            assert(paths[i as int] == self.entries@[i as int].0@);
            i += 1;
        }
        let found: bool = i < self.entries.len() && same_text(self.entries[i].0.as_str(), path);
        proof {
            if found {
                self.lookup(i as int);
            } else {
                assert forall|j: int| i <= j < paths.len() implies crate::text::before(
                    path@,
                    #[trigger] paths[j],
                ) by {
                    assert(paths[i as int] == self.entries@[i as int].0@);
                    crate::text::before_is_total(path@, paths[i as int]);
                    if j > i {
                        assert(crate::text::before(paths[i as int], paths[j]));
                        crate::text::before_is_transitive(path@, paths[i as int], paths[j]);
                    }
                }
                if self@.contains_key(path@) {
                    let k = choose|k: int|
                        0 <= k < self.entries@.len() && (#[trigger] self.entries@[k]).0@ == path@;
                    assert(paths[k] == path@);
                    crate::text::before_is_total(path@, path@);
                }
            }
        }
        (i, found)
    }

    /// Sets the value at a path.
    pub fn insert(&mut self, path: String, value: T)
        requires
            old(self).wf(),
        ensures
            final(self).wf(),
            final(self)@ == old(self)@.insert(path@, value),
    {
        let ghost before = *self;
        let ghost paths = keys_of(self.entries@);
        let ghost p0 = path@;
        let (i, found) = self.find(path.as_str());
        if found {
            self.entries.remove(i);
            self.entries.insert(i, (path, value));
            proof {
                assert(paths[i as int] == p0);
                assert(keys_of(self.entries@) =~= paths);
                assert forall|p: Seq<char>| self@.contains_key(p) == before@.contains_key(p) by {
                    if before@.contains_key(p) {
                        let k = choose|k: int|
                            0 <= k < before.entries@.len() && (#[trigger] before.entries@[k]).0@ == p;
                        assert(paths[k] == p);
                        assert(keys_of(self.entries@)[k] == p);
                        assert(self.entries@[k].0@ == p);
                    }
                    if self@.contains_key(p) {
                        let k = choose|k: int|
                            0 <= k < self.entries@.len() && (#[trigger] self.entries@[k]).0@ == p;
                        assert(keys_of(self.entries@)[k] == p);
                        assert(before.entries@[k].0@ == paths[k]);
                    }
                }
                assert forall|p: Seq<char>| #[trigger] self@.contains_key(p) implies self@[p] == (if p
                    == p0 {
                    value
                } else {
                    before@[p]
                }) by {
                    let k = choose|k: int|
                        0 <= k < self.entries@.len() && (#[trigger] self.entries@[k]).0@ == p;
                    self.lookup(k);
                    before.lookup(k);
                    assert(paths[k] == p);
                    assert(keys_of(self.entries@)[k] == p);
                    if p == p0 && k != i {
                        crate::text::before_is_total(p, p);
                        if k < i {
                            assert(crate::text::before(paths[k], paths[i as int]));
                        } else {
                            assert(crate::text::before(paths[i as int], paths[k]));
                        }
                    }
                }
                assert(self@ =~= before@.insert(p0, value));
            }
        } else {
            self.entries.insert(i, (path, value));
            proof {
                let after = keys_of(self.entries@);
                assert forall|a: int, b: int|
                    #![trigger after[a], after[b]]
                    0 <= a < b < after.len() implies crate::text::before(after[a], after[b]) by {
                    let a0 = if a > i {
                        a - 1
                    } else {
                        a
                    };
                    let b0 = if b > i {
                        b - 1
                    } else {
                        b
                    };
                    if a != i {
                        assert(after[a] == paths[a0]);
                    } else {
                        assert(after[a] == p0);
                    }
                    if b != i {
                        assert(after[b] == paths[b0]);
                    } else {
                        assert(after[b] == p0);
                    }
                }
                assert(self.wf());
                assert forall|p: Seq<char>| self@.contains_key(p) == (before@.contains_key(p) || p
                    == p0) by {
                    assert(self.entries@[i as int].0@ == p0);
                    if before@.contains_key(p) {
                        let k = choose|k: int|
                            0 <= k < before.entries@.len() && (#[trigger] before.entries@[k]).0@ == p;
                        let k1 = if k >= i {
                            k + 1
                        } else {
                            k
                        };
                        assert(self.entries@[k1].0@ == p);
                    }
                    if self@.contains_key(p) && p != p0 {
                        let k = choose|k: int|
                            0 <= k < self.entries@.len() && (#[trigger] self.entries@[k]).0@ == p;
                        let k0 = if k > i {
                            k - 1
                        } else {
                            k
                        };
                        assert(before.entries@[k0].0@ == p);
                    }
                }
                assert forall|p: Seq<char>| #[trigger] self@.contains_key(p) implies self@[p] == (if p
                    == p0 {
                    value
                } else {
                    before@[p]
                }) by {
                    let k = choose|k: int|
                        0 <= k < self.entries@.len() && (#[trigger] self.entries@[k]).0@ == p;
                    self.lookup(k);
                    self.lookup(i as int);
                    if p != p0 {
                        let k0 = if k > i {
                            k - 1
                        } else {
                            k
                        };
                        assert(before.entries@[k0] == self.entries@[k]);
                        before.lookup(k0);
                    }
                }
                assert(self@ =~= before@.insert(p0, value));
            }
        }
    }
}

impl PathMap<bool> {
    /// Adds a path, or sets the flag of a path that is there already.
    pub fn merge(&mut self, path: String, flag: bool)
        requires
            old(self).wf(),
        ensures
            final(self).wf(),
            final(self)@ == old(self)@.insert(
                path@,
                flag || (old(self)@.contains_key(path@) && old(self)@[path@]),
            ),
    {
        let (i, found) = self.find(path.as_str());
        let was: bool = found && self.entries[i].1;
        self.insert(path, was || flag);
    }
}

/// The changes by path: a path stands for its subtree as soon as one change
/// says so.
pub open spec fn merged_changes(changes: Seq<CvMetadataChange>) -> Map<Seq<char>, bool>
    decreases changes.len(),
{
    if changes.len() == 0 {
        Map::empty()
    } else {
        let m = merged_changes(changes.drop_last());
        let c = changes.last();
        m.insert(c.path@, c.include_subtree || (m.contains_key(c.path@) && m[c.path@]))
    }
}

/// What was found at a path.
pub enum PathLookup {
    /// The path could not be resolved.
    Unresolved,
    /// Nothing stands at the path.
    Missing,
    /// What stands at the path could not be read.
    Unreadable(FsError),
    Found(FoundInode),
}

impl PathLookup {
    /// A directory was found.
    pub open spec fn is_dir(self) -> bool {
        self matches PathLookup::Found(f) && f.status.is_dir
    }

    /// It can be said what stands at the path, if anything does.
    pub open spec fn is_clear(self, m: ManagerView) -> bool {
        match self {
            PathLookup::Unreadable(_) => false,
            PathLookup::Found(f) => f.is_whole(m),
            PathLookup::Unresolved | PathLookup::Missing => true,
        }
    }

    /// `e` is what a delta shows at the path.
    pub open spec fn shows(
        self,
        m: ManagerView,
        path: Seq<char>,
        e: Option<CvMetadataSnapshotEntry>,
    ) -> bool {
        match self {
            PathLookup::Unreadable(_) => false,
            PathLookup::Found(f) => e matches Some(x) && crate::snapshot::is_entry_of(
                m,
                path,
                f,
                x,
            ),
            PathLookup::Unresolved | PathLookup::Missing => e is None,
        }
    }

    /// The error tells why nothing can be said of the path.
    pub open spec fn fails(self, m: ManagerView, path: Seq<char>, e: FsError) -> bool {
        match self {
            PathLookup::Unreadable(x) => e == x,
            PathLookup::Found(f) => crate::snapshot::is_entry_error(m, path, f, e),
            PathLookup::Unresolved | PathLookup::Missing => false,
        }
    }
}

/// What was found at a path, and at the paths below it.
pub struct DeltaNode {
    pub name: String,
    pub lookup: PathLookup,
    /// The children, in listing order.
    pub children: Vec<DeltaNode>,
}

/// The paths of a subtree with what was found there, in the order in which
/// they are visited: parents before their children, and below directories
/// only.
pub open spec fn subtree_visits(node: DeltaNode, path: Seq<char>) -> Seq<(Seq<char>, PathLookup)>
    decreases node, node.children@.len() + 2,
{
    if node.lookup.is_dir() {
        seq![(path, node.lookup)] + children_visits(node, path, node.children@.len())
    } else {
        seq![(path, node.lookup)]
    }
}

/// The visits below the first `n` children.
pub open spec fn children_visits(node: DeltaNode, path: Seq<char>, n: nat) -> Seq<
    (Seq<char>, PathLookup),
>
    decreases node, n + 1,
{
    if n == 0 || n > node.children@.len() {
        Seq::empty()
    } else {
        let child = node.children@[n - 1];
        children_visits(node, path, (n - 1) as nat) + subtree_visits(
            child,
            crate::snapshot::child_path(path, child.name@),
        )
    }
}

/// The visits of all changed paths, each with its subtree where the change
/// covers it.
pub open spec fn delta_visits(changed: Seq<(String, bool)>, nodes: Seq<DeltaNode>) -> Seq<
    (Seq<char>, PathLookup),
>
    decreases changed.len(),
{
    if changed.len() == 0 {
        Seq::empty()
    } else {
        let (path, include_subtree) = changed.last();
        let node = nodes[changed.len() - 1];
        delta_visits(changed.drop_last(), nodes) + if include_subtree {
            subtree_visits(node, path@)
        } else {
            seq![(path@, node.lookup)]
        }
    }
}

/// What was found at the path when it was last visited.
pub open spec fn last_lookup(visits: Seq<(Seq<char>, PathLookup)>, path: Seq<char>) -> Option<
    PathLookup,
>
    decreases visits.len(),
{
    if visits.len() == 0 {
        None
    } else if visits.last().0 == path {
        Some(visits.last().1)
    } else {
        last_lookup(visits.drop_last(), path)
    }
}

/// Something can be said of every visit.
pub open spec fn all_clear(m: ManagerView, visits: Seq<(Seq<char>, PathLookup)>) -> bool {
    forall|i: int| 0 <= i < visits.len() ==> (#[trigger] visits[i]).1.is_clear(m)
}

/// The visits put what they show over what was there.
pub open spec fn is_overlaid(
    m: ManagerView,
    old_entries: Map<Seq<char>, Option<CvMetadataSnapshotEntry>>,
    visits: Seq<(Seq<char>, PathLookup)>,
    new_entries: Map<Seq<char>, Option<CvMetadataSnapshotEntry>>,
) -> bool {
    forall|p: Seq<char>|
        #![trigger new_entries.contains_key(p)]
        #![trigger last_lookup(visits, p)]
        match last_lookup(visits, p) {
            Some(l) => new_entries.contains_key(p) && l.shows(m, p, new_entries[p]),
            None => new_entries.contains_key(p) == old_entries.contains_key(p) && (
            old_entries.contains_key(p) ==> new_entries[p] == old_entries[p]),
        }
}

/// The error is that of the first visit of which nothing can be said.
pub open spec fn fails_first(
    m: ManagerView,
    visits: Seq<(Seq<char>, PathLookup)>,
    k: int,
    e: FsError,
) -> bool {
    &&& 0 <= k < visits.len()
    &&& all_clear(m, visits.take(k))
    &&& !visits[k].1.is_clear(m)
    &&& visits[k].1.fails(m, visits[k].0, e)
}

/// The visits are collected in order, up to the first of which nothing can be
/// said.
pub open spec fn are_collected(
    m: ManagerView,
    old_entries: Map<Seq<char>, Option<CvMetadataSnapshotEntry>>,
    visits: Seq<(Seq<char>, PathLookup)>,
    new_entries: Map<Seq<char>, Option<CvMetadataSnapshotEntry>>,
    r: Result<(), FsError>,
) -> bool {
    match r {
        Ok(_) => all_clear(m, visits) && is_overlaid(m, old_entries, visits, new_entries),
        Err(e) => exists|k: int|
            #![trigger visits[k]]
            fails_first(m, visits, k, e) && is_overlaid(
                m,
                old_entries,
                visits.take(k),
                new_entries,
            ),
    }
}

proof fn last_lookup_of_sum(
    a: Seq<(Seq<char>, PathLookup)>,
    b: Seq<(Seq<char>, PathLookup)>,
    path: Seq<char>,
)
    ensures
        last_lookup(a + b, path) == (if last_lookup(b, path) is Some {
            last_lookup(b, path)
        } else {
            last_lookup(a, path)
        }),
    decreases b.len(),
{
    if b.len() == 0 {
        assert(a + b =~= a);
    } else {
        last_lookup_of_sum(a, b.drop_last(), path);
        assert((a + b).drop_last() =~= a + b.drop_last());
        assert((a + b).last() == b.last());
    }
}

/// Visits that are collected after others continue them.
proof fn collecting_goes_on(
    m: ManagerView,
    m0: Map<Seq<char>, Option<CvMetadataSnapshotEntry>>,
    a: Seq<(Seq<char>, PathLookup)>,
    m1: Map<Seq<char>, Option<CvMetadataSnapshotEntry>>,
    b: Seq<(Seq<char>, PathLookup)>,
    m2: Map<Seq<char>, Option<CvMetadataSnapshotEntry>>,
    r: Result<(), FsError>,
)
    requires
        are_collected(m, m0, a, m1, Ok::<(), FsError>(())),
        are_collected(m, m1, b, m2, r),
    ensures
        are_collected(m, m0, a + b, m2, r),
{
    let whole = a + b;
    match r {
        Ok(_) => {
            assert forall|i: int| 0 <= i < whole.len() implies (#[trigger] whole[i]).1.is_clear(
                m,
            ) by {
                if i < a.len() {
                    assert(whole[i] == a[i]);
                } else {
                    assert(whole[i] == b[i - a.len()]);
                }
            }
            overlays_add_up(m, m0, a, m1, b, m2);
        },
        Err(e) => {
            let k = choose|k: int|
                #![trigger b[k]]
                fails_first(m, b, k, e) && is_overlaid(m, m1, b.take(k), m2);
            let n = a.len() + k;
            assert(whole[n] == b[k]);
            let front = whole.take(n);
            assert(front =~= a + b.take(k));
            assert forall|i: int| 0 <= i < front.len() implies (#[trigger] front[i]).1.is_clear(
                m,
            ) by {
                if i < a.len() {
                    assert(front[i] == a[i]);
                } else {
                    assert(front[i] == b.take(k)[i - a.len()]);
                }
            }
            overlays_add_up(m, m0, a, m1, b.take(k), m2);
        },
    }
}

proof fn overlays_add_up(
    m: ManagerView,
    m0: Map<Seq<char>, Option<CvMetadataSnapshotEntry>>,
    a: Seq<(Seq<char>, PathLookup)>,
    m1: Map<Seq<char>, Option<CvMetadataSnapshotEntry>>,
    b: Seq<(Seq<char>, PathLookup)>,
    m2: Map<Seq<char>, Option<CvMetadataSnapshotEntry>>,
)
    requires
        is_overlaid(m, m0, a, m1),
        is_overlaid(m, m1, b, m2),
    ensures
        is_overlaid(m, m0, a + b, m2),
{
    assert forall|p: Seq<char>|
        #![trigger m2.contains_key(p)]
        #![trigger last_lookup(a + b, p)]
        match last_lookup(a + b, p) {
            Some(l) => m2.contains_key(p) && l.shows(m, p, m2[p]),
            None => m2.contains_key(p) == m0.contains_key(p) && (m0.contains_key(p) ==> m2[p]
                == m0[p]),
        } by {
        last_lookup_of_sum(a, b, p);
        assert(m1.contains_key(p) == m1.contains_key(p));
        assert(m2.contains_key(p) == m2.contains_key(p));
    }
}

/// Once a visit has failed, what would have come after it does not matter.
proof fn failure_ends_collecting(
    m: ManagerView,
    m0: Map<Seq<char>, Option<CvMetadataSnapshotEntry>>,
    a: Seq<(Seq<char>, PathLookup)>,
    m1: Map<Seq<char>, Option<CvMetadataSnapshotEntry>>,
    b: Seq<(Seq<char>, PathLookup)>,
    e: FsError,
)
    requires
        are_collected(m, m0, a, m1, Err::<(), FsError>(e)),
    ensures
        are_collected(m, m0, a + b, m1, Err::<(), FsError>(e)),
{
    let k = choose|k: int|
        #![trigger a[k]]
        fails_first(m, a, k, e) && is_overlaid(m, m0, a.take(k), m1);
    assert((a + b)[k] == a[k]);
    assert((a + b).take(k) =~= a.take(k));
}

/// Nothing is collected without a visit.
proof fn nothing_is_collected(
    m: ManagerView,
    m0: Map<Seq<char>, Option<CvMetadataSnapshotEntry>>,
)
    ensures
        are_collected(m, m0, Seq::empty(), m0, Ok::<(), FsError>(())),
{
}

/// The nodes hold what was found of the tree: each directory as a directory,
/// each file as a file, with the same names.
pub open spec fn mirrors(node: DeltaNode, tree: InodeNode) -> bool
    decreases node,
{
    &&& node.lookup is Found
    &&& node.lookup.is_dir() == tree.is_dir
    &&& node.children@.len() == tree.children@.len()
    &&& forall|i: int|
        #![trigger node.children@[i]]
        0 <= i < node.children@.len() ==> node.children@[i].name@ == tree.children@[i].name@
            && mirrors(node.children@[i], tree.children@[i])
}

/// The paths of the visits.
pub open spec fn visit_paths(visits: Seq<(Seq<char>, PathLookup)>) -> Seq<Seq<char>> {
    visits.map_values(|v: (Seq<char>, PathLookup)| v.0)
}

/// A changed subtree is shown as it is listed.
pub proof fn changed_subtree_is_shown_whole(node: DeltaNode, tree: InodeNode, path: Seq<char>)
    requires
        mirrors(node, tree),
    ensures
        visit_paths(subtree_visits(node, path)) == crate::snapshot::listing(tree, path),
    decreases node, node.children@.len() + 2,
{
    if tree.is_dir {
        let n = node.children@.len();
        changed_children_are_shown_whole(node, tree, path, n);
        assert(visit_paths(subtree_visits(node, path)) =~= seq![path] + visit_paths(
            children_visits(node, path, n),
        ));
    } else {
        assert(visit_paths(subtree_visits(node, path)) =~= seq![path]);
    }
}

proof fn changed_children_are_shown_whole(
    node: DeltaNode,
    tree: InodeNode,
    path: Seq<char>,
    n: nat,
)
    requires
        mirrors(node, tree),
        n <= node.children@.len(),
    ensures
        visit_paths(children_visits(node, path, n)) == crate::snapshot::children_listing(
            tree,
            path,
            n,
        ),
    decreases node, n + 1,
{
    if n > 0 {
        let child = node.children@[n - 1];
        let below = crate::snapshot::child_path(path, child.name@);
        changed_children_are_shown_whole(node, tree, path, (n - 1) as nat);
        changed_subtree_is_shown_whole(child, tree.children@[n - 1], below);
        assert(visit_paths(children_visits(node, path, n)) =~= visit_paths(
            children_visits(node, path, (n - 1) as nat),
        ) + visit_paths(subtree_visits(child, below)));
    } else {
        assert(visit_paths(children_visits(node, path, 0)) =~= crate::snapshot::children_listing(
            tree,
            path,
            0,
        ));
    }
}

/// A path has been visited exactly where something was found there last.
pub proof fn visited_paths_have_a_lookup(
    visits: Seq<(Seq<char>, PathLookup)>,
    path: Seq<char>,
)
    ensures
        last_lookup(visits, path) is Some <==> visit_paths(visits).contains(path),
    decreases visits.len(),
{
    let paths = visit_paths(visits);
    if visits.len() > 0 {
        let n = (visits.len() - 1) as int;
        visited_paths_have_a_lookup(visits.drop_last(), path);
        assert(visit_paths(visits.drop_last()) =~= paths.take(n));
        crate::ids::take_step(paths, n);
        assert(paths.take(n + 1) =~= paths);
        assert(paths[n] == visits.last().0);
    }
}

/// The paths of the entries of a page.
pub open spec fn entry_paths(s: Seq<CvMetadataDeltaEntry>) -> Seq<Seq<char>> {
    s.map_values(|e: CvMetadataDeltaEntry| e.path@)
}

impl MasterFilesystem {
    /// Begins a request for changes.
    pub fn cv_metadata_delta_start(
        from_epoch: u64,
        target_epoch: Option<u64>,
        current_epoch: u64,
        page_size: usize,
    ) -> (r: Result<DeltaStart, FsError>)
        ensures
            ({
                let to = wanted_epoch(target_epoch, current_epoch);
                match r {
                    Ok(DeltaStart::Answer(page)) => page_size > 0 && from_epoch <= to
                        <= current_epoch && (to < current_epoch && page.is_blank(
                        from_epoch,
                        to,
                        true,
                    ) || to == current_epoch && from_epoch == to && page.is_blank(
                        from_epoch,
                        to,
                        false,
                    )),
                    Ok(DeltaStart::AskJournal { to_epoch }) => page_size > 0 && to_epoch == to
                        && from_epoch < to && to == current_epoch,
                    Err(FsError::DeltaPageEmpty) => page_size == 0,
                    Err(FsError::TargetEpochTooNew { target, current }) => page_size > 0 && to
                        > current_epoch && target == to && current == current_epoch,
                    Err(FsError::FromEpochTooNew { from, target }) => page_size > 0 && to
                        <= current_epoch && from_epoch > to && from == from_epoch && target == to,
                    Err(_) => false,
                }
            }),
    {
        if page_size == 0 {
            return Err(FsError::DeltaPageEmpty);
        }
        let to_epoch: u64 = match target_epoch {
            Some(target) => target,
            None => current_epoch,
        };
        if to_epoch > current_epoch {
            return Err(
                FsError::TargetEpochTooNew { target: to_epoch, current: current_epoch },
            );
        }
        if from_epoch > to_epoch {
            return Err(FsError::FromEpochTooNew { from: from_epoch, target: to_epoch });
        }
        // The metadata of a state that has passed cannot be rebuilt.
        if target_epoch.is_some() && to_epoch < current_epoch {
            return Ok(DeltaStart::Answer(CvMetadataDeltaPage::blank(from_epoch, to_epoch, true)));
        }
        if from_epoch == to_epoch {
            return Ok(DeltaStart::Answer(CvMetadataDeltaPage::blank(from_epoch, to_epoch, false)));
        }
        Ok(DeltaStart::AskJournal { to_epoch })
    }

    /// The answer where the journal does not reach back far enough.
    pub fn cv_metadata_delta_unavailable(from_epoch: u64, to_epoch: u64) -> (r: CvMetadataDeltaPage)
        ensures
            r.is_blank(from_epoch, to_epoch, true),
    {
        CvMetadataDeltaPage::blank(from_epoch, to_epoch, true)
    }

    /// The changed paths, in dictionary order.
    pub fn cv_metadata_changed_paths(changes: Vec<CvMetadataChange>) -> (r: PathMap<bool>)
        ensures
            r.wf(),
            r@ == merged_changes(changes@),
    {
        let mut r: PathMap<bool> = PathMap::new();
        let mut i: usize = 0;
        while i < changes.len()
            invariant
                i <= changes.len(),
                r.wf(),
                r@ == merged_changes(changes@.take(i as int)),
            decreases changes.len() - i,
        {
            proof {
                crate::ids::take_step(changes@, i as int);
            }
            r.merge(changes[i].path.clone(), changes[i].include_subtree);
            i += 1;
        }
        assert(changes@.take(changes@.len() as int) =~= changes@);
        r
    }

    /// What a delta shows at a path. A path that cannot be resolved shows that
    /// nothing stands there.
    pub fn cv_metadata_entry_for_path(&self, path: &str, lookup: PathLookup) -> (r: Result<
        Option<CvMetadataSnapshotEntry>,
        FsError,
    >)
        ensures
            match r {
                Ok(e) => lookup.is_clear(self@.manager) && lookup.shows(self@.manager, path@, e),
                Err(e) => !lookup.is_clear(self@.manager) && lookup.fails(
                    self@.manager,
                    path@,
                    e,
                ),
            },
    {
        match lookup {
            PathLookup::Unresolved => Ok(None),
            PathLookup::Missing => Ok(None),
            PathLookup::Unreadable(e) => Err(e),
            PathLookup::Found(found) => {
                proof {
                    crate::snapshot::only_whole_inodes_have_entries(self@.manager, path@, found);
                }
                match self.found_entry(path, found) {
                    Ok(entry) => Ok(Some(entry)),
                    Err(e) => Err(e),
                }
            },
        }
    }

    /// Collects what is to be shown of a subtree, parents before their
    /// children. A path at which nothing stands shows that it is gone.
    pub fn collect_cv_metadata_delta_subtree(
        &self,
        path: &str,
        node: DeltaNode,
        entries: &mut PathMap<Option<CvMetadataSnapshotEntry>>,
    ) -> (r: Result<(), FsError>)
        requires
            old(entries).wf(),
        ensures
            final(entries).wf(),
            are_collected(
                self@.manager,
                old(entries)@,
                subtree_visits(node, path@),
                final(entries)@,
                r,
            ),
        decreases node,
    {
        let ghost m = self@.manager;
        let ghost whole = node;
        let ghost before = entries@;
        let ghost first = seq![(path@, node.lookup)];
        let is_dir: bool = match self.collect_path(path, node.lookup, entries) {
            Ok(is_dir) => is_dir,
            Err(e) => {
                proof {
                    let rest = if whole.lookup.is_dir() {
                        children_visits(whole, path@, whole.children@.len())
                    } else {
                        Seq::empty()
                    };
                    failure_ends_collecting(m, before, first, entries@, rest, e);
                    assert(first + rest =~= subtree_visits(whole, path@));
                }
                return Err(e);
            },
        };
        if !is_dir {
            return Ok(());
        }
        let ghost given = node.children@;
        let ghost count = given.len();
        let ghost mut seen: nat = 0;
        assert(first + children_visits(whole, path@, 0) =~= first);
        for child in it: node.children
            invariant
                it.seq() == given,
                seen == it.index(),
                before == old(entries)@,
                given == whole.children@,
                count == given.len(),
                m == self@.manager,
                whole.lookup.is_dir(),
                whole == node,
                first == seq![(path@, whole.lookup)],
                entries.wf(),
                are_collected(
                    m,
                    before,
                    first + children_visits(whole, path@, seen),
                    entries@,
                    Ok::<(), FsError>(()),
                ),
        {
            assert(child == whole.children@[seen as int]);
            assert(decreases_to!(whole => whole.children@[seen as int]));
            let ghost child0 = child;
            let ghost now = entries@;
            let below: String = child_snapshot_path(path, child.name.as_str());
            let r: Result<(), FsError> = self.collect_cv_metadata_delta_subtree(
                below.as_str(),
                child,
                entries,
            );
            proof {
                let a = children_visits(whole, path@, seen);
                let b = subtree_visits(child0, below@);
                collecting_goes_on(m, before, first + a, now, b, entries@, r);
                assert((first + a) + b =~= first + children_visits(whole, path@, seen + 1));
            }
            if let Err(e) = r {
                proof {
                    let so_far = children_visits(whole, path@, seen + 1);
                    let all = children_visits(whole, path@, count);
                    children_visits_grow(whole, path@, seen + 1, count);
                    let rest = all.skip(so_far.len() as int);
                    assert(so_far + rest =~= all);
                    failure_ends_collecting(m, before, first + so_far, entries@, rest, e);
                    assert((first + so_far) + rest =~= subtree_visits(whole, path@));
                }
                return Err(e);
            }
            proof {
                seen = seen + 1;
            }
        }
        Ok(())
    }

    /// Collects what is to be shown at one path, and tells whether a directory
    /// stands there.
    fn collect_path(
        &self,
        path: &str,
        lookup: PathLookup,
        entries: &mut PathMap<Option<CvMetadataSnapshotEntry>>,
    ) -> (r: Result<bool, FsError>)
        requires
            old(entries).wf(),
        ensures
            final(entries).wf(),
            are_collected(
                self@.manager,
                old(entries)@,
                seq![(path@, lookup)],
                final(entries)@,
                match r {
                    Ok(_) => Ok::<(), FsError>(()),
                    Err(e) => Err(e),
                },
            ),
            r matches Ok(is_dir) ==> is_dir == lookup.is_dir(),
    {
        let ghost m = self@.manager;
        let ghost before = entries@;
        let ghost visits = seq![(path@, lookup)];
        assert(visits.drop_last() =~= Seq::empty());
        match self.cv_metadata_entry_for_path(path, lookup) {
            Ok(entry) => {
                let is_dir: bool = match &entry {
                    Some(e) => e.status.is_dir,
                    None => false,
                };
                entries.insert(path.to_owned(), entry);
                proof {
                    reveal_with_fuel(last_lookup, 2);
                    assert(is_overlaid(m, before, visits, entries@));
                }
                Ok(is_dir)
            },
            Err(e) => {
                proof {
                    assert(visits[0] == (path@, lookup));
                    assert(visits.take(0) =~= Seq::empty());
                    nothing_is_collected(m, before);
                    assert(fails_first(m, visits, 0, e));
                }
                Err(e)
            },
        }
    }

    /// The entries of a delta, in dictionary order: each changed path, with
    /// its whole subtree where the change covers it. `nodes` holds what was
    /// found at each changed path. The changed paths are visited in order,
    /// each with what lies below it; the first visit of which nothing can be
    /// said decides the error.
    pub fn cv_metadata_delta_entries(&self, changed: &PathMap<bool>, nodes: Vec<DeltaNode>) -> (r:
        Result<Vec<CvMetadataDeltaEntry>, FsError>)
        requires
            changed.wf(),
            changed.entries@.len() == nodes@.len(),
        ensures
            ({
                let visits = delta_visits(changed.entries@, nodes@);
                match r {
                    Ok(s) => {
                        &&& all_clear(self@.manager, visits)
                        &&& sorted_paths(entry_paths(s@))
                        &&& forall|p: Seq<char>| #[trigger]
                            entry_paths(s@).contains(p) <==> visit_paths(visits).contains(p)
                        &&& forall|i: int|
                            0 <= i < s@.len() ==> (last_lookup(
                                visits,
                                (#[trigger] s@[i]).path@,
                            ) matches Some(l) && l.shows(
                                self@.manager,
                                s@[i].path@,
                                s@[i].entry,
                            ))
                    },
                    Err(e) => exists|k: int|
                        #![trigger visits[k]]
                        fails_first(self@.manager, visits, k, e),
                }
            }),
    {
        let ghost m = self@.manager;
        let ghost given = nodes@;
        let ghost all = delta_visits(changed.entries@, given);
        let ghost none = Map::<Seq<char>, Option<CvMetadataSnapshotEntry>>::empty();
        let mut found: PathMap<Option<CvMetadataSnapshotEntry>> = PathMap::new();
        let mut i: usize = 0;
        proof {
            nothing_is_collected(m, none);
            assert(changed.entries@.take(0) =~= Seq::empty());
        }
        for node in it: nodes
            invariant
                it.seq() == given,
                i == it.index(),
                m == self@.manager,
                changed.entries@.len() == given.len(),
                all == delta_visits(changed.entries@, given),
                found.wf(),
                are_collected(
                    m,
                    none,
                    delta_visits(changed.entries@.take(i as int), given),
                    found@,
                    Ok::<(), FsError>(()),
                ),
        {
            assert(node == given[i as int]);
            assert(i < changed.entries.len());
            let ghost so_far = delta_visits(changed.entries@.take(i as int), given);
            let ghost now = found@;
            let path: &str = changed.entries[i].0.as_str();
            let ghost next = if changed.entries@[i as int].1 {
                subtree_visits(node, path@)
            } else {
                seq![(path@, node.lookup)]
            };
            proof {
                crate::ids::take_step(changed.entries@, i as int);
                assert(changed.entries@.take(i + 1).last() == changed.entries@[i as int]);
                assert(delta_visits(changed.entries@.take(i + 1), given) == so_far + next);
            }
            let r: Result<(), FsError> = if changed.entries[i].1 {
                self.collect_cv_metadata_delta_subtree(path, node, &mut found)
            } else {
                match self.collect_path(path, node.lookup, &mut found) {
                    Ok(_) => Ok(()),
                    Err(e) => Err(e),
                }
            };
            proof {
                collecting_goes_on(m, none, so_far, now, next, found@, r);
            }
            if let Err(e) = r {
                proof {
                    let part = delta_visits(changed.entries@.take(i + 1), given);
                    delta_visits_grow(changed.entries@, given, i + 1);
                    let rest = all.skip(part.len() as int);
                    assert(part + rest =~= all);
                    failure_ends_collecting(m, none, part, found@, rest, e);
                }
                return Err(e);
            }
            i += 1;
        }
        assert(changed.entries@.take(given.len() as int) =~= changed.entries@);
        Ok(listed_entries(found, Ghost(m), Ghost(all)))
    }

    /// A page of the changes: those after the token, as many as it holds.
    pub fn cv_metadata_delta_page(
        entries: Vec<CvMetadataDeltaEntry>,
        page_token: Option<String>,
        page_size: usize,
        from_epoch: u64,
        to_epoch: u64,
    ) -> (r: CvMetadataDeltaPage)
        requires
            page_size > 0,
            sorted_paths(entry_paths(entries@)),
        ensures
            r.from_epoch == from_epoch,
            r.to_epoch == to_epoch,
            !r.full_snapshot_required,
            exists|k: int|
                #![trigger entries@.skip(k)]
                {
                    &&& 0 <= k <= entries@.len()
                    &&& forall|j: int|
                        0 <= j < entries@.len() ==> (k <= j <==> crate::snapshot::is_after(
                            (#[trigger] entries@[j]).path@,
                            crate::snapshot::given_token(page_token),
                        ))
                    &&& entries@.skip(k).len() <= page_size ==> r.entries@ == entries@.skip(k)
                        && r.next_page_token is None
                    &&& entries@.skip(k).len() > page_size ==> r.entries@ == entries@.skip(k).take(
                        page_size as int,
                    ) && (r.next_page_token matches Some(t) && t@ == entries@[k + page_size
                        - 1].path@)
                },
    {
        let ghost token = crate::snapshot::given_token(page_token);
        let ghost all = entries@;
        let ghost paths = entry_paths(all);
        let mut k: usize = 0;
        if let Some(t) = page_token {
            if !t.as_str().is_empty() {
                while k < entries.len() && !text_before(t.as_str(), entries[k].path.as_str())
                    invariant
                        k <= entries.len(),
                        entries@ == all,
                        token == Some(t@),
                        forall|j: int|
                            0 <= j < k ==> !crate::snapshot::is_after(
                                (#[trigger] all[j]).path@,
                                token,
                            ),
                    decreases entries.len() - k,
                {
                    k += 1;
                }
                proof {
                    assert forall|j: int| k <= j < all.len() implies crate::snapshot::is_after(
                        (#[trigger] all[j]).path@,
                        token,
                    ) by {
                        assert(paths[k as int] == all[k as int].path@);
                        assert(paths[j] == all[j].path@);
                        if j > k {
                            assert(crate::text::before(paths[k as int], paths[j]));
                            crate::text::before_is_transitive(t@, paths[k as int], paths[j]);
                        }
                    }
                }
            }
        }
        assert(forall|j: int|
            0 <= j < all.len() ==> (k <= j <==> crate::snapshot::is_after(
                (#[trigger] all[j]).path@,
                token,
            )));
        let mut entries = entries;
        let mut rest: Vec<CvMetadataDeltaEntry> = entries.split_off(k);
        assert(rest@ =~= all.skip(k as int));
        let mut next_page_token: Option<String> = None;
        if rest.len() > page_size {
            next_page_token = Some(rest[page_size - 1].path.clone());
            assert(rest@[page_size - 1] == all[k + page_size - 1]);
            rest.truncate(page_size);
            assert(rest@ =~= all.skip(k as int).take(page_size as int));
        }
        assert(all.skip(k as int).len() == all.len() - k);
        CvMetadataDeltaPage {
            entries: rest,
            next_page_token,
            from_epoch,
            to_epoch,
            full_snapshot_required: false,
        }
    }
}

/// The visits below the first children begin those below more of them.
proof fn children_visits_grow(node: DeltaNode, path: Seq<char>, n: nat, k: nat)
    requires
        n <= k <= node.children@.len(),
    ensures
        children_visits(node, path, n).len() <= children_visits(node, path, k).len(),
        children_visits(node, path, k).take(children_visits(node, path, n).len() as int)
            == children_visits(node, path, n),
    decreases k,
{
    let a = children_visits(node, path, n);
    let b = children_visits(node, path, k);
    if n == k {
        assert(b.take(a.len() as int) =~= a);
    } else {
        children_visits_grow(node, path, n, (k - 1) as nat);
        let c = children_visits(node, path, (k - 1) as nat);
        assert(b.take(a.len() as int) =~= c.take(a.len() as int));
    }
}

/// The visits of the first changed paths begin those of all.
proof fn delta_visits_grow(changed: Seq<(String, bool)>, nodes: Seq<DeltaNode>, n: int)
    requires
        0 <= n <= changed.len(),
    ensures
        delta_visits(changed.take(n), nodes).len() <= delta_visits(changed, nodes).len(),
        delta_visits(changed, nodes).take(delta_visits(changed.take(n), nodes).len() as int)
            == delta_visits(changed.take(n), nodes),
    decreases changed.len(),
{
    let a = delta_visits(changed.take(n), nodes);
    let b = delta_visits(changed, nodes);
    if n == changed.len() {
        assert(changed.take(n) =~= changed);
        assert(b.take(a.len() as int) =~= a);
    } else {
        let shorter = changed.drop_last();
        delta_visits_grow(shorter, nodes, n);
        assert(shorter.take(n) =~= changed.take(n));
        assert(b.take(a.len() as int) =~= delta_visits(shorter, nodes).take(a.len() as int));
    }
}

/// What was collected, as a list in dictionary order.
fn listed_entries(
    found: PathMap<Option<CvMetadataSnapshotEntry>>,
    Ghost(m): Ghost<ManagerView>,
    Ghost(visits): Ghost<Seq<(Seq<char>, PathLookup)>>,
) -> (r: Vec<CvMetadataDeltaEntry>)
    requires
        found.wf(),
        is_overlaid(m, Map::empty(), visits, found@),
    ensures
        sorted_paths(entry_paths(r@)),
        forall|p: Seq<char>| #[trigger]
            entry_paths(r@).contains(p) <==> visit_paths(visits).contains(p),
        forall|i: int|
            0 <= i < r@.len() ==> (last_lookup(visits, (#[trigger] r@[i]).path@) matches Some(l)
                && l.shows(m, r@[i].path@, r@[i].entry)),
{
    let ghost whole = found;
    let ghost given = found.entries@;
    let mut r: Vec<CvMetadataDeltaEntry> = Vec::new();
    for pair in it: found.entries
        invariant
            it.seq() == given,
            r@.len() == it.index(),
            forall|j: int|
                0 <= j < r@.len() ==> (#[trigger] r@[j]).path@ == given[j].0@ && r@[j].entry
                    == given[j].1,
    {
        assert(pair == given[r@.len() as int]);
        let (path, entry) = pair;
        r.push(CvMetadataDeltaEntry { path, entry });
    }
    proof {
        let paths = entry_paths(r@);
        assert(paths =~= keys_of(given));
        assert forall|i: int| 0 <= i < r@.len() implies (last_lookup(
            visits,
            (#[trigger] r@[i]).path@,
        ) matches Some(l) && l.shows(m, r@[i].path@, r@[i].entry)) by {
            whole.lookup(i);
            assert(whole@.contains_key(given[i].0@));
        }
        assert forall|p: Seq<char>| #[trigger] paths.contains(p) <==> visit_paths(visits).contains(
            p,
        ) by {
            visited_paths_have_a_lookup(visits, p);
            if paths.contains(p) {
                let i = choose|i: int| 0 <= i < paths.len() && paths[i] == p;
                assert(r@[i].path@ == p);
            }
            if last_lookup(visits, p) is Some {
                assert(whole@.contains_key(p));
                let i = choose|i: int| 0 <= i < given.len() && (#[trigger] given[i]).0@ == p;
                assert(paths[i] == p);
            }
        }
    }
    r
}

} // verus!
