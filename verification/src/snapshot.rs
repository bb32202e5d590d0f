//! Paged listings of the namespace's metadata.

use vstd::prelude::*;

use crate::error::FsError;
use crate::manager_model::ManagerView;
use crate::master_filesystem::MasterFilesystem;
use crate::model::{BlockLocation, FileBlocks, FileStatus, InodeFile};
use crate::namespace::status_at;
use crate::text::{same_text, text_before, text_is_under};

verus! {

/// The path of the root directory.
pub open spec fn root_path() -> Seq<char> {
    seq!['/']
}

/// An inode of the in-memory tree, with its children in listing order.
pub struct InodeNode {
    pub id: i64,
    pub name: String,
    pub is_dir: bool,
    /// The node only refers to a file whose record has to be looked up.
    pub is_entry: bool,
    pub children: Vec<InodeNode>,
}

/// The path of a child.
pub open spec fn child_path(parent: Seq<char>, name: Seq<char>) -> Seq<char> {
    if parent == root_path() {
        parent + name
    } else {
        parent.push('/') + name
    }
}

pub fn child_snapshot_path(parent: &str, child_name: &str) -> (r: String)
    ensures
        r@ == child_path(parent@, child_name@),
{
    proof {
        reveal_strlit("/");
        assert("/"@ =~= root_path());
    }
    let mut r: String = parent.to_owned();
    if !same_text(parent, "/") {
        r.append("/");
        assert(r@ =~= parent@.push('/'));
    }
    r.append(child_name);
    r
}

/// The token names the subtree at `path` or something inside it.
pub open spec fn token_in_subtree(token: Seq<char>, path: Seq<char>) -> bool {
    token == path || (path != root_path() && crate::text::is_under(token, path))
}

pub fn snapshot_token_in_subtree(token: &str, subtree_path: &str) -> (r: bool)
    ensures
        r == token_in_subtree(token@, subtree_path@),
{
    proof {
        reveal_strlit("/");
        assert("/"@ =~= root_path());
    }
    same_text(token, subtree_path) || (!same_text(subtree_path, "/") && text_is_under(
        token,
        subtree_path,
    ))
}

/// The paths of a subtree, parents before their children.
pub open spec fn listing(node: InodeNode, path: Seq<char>) -> Seq<Seq<char>>
    decreases node, node.children@.len() + 2,
{
    if node.is_dir {
        seq![path] + children_listing(node, path, node.children@.len())
    } else {
        seq![path]
    }
}

/// The paths below the first `n` children.
pub open spec fn children_listing(node: InodeNode, path: Seq<char>, n: nat) -> Seq<Seq<char>>
    decreases node, n + 1,
{
    if n == 0 || n > node.children@.len() {
        Seq::empty()
    } else {
        let child = node.children@[n - 1];
        children_listing(node, path, (n - 1) as nat) + listing(
            child,
            child_path(path, child.name@),
        )
    }
}

/// An inode that a listing passes.
pub struct SnapshotVisit {
    pub path: String,
    pub inode_id: i64,
    pub is_dir: bool,
    pub is_entry: bool,
    /// Whether the inode is part of the page.
    pub emit: bool,
}

#[verifier::ext_equal]
pub struct VisitView {
    pub path: Seq<char>,
    pub inode_id: i64,
    pub is_dir: bool,
    pub is_entry: bool,
    pub emit: bool,
}

impl View for SnapshotVisit {
    type V = VisitView;

    open spec fn view(&self) -> VisitView {
        VisitView {
            path: self.path@,
            inode_id: self.inode_id,
            is_dir: self.is_dir,
            is_entry: self.is_entry,
            emit: self.emit,
        }
    }
}

/// The views of a list of visits.
pub open spec fn visits_of(s: Seq<SnapshotVisit>) -> Seq<VisitView> {
    s.map_values(|v: SnapshotVisit| v@)
}

/// The subtree lies before the token, and the token is not in it.
pub open spec fn is_passed(path: Seq<char>, token: Option<Seq<char>>) -> bool {
    token matches Some(t) && path != root_path() && crate::text::before(path, t)
        && !token_in_subtree(t, path)
}

/// The path comes after the token.
pub open spec fn is_after(path: Seq<char>, token: Option<Seq<char>>) -> bool {
    token matches Some(t) ==> crate::text::before(t, path)
}

pub open spec fn visit_of(node: InodeNode, path: Seq<char>, token: Option<Seq<char>>) -> VisitView {
    VisitView {
        path,
        inode_id: node.id,
        is_dir: node.is_dir,
        is_entry: node.is_entry,
        emit: is_after(path, token),
    }
}

/// All inodes that a listing after the token passes, without a limit.
pub open spec fn visits(node: InodeNode, path: Seq<char>, token: Option<Seq<char>>) -> Seq<
    VisitView,
>
    decreases node, node.children@.len() + 2,
{
    if is_passed(path, token) {
        Seq::empty()
    } else if node.is_dir {
        seq![visit_of(node, path, token)] + children_visits(
            node,
            path,
            token,
            node.children@.len(),
        )
    } else {
        seq![visit_of(node, path, token)]
    }
}

/// What a listing passes below the first `n` children.
pub open spec fn children_visits(
    node: InodeNode,
    path: Seq<char>,
    token: Option<Seq<char>>,
    n: nat,
) -> Seq<VisitView>
    decreases node, n + 1,
{
    if n == 0 || n > node.children@.len() {
        Seq::empty()
    } else {
        let child = node.children@[n - 1];
        children_visits(node, path, token, (n - 1) as nat) + visits(
            child,
            child_path(path, child.name@),
            token,
        )
    }
}

/// How many of the visited inodes are part of the page.
pub open spec fn emits(v: Seq<VisitView>) -> nat
    decreases v.len(),
{
    if v.len() == 0 {
        0
    } else {
        emits(v.drop_first()) + if v[0].emit {
            1nat
        } else {
            0nat
        }
    }
}

/// The visits up to the one that fills the page.
pub open spec fn cut(v: Seq<VisitView>, budget: nat) -> Seq<VisitView>
    decreases v.len(),
{
    if v.len() == 0 || budget == 0 {
        Seq::empty()
    } else {
        seq![v[0]] + cut(
            v.drop_first(),
            if v[0].emit {
                (budget - 1) as nat
            } else {
                budget
            },
        )
    }
}

/// A listing that is cut goes on where the first part left off.
pub proof fn cut_of_sum(a: Seq<VisitView>, b: Seq<VisitView>, budget: nat)
    ensures
        cut(a + b, budget) == cut(a, budget) + cut(b, (budget - emits(cut(a, budget))) as nat),
        emits(cut(a, budget)) <= budget,
        emits(cut(a, budget)) < budget ==> cut(a, budget) == a,
    decreases a.len(),
{
    if a.len() == 0 {
        assert(a + b =~= b);
        assert(cut(a, budget) =~= Seq::<VisitView>::empty());
        assert(Seq::<VisitView>::empty() + cut(b, budget) =~= cut(b, budget));
        assert(a =~= Seq::<VisitView>::empty());
    } else if budget == 0 {
        assert(cut(a + b, 0) =~= Seq::<VisitView>::empty());
        assert(cut(b, 0) =~= Seq::<VisitView>::empty());
        assert(cut(a, 0) + cut(b, 0) =~= Seq::<VisitView>::empty());
    } else {
        let rest = if a[0].emit {
            (budget - 1) as nat
        } else {
            budget
        };
        cut_of_sum(a.drop_first(), b, rest);
        assert((a + b).drop_first() =~= a.drop_first() + b);
        assert((a + b)[0] == a[0]);
        let ca = cut(a.drop_first(), rest);
        assert(cut(a, budget) == seq![a[0]] + ca);
        assert((seq![a[0]] + ca).drop_first() =~= ca);
        assert(emits(cut(a, budget)) == emits(ca) + if a[0].emit {
            1nat
        } else {
            0nat
        });
        assert(seq![a[0]] + (ca + cut(b, (rest - emits(ca)) as nat)) =~= cut(a, budget) + cut(
            b,
            (rest - emits(ca)) as nat,
        ));
        if emits(cut(a, budget)) < budget {
            assert(seq![a[0]] + a.drop_first() =~= a);
        }
    }
}

/// Lists the subtree at `node` into `out`, until `limit` inodes are part of
/// the page.
pub fn collect_cv_metadata_snapshot_page(
    node: &InodeNode,
    path: &str,
    start_after: &Option<String>,
    limit: usize,
    out: &mut Vec<SnapshotVisit>,
    emitted: usize,
) -> (r: usize)
    requires
        emitted <= limit,
    ensures
        ({
            let added = cut(
                visits(*node, path@, crate::model::text_of(*start_after)),
                (limit - emitted) as nat,
            );
            &&& visits_of(final(out)@) == visits_of(old(out)@) + added
            &&& r == emitted + emits(added)
        }),
        r <= limit,
    decreases node,
{
    let ghost token = crate::model::text_of(*start_after);
    let ghost all = visits(*node, path@, token);
    let ghost budget = (limit - emitted) as nat;
    proof {
        cut_of_sum(all, Seq::empty(), budget);
    }
    if emitted >= limit {
        assert(cut(all, 0) =~= Seq::<VisitView>::empty());
        assert(visits_of(out@) + Seq::<VisitView>::empty() =~= visits_of(out@));
        return emitted;
    }
    proof {
        reveal_strlit("/");
        assert("/"@ =~= root_path());
    }
    let mut emit: bool = true;
    if let Some(token) = start_after {
        if !same_text(path, "/") && text_before(path, token.as_str())
            && !snapshot_token_in_subtree(token.as_str(), path) {
            assert(cut(all, budget) =~= Seq::<VisitView>::empty());
            assert(visits_of(out@) + Seq::<VisitView>::empty() =~= visits_of(out@));
            return emitted;
        }
        emit = text_before(token.as_str(), path);
    }
    let visit = SnapshotVisit {
        path: path.to_owned(),
        inode_id: node.id,
        is_dir: node.is_dir,
        is_entry: node.is_entry,
        emit,
    };
    let ghost first = seq![visit_of(*node, path@, token)];
    assert(visit@ == first[0]);
    let ghost listed = out@;
    out.push(visit);
    assert(visits_of(out@) =~= visits_of(listed) + first);
    let mut count: usize = emitted;
    if emit {
        count = count + 1;
    }
    proof {
        reveal_with_fuel(cut, 2);
        reveal_with_fuel(emits, 2);
        assert(first.drop_first() =~= Seq::<VisitView>::empty());
        assert(cut(first, budget) =~= first);
        assert(emits(first) == (if emit {
            1nat
        } else {
            0nat
        }));
        cut_of_sum(first, children_visits(*node, path@, token, node.children@.len()), budget);
    }
    if node.is_dir {
        let ghost rest = (limit - count) as nat;
        let ghost before = out@;
        let mut i: usize = 0;
        proof {
            assert(children_visits(*node, path@, token, 0) =~= Seq::<VisitView>::empty());
            assert(cut(Seq::<VisitView>::empty(), rest) =~= Seq::<VisitView>::empty());
            assert(visits_of(before) + Seq::<VisitView>::empty() =~= visits_of(before));
        }
        let ghost base: int = count as int;
        while i < node.children.len()
            invariant
                i <= node.children.len(),
                count <= limit,
                token == crate::model::text_of(*start_after),
                rest == limit - base,
                ({
                    let added = cut(children_visits(*node, path@, token, i as nat), rest);
                    &&& visits_of(out@) == visits_of(before) + added
                    &&& count == base + emits(added)
                }),
            decreases node.children.len() - i,
        {
            let child: &InodeNode = &node.children[i];
            let below: String = child_snapshot_path(path, child.name.as_str());
            proof {
                let so_far = children_visits(*node, path@, token, i as nat);
                let next = visits(*child, below@, token);
                cut_of_sum(so_far, next, rest);
                let added = cut(so_far, rest);
                let more = cut(next, (rest - emits(added)) as nat);
                emits_of_sum(added, more);
                assert(visits_of(before) + (added + more) =~= (visits_of(before) + added) + more);
                assert(decreases_to!(*node => node.children@[i as int]));
            }
            count = collect_cv_metadata_snapshot_page(
                child,
                below.as_str(),
                start_after,
                limit,
                out,
                count,
            );
            i += 1;
        }
        proof {
            let kids = children_visits(*node, path@, token, node.children@.len());
            let added = cut(kids, rest);
            emits_of_sum(first, added);
            assert(visits_of(listed) + (first + added) =~= (visits_of(listed) + first) + added);
        }
    } else {
        assert(all == first);
    }
    count
}

/// The number of emitted inodes of two parts adds up.
pub proof fn emits_of_sum(a: Seq<VisitView>, b: Seq<VisitView>)
    ensures
        emits(a + b) == emits(a) + emits(b),
    decreases a.len(),
{
    if a.len() == 0 {
        assert(a + b =~= b);
    } else {
        emits_of_sum(a.drop_first(), b);
        assert((a + b).drop_first() =~= a.drop_first() + b);
        assert((a + b)[0] == a[0]);
    }
}

/// One inode of a listing; a file comes with its blocks.
pub struct CvMetadataSnapshotEntry {
    pub status: FileStatus,
    pub blocks: Option<FileBlocks>,
}

/// One page of a listing.
pub struct CvMetadataSnapshotPage {
    pub entries: Vec<CvMetadataSnapshotEntry>,
    pub next_page_token: Option<String>,
    pub epoch: u64,
}

impl CvMetadataSnapshotPage {
    /// The page holds the first of the entries. Where it does not hold all of
    /// them it is full, and its token is the path of its last entry.
    pub open spec fn is_cut_of(
        self,
        entries: Seq<CvMetadataSnapshotEntry>,
        page_size: usize,
    ) -> bool {
        if entries.len() <= page_size {
            self.entries@ == entries && self.next_page_token is None
        } else {
            self.entries@ == entries.take(page_size as int) && (self.next_page_token matches Some(t)
                && t@ == entries[page_size - 1].status.path@)
        }
    }
}

/// A file with the locations on record for its blocks.
pub struct FileRecord {
    pub file: InodeFile,
    pub locations: Vec<(i64, Vec<BlockLocation>)>,
}

/// An inode that was looked up, with what is on record for it.
pub struct FoundInode {
    pub status: FileStatus,
    /// The record of a file; none for a directory.
    pub record: Option<FileRecord>,
}

impl FoundInode {
    /// No block of the inode is faulty.
    pub open spec fn is_whole(self, m: ManagerView) -> bool {
        self.record matches Some(r) ==> forall|i: int|
            0 <= i < r.file.blocks@.len() ==> #[trigger] crate::namespace::block_fault(
                m,
                r.file,
                r.locations@,
                i,
            ) is None
    }
}

/// The entry shows the inode under the path, a file with its blocks.
pub open spec fn is_entry_of(
    m: ManagerView,
    path: Seq<char>,
    found: FoundInode,
    e: CvMetadataSnapshotEntry,
) -> bool {
    crate::namespace::is_status_at(e.status, found.status, path) && match found.record {
        Some(r) => e.blocks matches Some(b) && b.status == e.status
            && crate::namespace::are_located(m, r.file, r.locations@, b.block_locs@),
        None => e.blocks is None,
    }
}

/// The error reports the first faulty block of the inode.
pub open spec fn is_entry_error(
    m: ManagerView,
    path: Seq<char>,
    found: FoundInode,
    e: FsError,
) -> bool {
    found.record matches Some(r) && crate::namespace::is_locate_error(
        m,
        path,
        r.file,
        r.locations@,
        e,
    )
}

/// An inode has an entry exactly where none of its blocks is faulty.
pub proof fn only_whole_inodes_have_entries(m: ManagerView, path: Seq<char>, found: FoundInode)
    ensures
        forall|e: CvMetadataSnapshotEntry| #[trigger]
            is_entry_of(m, path, found, e) ==> found.is_whole(m),
        forall|e: FsError| #[trigger] is_entry_error(m, path, found, e) ==> !found.is_whole(m),
{
    assert forall|e: CvMetadataSnapshotEntry| #[trigger]
        is_entry_of(m, path, found, e) implies found.is_whole(m) by {
        if let Some(r) = found.record {
            let v = e.blocks->0.block_locs@;
            assert forall|i: int| 0 <= i < r.file.blocks@.len() implies #[trigger]
                crate::namespace::block_fault(m, r.file, r.locations@, i) is None by {
                assert(v[i]@ == v[i]@);
            }
        }
    }
}

/// The visit does not keep the page from being made.
pub open spec fn is_passable(
    m: ManagerView,
    v: VisitView,
    found: Result<FoundInode, FsError>,
) -> bool {
    found matches Ok(f) && (v.emit ==> f.is_whole(m))
}

/// The visit fails with the error: its inode could not be looked up, or is
/// part of the page and has a faulty block.
pub open spec fn visit_fails(
    m: ManagerView,
    v: VisitView,
    found: Result<FoundInode, FsError>,
    e: FsError,
) -> bool {
    match found {
        Ok(f) => v.emit && is_entry_error(m, v.path, f, e),
        Err(x) => e == x,
    }
}

/// All visits were found, and `s` holds an entry for each that is part of the
/// page, in order.
pub open spec fn are_entries_of(
    m: ManagerView,
    plan: Seq<VisitView>,
    found: Seq<Result<FoundInode, FsError>>,
    s: Seq<CvMetadataSnapshotEntry>,
) -> bool
    decreases plan.len(),
{
    if plan.len() == 0 {
        s.len() == 0
    } else {
        let v = plan.last();
        found[plan.len() - 1] matches Ok(f) && if v.emit {
            s.len() > 0 && is_entry_of(m, v.path, f, s.last()) && are_entries_of(
                m,
                plan.drop_last(),
                found,
                s.drop_last(),
            )
        } else {
            are_entries_of(m, plan.drop_last(), found, s)
        }
    }
}

/// The paths that the entries stand for.
pub open spec fn snapshot_paths(s: Seq<CvMetadataSnapshotEntry>) -> Seq<Seq<char>> {
    s.map_values(|e: CvMetadataSnapshotEntry| e.status.path@)
}

/// The entries of a page are at the paths that its plan shows.
pub proof fn entries_are_at_the_shown_paths(
    m: ManagerView,
    plan: Seq<VisitView>,
    found: Seq<Result<FoundInode, FsError>>,
    s: Seq<CvMetadataSnapshotEntry>,
)
    requires
        are_entries_of(m, plan, found, s),
    ensures
        snapshot_paths(s) == crate::paging_laws::emitted(plan),
    decreases plan.len(),
{
    if plan.len() == 0 {
        assert(snapshot_paths(s) =~= crate::paging_laws::emitted(plan));
    } else {
        let v = plan.last();
        let one = seq![v];
        reveal_with_fuel(crate::paging_laws::emitted, 2);
        assert(one.drop_first() =~= Seq::<VisitView>::empty());
        assert(plan.drop_last() + one =~= plan);
        crate::paging_laws::emitted_of_sum(plan.drop_last(), one);
        if v.emit {
            entries_are_at_the_shown_paths(m, plan.drop_last(), found, s.drop_last());
            assert(crate::paging_laws::emitted(one) =~= seq![v.path]);
            assert(snapshot_paths(s) =~= snapshot_paths(s.drop_last()).push(s.last().status.path@));
            assert(snapshot_paths(s) =~= crate::paging_laws::emitted(plan));
        } else {
            entries_are_at_the_shown_paths(m, plan.drop_last(), found, s);
            assert(crate::paging_laws::emitted(one) =~= Seq::<Seq<char>>::empty());
            assert(snapshot_paths(s) =~= crate::paging_laws::emitted(plan));
        }
    }
}

/// The token that a request really gives: an empty one counts as none.
pub open spec fn given_token(token: Option<String>) -> Option<Seq<char>> {
    match token {
        Some(t) => if t@.len() == 0 {
            None
        } else {
            Some(t@)
        },
        None => None,
    }
}

fn drop_empty_token(token: Option<String>) -> (r: Option<String>)
    ensures
        crate::model::text_of(r) == given_token(token),
{
    match token {
        Some(t) => {
            if t.as_str().is_empty() {
                None
            } else {
                Some(t)
            }
        },
        None => None,
    }
}

/// One more than a page holds.
pub open spec fn page_budget(page_size: usize) -> nat {
    if page_size == usize::MAX {
        usize::MAX as nat
    } else {
        (page_size + 1) as nat
    }
}

impl MasterFilesystem {
    /// The inodes that a page of the listing passes, in order: those that it
    /// shows, one more where the listing goes on, and those on the way to
    /// them. The caller looks each of them up.
    pub fn cv_metadata_snapshot_plan(
        root: &InodeNode,
        page_token: Option<String>,
        page_size: usize,
    ) -> (r: Result<Vec<SnapshotVisit>, FsError>)
        ensures
            match r {
                Ok(v) => page_size > 0 && visits_of(v@) == cut(
                    visits(*root, root_path(), given_token(page_token)),
                    page_budget(page_size),
                ),
                Err(e) => page_size == 0 && e == FsError::SnapshotPageEmpty,
            },
    {
        if page_size == 0 {
            return Err(FsError::SnapshotPageEmpty);
        }
        let ghost token = given_token(page_token);
        let start_after: Option<String> = drop_empty_token(page_token);
        let mut plan: Vec<SnapshotVisit> = Vec::new();
        let limit: usize = page_size.saturating_add(1);
        proof {
            reveal_strlit("/");
            assert("/"@ =~= root_path());
        }
        collect_cv_metadata_snapshot_page(root, "/", &start_after, limit, &mut plan, 0);
        assert(visits_of(plan@) =~= cut(visits(*root, root_path(), token), page_budget(page_size)));
        Ok(plan)
    }

    /// The listing's entry for an inode. A file comes with its blocks.
    pub fn cv_metadata_entry(
        &self,
        path: &str,
        status: FileStatus,
        file: Option<&FileRecord>,
    ) -> (r: Result<CvMetadataSnapshotEntry, FsError>)
        ensures
            match r {
                Ok(e) => e.status == status && match file {
                    Some(f) => e.blocks matches Some(b) && b.status == status
                        && crate::namespace::are_located(
                        self@.manager,
                        f.file,
                        f.locations@,
                        b.block_locs@,
                    ),
                    None => e.blocks is None,
                },
                Err(e) => file matches Some(f) && crate::namespace::is_locate_error(
                    self@.manager,
                    path@,
                    f.file,
                    f.locations@,
                    e,
                ),
            },
    {
        let blocks: Option<FileBlocks> = match file {
            Some(f) => match self.get_block_locs(path, &f.file, &f.locations) {
                Ok(block_locs) => Some(FileBlocks { status: status.clone(), block_locs }),
                Err(e) => return Err(e),
            },
            None => None,
        };
        Ok(CvMetadataSnapshotEntry { status, blocks })
    }

    /// The entries of a page: those of the visits that are part of it. Each
    /// inode that the plan passes has to be there, also one that is not shown;
    /// the first that is not, or that cannot be shown, decides the error.
    pub fn cv_metadata_snapshot_entries(
        &self,
        plan: &Vec<SnapshotVisit>,
        looked_up: Vec<Result<FoundInode, FsError>>,
    ) -> (r: Result<Vec<CvMetadataSnapshotEntry>, FsError>)
        requires
            plan@.len() == looked_up@.len(),
        ensures
            match r {
                Ok(s) => are_entries_of(self@.manager, visits_of(plan@), looked_up@, s@)
                    && snapshot_paths(s@) == crate::paging_laws::emitted(visits_of(plan@)),
                Err(e) => exists|k: int|
                    #![trigger looked_up@[k]]
                    {
                        &&& 0 <= k < plan@.len()
                        &&& forall|j: int|
                            0 <= j < k ==> is_passable(
                                self@.manager,
                                plan@[j]@,
                                #[trigger] looked_up@[j],
                            )
                        &&& !is_passable(self@.manager, plan@[k]@, looked_up@[k])
                        &&& visit_fails(self@.manager, plan@[k]@, looked_up@[k], e)
                    },
            },
    {
        let ghost m = self@.manager;
        let ghost views = visits_of(plan@);
        let ghost given = looked_up@;
        let mut r: Vec<CvMetadataSnapshotEntry> = Vec::new();
        let mut i: usize = 0;
        for found in it: looked_up
            invariant
                it.seq() == given,
                i == it.index(),
                m == self@.manager,
                views == visits_of(plan@),
                plan@.len() == given.len(),
                forall|j: int| 0 <= j < i ==> is_passable(m, plan@[j]@, #[trigger] given[j]),
                are_entries_of(m, views.take(i as int), given, r@),
        {
            assert(found == given[i as int]);
            assert(i < plan.len());
            let visit: &SnapshotVisit = &plan[i];
            proof {
                crate::ids::take_step(views, i as int);
                assert(views[i as int] == visit@);
            }
            let inode: FoundInode = match found {
                Ok(inode) => inode,
                Err(e) => return Err(e),
            };
            if visit.emit {
                proof {
                    only_whole_inodes_have_entries(m, visit@.path, inode);
                }
                match self.found_entry(visit.path.as_str(), inode) {
                    Ok(entry) => {
                        let ghost before = r@;
                        r.push(entry);
                        assert(r@.drop_last() =~= before);
                    },
                    Err(e) => return Err(e),
                }
            }
            i += 1;
        }
        proof {
            assert(views.take(views.len() as int) =~= views);
            entries_are_at_the_shown_paths(m, views, given, r@);
        }
        Ok(r)
    }

    /// The entry of an inode under the path by which it was reached.
    pub(crate) fn found_entry(&self, path: &str, found: FoundInode) -> (r: Result<
        CvMetadataSnapshotEntry,
        FsError,
    >)
        ensures
            match r {
                Ok(e) => is_entry_of(self@.manager, path@, found, e),
                Err(e) => is_entry_error(self@.manager, path@, found, e),
            },
    {
        let status: FileStatus = status_at(path, found.status);
        self.cv_metadata_entry(path, status, found.record.as_ref())
    }

    /// A page made of the entries that its plan shows. The last entry is left
    /// out where it only tells that the listing goes on.
    pub fn cv_metadata_snapshot_page(
        entries: Vec<CvMetadataSnapshotEntry>,
        page_size: usize,
        epoch: u64,
    ) -> (r: CvMetadataSnapshotPage)
        requires
            page_size > 0,
        ensures
            r.epoch == epoch,
            r.is_cut_of(entries@, page_size),
    {
        let mut entries = entries;
        let mut next_page_token: Option<String> = None;
        if entries.len() > page_size {
            next_page_token = Some(entries[page_size - 1].status.path.clone());
            entries.truncate(page_size);
        }
        CvMetadataSnapshotPage { entries, next_page_token, epoch }
    }
}

} // verus!
