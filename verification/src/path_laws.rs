//! Paths and numbers as text, changed paths, and what listings visit.

use vstd::prelude::*;

use crate::delta::{CvMetadataChange, DeltaNode, PathLookup};
use crate::manager_model::ManagerView;
use crate::snapshot::{
    CvMetadataSnapshotEntry, CvMetadataSnapshotPage, FoundInode, InodeNode, VisitView,
};

verus! {

/// Some change is of this path.
pub open spec fn is_changed(changes: Seq<CvMetadataChange>, p: Seq<char>) -> bool {
    exists|i: int| 0 <= i < changes.len() && (#[trigger] changes[i]).path@ == p
}

/// Some change of this path asks for the whole subtree.
pub open spec fn is_changed_below(changes: Seq<CvMetadataChange>, p: Seq<char>) -> bool {
    exists|i: int|
        0 <= i < changes.len() && (#[trigger] changes[i]).path@ == p && changes[i].include_subtree
}

/// The changed paths are those of the changes, each once; the subtree of one
/// counts as changed where any of the changes of the path says so, whatever
/// their order.
pub proof fn changes_are_merged_by_path(changes: Seq<CvMetadataChange>, p: Seq<char>)
    ensures
        crate::delta::merged_changes(changes).contains_key(p) <==> is_changed(changes, p),
        is_changed(changes, p) ==> (crate::delta::merged_changes(changes)[p] <==> is_changed_below(
            changes,
            p,
        )),
    decreases changes.len(),
{
    if changes.len() > 0 {
        let rest = changes.drop_last();
        let n = changes.len() - 1;
        changes_are_merged_by_path(rest, p);
        if is_changed(rest, p) {
            let i = choose|i: int| 0 <= i < rest.len() && (#[trigger] rest[i]).path@ == p;
            assert(changes[i].path@ == p);
        }
        if is_changed_below(rest, p) {
            let i = choose|i: int|
                0 <= i < rest.len() && (#[trigger] rest[i]).path@ == p && rest[i].include_subtree;
            assert(changes[i].path@ == p && changes[i].include_subtree);
        }
        if is_changed(changes, p) && changes[n].path@ != p {
            let i = choose|i: int| 0 <= i < changes.len() && (#[trigger] changes[i]).path@ == p;
            assert(rest[i].path@ == p);
        }
        if is_changed_below(changes, p) {
            let i = choose|i: int|
                0 <= i < changes.len() && (#[trigger] changes[i]).path@ == p
                    && changes[i].include_subtree;
            if i < n {
                assert(rest[i].path@ == p && rest[i].include_subtree);
            }
        }
        assert(changes[n] == changes.last());
    }
}

/// Changes that are the same but for their order come to the same.
pub proof fn order_of_changes_does_not_matter(
    a: Seq<CvMetadataChange>,
    b: Seq<CvMetadataChange>,
)
    requires
        forall|c: CvMetadataChange| a.contains(c) <==> b.contains(c),
    ensures
        crate::delta::merged_changes(a) == crate::delta::merged_changes(b),
{
    assert forall|p: Seq<char>| is_changed(a, p) == is_changed(b, p) && is_changed_below(a, p)
        == is_changed_below(b, p) by {
        same_changes(a, b, p);
        same_changes(b, a, p);
    }
    let x = crate::delta::merged_changes(a);
    let y = crate::delta::merged_changes(b);
    assert forall|p: Seq<char>| #[trigger] x.dom().contains(p) == y.dom().contains(p) by {
        changes_are_merged_by_path(a, p);
        changes_are_merged_by_path(b, p);
        assert(is_changed(a, p) == is_changed(b, p));
    }
    assert forall|p: Seq<char>| #[trigger] x.dom().contains(p) implies x[p] == y[p] by {
        changes_are_merged_by_path(a, p);
        changes_are_merged_by_path(b, p);
        assert(is_changed(a, p) == is_changed(b, p));
    }
    assert(x.dom() =~= y.dom());
    assert(x =~= y);
}

proof fn same_changes(a: Seq<CvMetadataChange>, b: Seq<CvMetadataChange>, p: Seq<char>)
    requires
        forall|c: CvMetadataChange| a.contains(c) ==> b.contains(c),
    ensures
        is_changed(a, p) ==> is_changed(b, p),
        is_changed_below(a, p) ==> is_changed_below(b, p),
{
    if is_changed(a, p) {
        let i = choose|i: int| 0 <= i < a.len() && (#[trigger] a[i]).path@ == p;
        assert(a.contains(a[i]));
        let j = choose|j: int| 0 <= j < b.len() && b[j] == a[i];
        assert(b[j].path@ == p);
    }
    if is_changed_below(a, p) {
        let i = choose|i: int|
            0 <= i < a.len() && (#[trigger] a[i]).path@ == p && a[i].include_subtree;
        assert(a.contains(a[i]));
        let j = choose|j: int| 0 <= j < b.len() && b[j] == a[i];
        assert(b[j].path@ == p && b[j].include_subtree);
    }
}

/// The texts agree on their first `k` characters.
pub open spec fn agree_up_to(a: Seq<char>, b: Seq<char>, k: int) -> bool {
    0 <= k <= a.len() && k <= b.len() && forall|i: int| 0 <= i < k ==> #[trigger] a[i] == b[i]
}

/// A text comes before another exactly where, behind what they have in common,
/// it ends and the other goes on, or has the smaller character.
pub proof fn order_goes_by_the_first_difference(a: Seq<char>, b: Seq<char>)
    ensures
        crate::text::before(a, b) <==> exists|k: int| #[trigger]
            agree_up_to(a, b, k) && k < b.len() && (k == a.len() || a[k] < b[k]),
    decreases a.len(),
{
    if b.len() == 0 {
    } else if a.len() == 0 {
        assert(agree_up_to(a, b, 0));
    } else if a[0] == b[0] {
        let x = a.drop_first();
        let y = b.drop_first();
        order_goes_by_the_first_difference(x, y);
        if crate::text::before(x, y) {
            let k = choose|k: int| #[trigger]
                agree_up_to(x, y, k) && k < y.len() && (k == x.len() || x[k] < y[k]);
            assert forall|i: int| 0 <= i < k + 1 implies #[trigger] a[i] == b[i] by {
                if i > 0 {
                    assert(x[i - 1] == y[i - 1]);
                }
            }
            assert(agree_up_to(a, b, k + 1));
        }
        if exists|k: int| #[trigger]
            agree_up_to(a, b, k) && k < b.len() && (k == a.len() || a[k] < b[k]) {
            let k = choose|k: int| #[trigger]
                agree_up_to(a, b, k) && k < b.len() && (k == a.len() || a[k] < b[k]);
            assert(k > 0);
            assert forall|i: int| 0 <= i < k - 1 implies #[trigger] x[i] == y[i] by {
                assert(a[i + 1] == b[i + 1]);
            }
            assert(agree_up_to(x, y, k - 1));
        }
    } else {
        assert(agree_up_to(a, b, 0));
        if exists|k: int| #[trigger]
            agree_up_to(a, b, k) && k < b.len() && (k == a.len() || a[k] < b[k]) {
            let k = choose|k: int| #[trigger]
                agree_up_to(a, b, k) && k < b.len() && (k == a.len() || a[k] < b[k]);
            if k > 0 {
                assert(a[0] == b[0]);
            }
        }
    }
}

/// A path lies under a directory exactly where it is the directory, a
/// separator and something that may be empty; a text begins with another
/// exactly where it is that and something more.
pub proof fn prefixes_are_beginnings(s: Seq<char>, dir: Seq<char>)
    ensures
        crate::text::is_under(s, dir) <==> exists|rest: Seq<char>| s == #[trigger] (dir.push('/')
            + rest),
        crate::text::begins_with(s, dir) <==> exists|rest: Seq<char>| s == #[trigger] (dir + rest),
        forall|rest: Seq<char>| #[trigger] crate::text::begins_with(dir + rest, dir),
        forall|rest: Seq<char>| #[trigger] crate::text::is_under(dir.push('/') + rest, dir),
{
    assert forall|rest: Seq<char>| #[trigger] crate::text::begins_with(dir + rest, dir) by {
        assert((dir + rest).take(dir.len() as int) =~= dir);
    }
    assert forall|rest: Seq<char>| #[trigger] crate::text::is_under(dir.push('/') + rest, dir) by {
        assert((dir.push('/') + rest).take(dir.len() as int) =~= dir);
        assert((dir.push('/') + rest)[dir.len() as int] == '/');
    }
    if crate::text::begins_with(s, dir) {
        assert(s =~= dir + s.skip(dir.len() as int));
    }
    if crate::text::is_under(s, dir) {
        assert(s =~= dir.push('/') + s.skip(dir.len() as int + 1)) by {
            assert forall|i: int| 0 <= i < s.len() implies s[i] == (dir.push('/') + s.skip(
                dir.len() as int + 1,
            ))[i] by {
                if i < dir.len() {
                    assert(s.take(dir.len() as int)[i] == s[i]);
                }
            }
        }
    }
}

/// The number that a row of decimal digits stands for.
pub open spec fn value_of(s: Seq<char>) -> int
    decreases s.len(),
{
    if s.len() == 0 {
        0
    } else {
        value_of(s.drop_last()) * 10 + (s.last() as int - '0' as int)
    }
}

/// A number is written in decimal digits that stand for it, without leading
/// zeros.
pub proof fn decimals_stand_for_their_number(n: nat)
    ensures
        value_of(crate::text::decimal(n)) == n,
        crate::text::decimal(n).len() > 0,
        forall|i: int|
            0 <= i < crate::text::decimal(n).len() ==> '0' <= #[trigger] crate::text::decimal(n)[i]
                <= '9',
        n > 0 ==> crate::text::decimal(n)[0] != '0',
    decreases n,
{
    let s = crate::text::decimal(n);
    if n < 10 {
        assert(s.drop_last() =~= Seq::empty());
        assert(value_of(Seq::empty()) == 0);
        assert(s.last() == crate::text::digit(n));
    } else {
        let rest = crate::text::decimal(n / 10);
        decimals_stand_for_their_number(n / 10);
        assert(s.drop_last() =~= rest);
        assert(s.last() == crate::text::digit(n % 10));
        assert forall|i: int| 0 <= i < s.len() implies '0' <= #[trigger] s[i] <= '9' by {
            if i < rest.len() {
                assert(s[i] == rest[i]);
            }
        }
        assert(s[0] == rest[0]);
    }
}

/// A number below zero is written as a minus sign and its magnitude; any other
/// as itself.
pub proof fn signs_are_written(n: int)
    ensures
        n < 0 ==> crate::text::signed_decimal(n).len() > 1 && crate::text::signed_decimal(n)[0]
            == '-' && value_of(crate::text::signed_decimal(n).skip(1)) == -n,
        n >= 0 ==> value_of(crate::text::signed_decimal(n)) == n
            && crate::text::signed_decimal(n)[0] != '-',
{
    if n < 0 {
        decimals_stand_for_their_number((-n) as nat);
        assert(crate::text::signed_decimal(n).skip(1) =~= crate::text::decimal((-n) as nat));
    } else {
        decimals_stand_for_their_number(n as nat);
        let s = crate::text::decimal(n as nat);
        assert('0' <= s[0] <= '9');
    }
}

/// A child lies right under its parent: its path is that of the parent, a
/// separator and its name; under the root there is but one separator.
pub proof fn children_lie_under_their_parent(parent: Seq<char>, name: Seq<char>)
    ensures
        crate::snapshot::root_path() == seq!['/'],
        parent != seq!['/'] ==> crate::snapshot::child_path(parent, name) == parent + seq!['/']
            + name,
        parent == seq!['/'] ==> crate::snapshot::child_path(parent, name) == seq!['/'] + name,
{
    assert(parent.push('/') + name =~= parent + seq!['/'] + name);
}

/// What a listing does with a path and a token: it shows the paths after the
/// token, and passes over a subtree whose paths are all before it. The root is
/// never passed over.
pub proof fn tokens_split_the_paths(path: Seq<char>, token: Option<Seq<char>>)
    ensures
        token is None ==> crate::snapshot::is_after(path, token) && !crate::snapshot::is_passed(
            path,
            token,
        ),
        token is Some ==> {
            let t = token->0;
            &&& crate::snapshot::is_after(path, token) <==> crate::text::before(t, path)
            &&& crate::snapshot::is_passed(path, token) <==> path != seq!['/']
                && crate::text::before(path, t) && !crate::text::is_under(t, path) && t != path
            &&& crate::snapshot::token_in_subtree(t, path) <==> t == path || path != seq!['/']
                && crate::text::is_under(t, path)
        },
{
}

/// An inode is visited under its path, as what it is, and shown where its path
/// is after the token.
pub proof fn visits_tell_the_inode(node: InodeNode, path: Seq<char>, token: Option<Seq<char>>)
    ensures
        ({
            let v = crate::snapshot::visit_of(node, path, token);
            &&& v.path == path
            &&& v.inode_id == node.id
            &&& v.is_dir == node.is_dir
            &&& v.is_entry == node.is_entry
            &&& v.emit <==> (token is None || crate::text::before(token->0, path))
        }),
{
}

/// A directory is listed before its children, and they follow one after the
/// other, each with all below it; anything else is listed alone.
pub proof fn listings_go_down(node: InodeNode, path: Seq<char>)
    ensures
        !node.is_dir ==> crate::snapshot::listing(node, path) == seq![path],
        node.is_dir ==> crate::snapshot::listing(node, path) == seq![path] + Seq::new(
            node.children@.len(),
            |i: int|
                crate::snapshot::listing(
                    node.children@[i],
                    crate::snapshot::child_path(path, node.children@[i].name@),
                ),
        ).flatten_alt(),
{
    children_listed(node, path, node.children@.len());
}

proof fn children_listed(node: InodeNode, path: Seq<char>, n: nat)
    requires
        n <= node.children@.len(),
    ensures
        crate::snapshot::children_listing(node, path, n) == Seq::new(
            n,
            |i: int|
                crate::snapshot::listing(
                    node.children@[i],
                    crate::snapshot::child_path(path, node.children@[i].name@),
                ),
        ).flatten_alt(),
    decreases n,
{
    let f = |i: int|
        crate::snapshot::listing(
            node.children@[i],
            crate::snapshot::child_path(path, node.children@[i].name@),
        );
    let all = Seq::new(n, f);
    if n > 0 {
        children_listed(node, path, (n - 1) as nat);
        assert(all.drop_last() =~= Seq::new((n - 1) as nat, f));
        assert(all.last() == f(n - 1));
    }
}

/// A page visits what is not passed over: an inode, then, for a directory,
/// what it visits of each child.
pub proof fn visits_go_down(node: InodeNode, path: Seq<char>, token: Option<Seq<char>>)
    ensures
        crate::snapshot::is_passed(path, token) ==> crate::snapshot::visits(node, path, token).len()
            == 0,
        !crate::snapshot::is_passed(path, token) && !node.is_dir ==> crate::snapshot::visits(
            node,
            path,
            token,
        ) == seq![crate::snapshot::visit_of(node, path, token)],
        !crate::snapshot::is_passed(path, token) && node.is_dir ==> crate::snapshot::visits(
            node,
            path,
            token,
        ) == seq![crate::snapshot::visit_of(node, path, token)] + Seq::new(
            node.children@.len(),
            |i: int|
                crate::snapshot::visits(
                    node.children@[i],
                    crate::snapshot::child_path(path, node.children@[i].name@),
                    token,
                ),
        ).flatten_alt(),
{
    children_visited(node, path, token, node.children@.len());
}

proof fn children_visited(node: InodeNode, path: Seq<char>, token: Option<Seq<char>>, n: nat)
    requires
        n <= node.children@.len(),
    ensures
        crate::snapshot::children_visits(node, path, token, n) == Seq::new(
            n,
            |i: int|
                crate::snapshot::visits(
                    node.children@[i],
                    crate::snapshot::child_path(path, node.children@[i].name@),
                    token,
                ),
        ).flatten_alt(),
    decreases n,
{
    let f = |i: int|
        crate::snapshot::visits(
            node.children@[i],
            crate::snapshot::child_path(path, node.children@[i].name@),
            token,
        );
    let all = Seq::new(n, f);
    if n > 0 {
        children_visited(node, path, token, (n - 1) as nat);
        assert(all.drop_last() =~= Seq::new((n - 1) as nat, f));
        assert(all.last() == f(n - 1));
    }
}

/// Without a token a listing visits and shows every path.
pub proof fn first_page_sees_everything(node: InodeNode, path: Seq<char>)
    ensures
        crate::snapshot::visits(node, path, None).map_values(|v: VisitView| v.path)
            == crate::snapshot::listing(node, path),
        forall|i: int|
            0 <= i < crate::snapshot::visits(node, path, None).len()
                ==> (#[trigger] crate::snapshot::visits(node, path, None)[i]).emit,
    decreases node, node.children@.len() + 2,
{
    let f = |v: VisitView| v.path;
    let r = crate::snapshot::visits(node, path, None);
    if node.is_dir {
        let v = crate::snapshot::visit_of(node, path, None);
        let below = crate::snapshot::children_visits(node, path, None, node.children@.len());
        children_seen(node, path, node.children@.len());
        assert(r == seq![v] + below);
        assert((seq![v] + below).map_values(f) =~= seq![path] + below.map_values(f));
        assert forall|i: int| 0 <= i < r.len() implies (#[trigger] r[i]).emit by {
            if i > 0 {
                assert(r[i] == below[i - 1]);
            }
        }
    } else {
        assert(r.map_values(f) =~= seq![path]);
    }
}

proof fn children_seen(node: InodeNode, path: Seq<char>, n: nat)
    requires
        n <= node.children@.len(),
    ensures
        crate::snapshot::children_visits(node, path, None, n).map_values(|v: VisitView| v.path)
            == crate::snapshot::children_listing(node, path, n),
        forall|i: int|
            0 <= i < crate::snapshot::children_visits(node, path, None, n).len()
                ==> (#[trigger] crate::snapshot::children_visits(node, path, None, n)[i]).emit,
    decreases node, n + 1,
{
    let f = |v: VisitView| v.path;
    let all = crate::snapshot::children_visits(node, path, None, n);
    if n > 0 {
        let child = node.children@[n - 1];
        let at = crate::snapshot::child_path(path, child.name@);
        let a = crate::snapshot::children_visits(node, path, None, (n - 1) as nat);
        let b = crate::snapshot::visits(child, at, None);
        children_seen(node, path, (n - 1) as nat);
        first_page_sees_everything(child, at);
        assert(all == a + b);
        assert((a + b).map_values(f) =~= a.map_values(f) + b.map_values(f));
        assert forall|i: int| 0 <= i < all.len() implies (#[trigger] all[i]).emit by {
            if i < a.len() {
                assert(all[i] == a[i]);
            } else {
                assert(all[i] == b[i - a.len()]);
            }
        }
    } else {
        assert(all.map_values(f) =~= Seq::empty());
    }
}

/// The shown inodes are counted one by one.
pub proof fn shown_inodes_are_counted(v: Seq<VisitView>)
    ensures
        crate::snapshot::emits(v) == v.filter(|x: VisitView| x.emit).len(),
    decreases v.len(),
{
    reveal(Seq::filter);
    if v.len() > 0 {
        shown_inodes_are_counted(v.drop_last());
        assert(v =~= v.drop_last() + seq![v.last()]);
        crate::snapshot::emits_of_sum(v.drop_last(), seq![v.last()]);
        assert(seq![v.last()].drop_first() =~= Seq::empty());
        assert(crate::snapshot::emits(Seq::empty()) == 0);
        assert(crate::snapshot::emits(seq![v.last()]) == if v.last().emit {
            1nat
        } else {
            0nat
        });
    }
}

/// A plan that is cut is the longest beginning of it that stays within the
/// budget: it shows no more than that, and it ends early only when the budget
/// is used up, on an inode that is shown.
pub proof fn cut_uses_up_its_budget(v: Seq<VisitView>, budget: nat)
    ensures
        ({
            let c = crate::snapshot::cut(v, budget);
            &&& c.len() <= v.len()
            &&& c == v.take(c.len() as int)
            &&& crate::snapshot::emits(c) <= budget
            &&& c.len() < v.len() ==> crate::snapshot::emits(c) == budget
            &&& c.len() > 0 && c.len() < v.len() ==> c.last().emit
            &&& budget == 0 ==> c.len() == 0
        }),
    decreases v.len(),
{
    let c = crate::snapshot::cut(v, budget);
    if v.len() > 0 && budget > 0 {
        let left = if v[0].emit {
            (budget - 1) as nat
        } else {
            budget
        };
        let rest = v.drop_first();
        let d = crate::snapshot::cut(rest, left);
        cut_uses_up_its_budget(rest, left);
        assert(c == seq![v[0]] + d);
        assert(c =~= v.take(c.len() as int)) by {
            assert forall|i: int| 0 <= i < c.len() implies c[i] == v[i] by {
                if i > 0 {
                    assert(c[i] == d[i - 1]);
                    assert(d[i - 1] == rest.take(d.len() as int)[i - 1]);
                }
            }
        }
        assert(c.drop_first() =~= d);
        if d.len() > 0 {
            assert(c.last() == d.last());
        } else {
            assert(crate::snapshot::emits(d) == 0);
        }
    } else {
        assert(c =~= v.take(0));
    }
}

/// A page holds the first entries, as many as fit; it names where to go on
/// exactly where more are left, and then it is the path of its last entry.
pub proof fn pages_name_where_to_go_on(
    page: CvMetadataSnapshotPage,
    entries: Seq<CvMetadataSnapshotEntry>,
    page_size: usize,
)
    requires
        page_size > 0,
        page.is_cut_of(entries, page_size),
    ensures
        page.entries@.len() == if entries.len() < page_size {
            entries.len()
        } else {
            page_size as nat
        },
        forall|i: int| 0 <= i < page.entries@.len() ==> #[trigger] page.entries@[i] == entries[i],
        page.next_page_token is Some <==> entries.len() > page_size,
        page.next_page_token matches Some(t) ==> t@ == page.entries@.last().status.path@,
{
}

/// An empty token is none, and a page looks for one entry more than it holds.
pub proof fn page_requests_are_read(token: Option<String>, page_size: usize)
    ensures
        crate::snapshot::given_token(token) is Some <==> token is Some && token->0@.len() > 0,
        crate::snapshot::given_token(token) matches Some(t) ==> t == token->0@,
        page_size < usize::MAX ==> crate::snapshot::page_budget(page_size) == page_size + 1,
        page_size == usize::MAX ==> crate::snapshot::page_budget(page_size) == page_size,
{
}

/// The entries of a page stand for the shown inodes of its plan, one for one
/// and in order.
pub proof fn entries_stand_for_shown_inodes(
    m: ManagerView,
    plan: Seq<VisitView>,
    found: Seq<Result<FoundInode, crate::error::FsError>>,
    s: Seq<CvMetadataSnapshotEntry>,
)
    requires
        crate::snapshot::are_entries_of(m, plan, found, s),
    ensures
        s.len() == plan.filter(|v: VisitView| v.emit).len(),
        forall|i: int|
            0 <= i < s.len() ==> (#[trigger] s[i]).status.path@ == plan.filter(
                |v: VisitView| v.emit,
            )[i].path,
        forall|i: int| 0 <= i < plan.len() ==> #[trigger] found[i] is Ok,
    decreases plan.len(),
{
    reveal(Seq::filter);
    let p = |v: VisitView| v.emit;
    if plan.len() > 0 {
        let rest = plan.drop_last();
        if plan.last().emit {
            entries_stand_for_shown_inodes(m, rest, found, s.drop_last());
            assert(plan.filter(p) == rest.filter(p).push(plan.last()));
            assert forall|i: int| 0 <= i < s.len() implies (#[trigger] s[i]).status.path@
                == plan.filter(p)[i].path by {
                if i < s.len() - 1 {
                    assert(s.drop_last()[i] == s[i]);
                }
            }
        } else {
            entries_stand_for_shown_inodes(m, rest, found, s);
        }
        assert forall|i: int| 0 <= i < plan.len() implies #[trigger] found[i] is Ok by {}
    }
}

/// What was found last at a path counts.
pub proof fn last_lookup_counts(visits: Seq<(Seq<char>, PathLookup)>, path: Seq<char>)
    ensures
        (forall|i: int| 0 <= i < visits.len() ==> (#[trigger] visits[i]).0 != path)
            <==> crate::delta::last_lookup(visits, path) is None,
        forall|i: int|
            0 <= i < visits.len() && (#[trigger] visits[i]).0 == path && (forall|j: int|
                i < j < visits.len() ==> (#[trigger] visits[j]).0 != path)
                ==> crate::delta::last_lookup(visits, path) == Some(visits[i].1),
    decreases visits.len(),
{
    if visits.len() > 0 {
        let rest = visits.drop_last();
        let n = visits.len() - 1;
        last_lookup_counts(rest, path);
        assert forall|i: int|
            0 <= i < visits.len() && (#[trigger] visits[i]).0 == path && (forall|j: int|
                i < j < visits.len() ==> (#[trigger] visits[j]).0 != path)
            implies crate::delta::last_lookup(visits, path) == Some(visits[i].1) by {
            if i < n {
                assert(visits[n].0 != path);
                assert(rest[i] == visits[i]);
                assert forall|j: int| i < j < rest.len() implies (#[trigger] rest[j]).0 != path by {
                    assert(visits[j].0 != path);
                }
            }
        }
        if crate::delta::last_lookup(visits, path) is None {
            assert forall|i: int| 0 <= i < visits.len() implies (#[trigger] visits[i]).0 != path by {
                if i < n {
                    assert(rest[i].0 != path);
                }
            }
        }
        if forall|i: int| 0 <= i < visits.len() ==> (#[trigger] visits[i]).0 != path {
            assert(visits[n].0 != path);
            assert forall|i: int| 0 <= i < rest.len() implies (#[trigger] rest[i]).0 != path by {
                assert(visits[i].0 != path);
            }
        }
    }
}

/// The changed paths are visited one after the other: a changed path itself,
/// and where its subtree is changed, all below it.
pub proof fn changed_paths_are_visited_in_turn(
    changed: Seq<(String, bool)>,
    nodes: Seq<DeltaNode>,
)
    ensures
        crate::delta::delta_visits(changed, nodes) == Seq::new(
            changed.len(),
            |i: int|
                if changed[i].1 {
                    crate::delta::subtree_visits(nodes[i], changed[i].0@)
                } else {
                    seq![(changed[i].0@, nodes[i].lookup)]
                },
        ).flatten_alt(),
    decreases changed.len(),
{
    let f = |i: int|
        if changed[i].1 {
            crate::delta::subtree_visits(nodes[i], changed[i].0@)
        } else {
            seq![(changed[i].0@, nodes[i].lookup)]
        };
    let all = Seq::new(changed.len(), f);
    if changed.len() > 0 {
        let rest = changed.drop_last();
        let g = |i: int|
            if rest[i].1 {
                crate::delta::subtree_visits(nodes[i], rest[i].0@)
            } else {
                seq![(rest[i].0@, nodes[i].lookup)]
            };
        changed_paths_are_visited_in_turn(rest, nodes);
        assert(all.drop_last() =~= Seq::new(rest.len(), g)) by {
            assert forall|i: int| 0 <= i < rest.len() implies all.drop_last()[i] == Seq::new(
                rest.len(),
                g,
            )[i] by {
                assert(rest[i] == changed[i]);
            }
        }
        assert(all.last() == f(changed.len() - 1));
    }
}

/// A changed subtree is visited from its top: the path itself, then, where a
/// directory stands there, each child with all below it.
pub proof fn changed_subtrees_go_down(node: DeltaNode, path: Seq<char>)
    ensures
        ({
            let is_dir = node.lookup matches PathLookup::Found(f) && f.status.is_dir;
            let below = Seq::new(
                node.children@.len(),
                |i: int|
                    crate::delta::subtree_visits(
                        node.children@[i],
                        crate::snapshot::child_path(path, node.children@[i].name@),
                    ),
            ).flatten_alt();
            crate::delta::subtree_visits(node, path) == if is_dir {
                seq![(path, node.lookup)] + below
            } else {
                seq![(path, node.lookup)]
            }
        }),
{
    children_of_changed(node, path, node.children@.len());
}

proof fn children_of_changed(node: DeltaNode, path: Seq<char>, n: nat)
    requires
        n <= node.children@.len(),
    ensures
        crate::delta::children_visits(node, path, n) == Seq::new(
            n,
            |i: int|
                crate::delta::subtree_visits(
                    node.children@[i],
                    crate::snapshot::child_path(path, node.children@[i].name@),
                ),
        ).flatten_alt(),
    decreases n,
{
    let f = |i: int|
        crate::delta::subtree_visits(
            node.children@[i],
            crate::snapshot::child_path(path, node.children@[i].name@),
        );
    let all = Seq::new(n, f);
    if n > 0 {
        children_of_changed(node, path, (n - 1) as nat);
        assert(all.drop_last() =~= Seq::new((n - 1) as nat, f));
        assert(all.last() == f(n - 1));
    }
}

/// Nothing stands where a path could not be resolved or is missing; what was
/// found is shown as it is, at its path; what could not be read stops the
/// listing with the error that was met.
pub proof fn lookups_are_shown_as_found(
    l: PathLookup,
    m: ManagerView,
    path: Seq<char>,
    e: Option<CvMetadataSnapshotEntry>,
    err: crate::error::FsError,
)
    ensures
        l is Unresolved || l is Missing ==> l.is_clear(m) && (l.shows(m, path, e) <==> e is None)
            && !l.fails(m, path, err),
        l matches PathLookup::Unreadable(x) ==> !l.is_clear(m) && !l.shows(m, path, e) && (l.fails(
            m,
            path,
            err,
        ) <==> err == x),
        l matches PathLookup::Found(f) ==> {
            &&& f.record is None ==> l.is_clear(m) && !l.fails(m, path, err)
            &&& l.shows(m, path, e) ==> e is Some && e->0.status.path@ == path && e->0.status.id
                == f.status.id && e->0.status.name == f.status.name && e->0.status.len
                == f.status.len && e->0.status.is_dir == f.status.is_dir
            &&& l.shows(m, path, e) ==> (e->0.blocks is Some <==> f.record is Some)
        },
{
}

/// The changes go up to the epoch that was asked for, or to the current one.
pub proof fn epochs_default_to_now(target: Option<u64>, current: u64)
    ensures
        target is None ==> crate::delta::wanted_epoch(target, current) == current,
        target matches Some(t) ==> crate::delta::wanted_epoch(target, current) == t,
{
}

/// The shown paths of a plan are those of its shown inodes, in order.
pub proof fn shown_paths_are_picked(v: Seq<VisitView>)
    ensures
        crate::paging_laws::emitted(v) == v.filter(|x: VisitView| x.emit).map_values(
            |x: VisitView| x.path,
        ),
    decreases v.len(),
{
    reveal(Seq::filter);
    let p = |x: VisitView| x.emit;
    let f = |x: VisitView| x.path;
    if v.len() > 0 {
        let rest = v.drop_last();
        shown_paths_are_picked(rest);
        assert(v =~= rest + seq![v.last()]);
        crate::paging_laws::emitted_of_sum(rest, seq![v.last()]);
        assert(seq![v.last()].drop_first() =~= Seq::empty());
        assert(crate::paging_laws::emitted(Seq::empty()) =~= Seq::empty());
        if p(v.last()) {
            assert(crate::paging_laws::emitted(seq![v.last()]) =~= seq![v.last().path]);
            assert(rest.filter(p).push(v.last()).map_values(f) =~= rest.filter(p).map_values(f)
                + seq![v.last().path]);
        } else {
            assert(crate::paging_laws::emitted(seq![v.last()]) =~= Seq::empty());
            assert(rest.filter(p).map_values(f) + Seq::<Seq<char>>::empty() =~= rest.filter(
                p,
            ).map_values(f));
        }
    } else {
        assert(v.filter(p).map_values(f) =~= Seq::empty());
    }
}

/// What is collected of visited paths shows what was found last at each of
/// them, and leaves every other path as it was; it stops at the first path
/// that cannot be shown, with the error that was met there.
pub proof fn collected_paths_show_what_was_found(
    m: ManagerView,
    old_entries: Map<Seq<char>, Option<CvMetadataSnapshotEntry>>,
    visits: Seq<(Seq<char>, PathLookup)>,
    new_entries: Map<Seq<char>, Option<CvMetadataSnapshotEntry>>,
    r: Result<(), crate::error::FsError>,
    i: int,
    p: Seq<char>,
)
    requires
        crate::delta::are_collected(m, old_entries, visits, new_entries, r),
    ensures
        r is Ok && 0 <= i < visits.len() ==> visits[i].1.is_clear(m)
            && new_entries.contains_key(visits[i].0),
        r is Ok && 0 <= i < visits.len() && (forall|j: int|
            i < j < visits.len() ==> (#[trigger] visits[j]).0 != visits[i].0) ==> visits[i].1.shows(
            m,
            visits[i].0,
            new_entries[visits[i].0],
        ),
        (forall|j: int| 0 <= j < visits.len() ==> (#[trigger] visits[j]).0 != p)
            ==> new_entries.contains_key(p) == old_entries.contains_key(p) && (
        old_entries.contains_key(p) ==> new_entries[p] == old_entries[p]),
        r matches Err(e) ==> exists|k: int|
            0 <= k < visits.len() && !(#[trigger] visits[k]).1.is_clear(m) && visits[k].1.fails(
                m,
                visits[k].0,
                e,
            ) && forall|j: int| 0 <= j < k ==> (#[trigger] visits[j]).1.is_clear(m),
{
    if r is Ok {
        last_lookup_counts(visits, p);
        if 0 <= i < visits.len() {
            last_lookup_counts(visits, visits[i].0);
            assert(visits[i].1.is_clear(m));
        }
        assert(crate::delta::last_lookup(visits, p) is Some
            || crate::delta::last_lookup(visits, p) is None);
    } else {
        let e = r->Err_0;
        let k = choose|k: int|
            #![trigger visits[k]]
            crate::delta::fails_first(m, visits, k, e) && crate::delta::is_overlaid(
                m,
                old_entries,
                visits.take(k),
                new_entries,
            );
        assert forall|j: int| 0 <= j < k implies (#[trigger] visits[j]).1.is_clear(m) by {
            assert(visits.take(k)[j] == visits[j]);
        }
        last_lookup_counts(visits.take(k), p);
        if forall|j: int| 0 <= j < visits.len() ==> (#[trigger] visits[j]).0 != p {
            assert forall|j: int| 0 <= j < k implies (#[trigger] visits.take(k)[j]).0 != p by {
                assert(visits[j].0 != p);
            }
            assert(crate::delta::last_lookup(visits.take(k), p) is None);
        }
    }
}

/// An inode is shown with its status at its path, and a file with its blocks,
/// each located; it can be shown where none of its blocks is faulty.
pub proof fn inodes_are_shown_with_their_blocks(
    m: ManagerView,
    path: Seq<char>,
    found: FoundInode,
    e: CvMetadataSnapshotEntry,
    i: int,
)
    requires
        crate::snapshot::is_entry_of(m, path, found, e),
    ensures
        e.status.path@ == path && e.status.id == found.status.id && e.status.name
            == found.status.name && e.status.len == found.status.len && e.status.is_dir
            == found.status.is_dir,
        e.blocks is Some <==> found.record is Some,
        found.record matches Some(r) ==> {
            let b = e.blocks->0;
            &&& b.status == e.status
            &&& b.block_locs@.len() == r.file.blocks@.len()
            &&& 0 <= i < r.file.blocks@.len() ==> b.block_locs@[i].block.id == r.file.blocks@[i].id
                && b.block_locs@[i].block.len == r.file.blocks@[i].len
        },
        found.is_whole(m),
{
    if found.record is Some {
        let r = found.record->0;
        let b = e.blocks->0;
        if 0 <= i < r.file.blocks@.len() {
            assert(b.block_locs@[i]@.block == b.block_locs@[i].block);
        }
        assert forall|k: int|
            0 <= k < r.file.blocks@.len() implies #[trigger] crate::namespace::block_fault(
            m,
            r.file,
            r.locations@,
            k,
        ) is None by {
            assert(b.block_locs@[k]@ == b.block_locs@[k]@);
        }
    }
}

/// A page goes past an inode that was found, and shows it only where all of
/// its blocks can be read.
pub proof fn pages_go_past_what_was_found(
    m: ManagerView,
    v: VisitView,
    found: Result<FoundInode, crate::error::FsError>,
    k: int,
)
    ensures
        found is Err ==> !crate::snapshot::is_passable(m, v, found),
        found matches Ok(f) ==> {
            &&& !v.emit ==> crate::snapshot::is_passable(m, v, found)
            &&& v.emit ==> (crate::snapshot::is_passable(m, v, found) <==> f.is_whole(m))
            &&& f.record is None ==> f.is_whole(m)
            &&& f.is_whole(m) && f.record is Some && 0 <= k < f.record->0.file.blocks@.len()
                ==> crate::namespace::block_fault(
                m,
                f.record->0.file,
                f.record->0.locations@,
                k,
            ) is None
        },
{
}

/// Texts are compared character by character: one is under another where it
/// goes on with a separator, before another in the order of the dictionary,
/// and what follows a beginning is the rest.
pub proof fn texts_are_compared_by_character(
    a: &str,
    b: &str,
    under: bool,
    first: bool,
    same: bool,
    rest: Option<String>,
)
    requires
        call_ensures(crate::text::text_is_under, (a, b), under),
        call_ensures(crate::text::text_before, (a, b), first),
        call_ensures(crate::text::same_text, (a, b), same),
        call_ensures(crate::text::text_after_prefix, (a, b), rest),
    ensures
        under <==> exists|r: Seq<char>| a@ == #[trigger] (b@.push('/') + r),
        first <==> exists|k: int| #[trigger]
            agree_up_to(a@, b@, k) && k < b@.len() && (k == a@.len() || a@[k] < b@[k]),
        same <==> a@ == b@,
        rest matches Some(r) ==> a@ == b@ + r@,
        rest is None ==> forall|r: Seq<char>| a@ != #[trigger] (b@ + r),
{
    prefixes_are_beginnings(a@, b@);
    order_goes_by_the_first_difference(a@, b@);
    if rest is Some {
        assert(a@ =~= b@ + (rest->0)@);
    }
}

/// A child's path and the place of a token are told from the paths alone.
pub proof fn places_are_told_by_path(
    parent: &str,
    name: &str,
    path: String,
    token: &str,
    inside: bool,
)
    requires
        call_ensures(crate::snapshot::child_snapshot_path, (parent, name), path),
        call_ensures(crate::snapshot::snapshot_token_in_subtree, (token, parent), inside),
    ensures
        parent@ == seq!['/'] ==> path@ == seq!['/'] + name@,
        parent@ != seq!['/'] ==> path@ == parent@ + seq!['/'] + name@,
        inside <==> token@ == parent@ || parent@ != seq!['/'] && exists|r: Seq<char>|
            token@ == #[trigger] (parent@.push('/') + r),
{
    children_lie_under_their_parent(parent@, name@);
    prefixes_are_beginnings(token@, parent@);
}

/// The changes show every path that was visited, once and in the order of the
/// dictionary, with what was found there last; they stop at a path that
/// cannot be shown.
pub proof fn changes_show_every_visited_path(
    fs: crate::master_filesystem::MasterFilesystem,
    changed: crate::delta::PathMap<bool>,
    nodes: Vec<DeltaNode>,
    i: int,
    j: int,
    r: Result<Vec<crate::delta::CvMetadataDeltaEntry>, crate::error::FsError>,
)
    requires
        call_ensures(
            crate::master_filesystem::MasterFilesystem::cv_metadata_delta_entries,
            (&fs, &changed, nodes),
            r,
        ),
    ensures
        ({
            let visits = crate::delta::delta_visits(changed.entries@, nodes@);
            &&& r matches Ok(s) ==> {
                &&& 0 <= i < visits.len() ==> crate::delta::entry_paths(s@).contains(visits[i].0)
                &&& 0 <= i < s@.len() ==> exists|k: int|
                    0 <= k < visits.len() && (#[trigger] visits[k]).0 == s@[i].path@
                        && visits[k].1.shows(fs@.manager, s@[i].path@, s@[i].entry)
                &&& 0 <= i < j < s@.len() ==> crate::text::before(s@[i].path@, s@[j].path@)
            }
            &&& r matches Err(e) ==> exists|k: int|
                0 <= k < visits.len() && !(#[trigger] visits[k]).1.is_clear(fs@.manager)
                    && visits[k].1.fails(fs@.manager, visits[k].0, e)
        }),
{
    let visits = crate::delta::delta_visits(changed.entries@, nodes@);
    if r is Ok {
        let s = r->Ok_0;
        let paths = crate::delta::entry_paths(s@);
        if 0 <= i < visits.len() {
            assert(crate::delta::visit_paths(visits)[i] == visits[i].0);
            assert(crate::delta::visit_paths(visits).contains(visits[i].0));
        }
        if 0 <= i < s@.len() {
            let l = crate::delta::last_lookup(visits, s@[i].path@);
            let k = found_last(visits, s@[i].path@);
            assert(visits[k].1 == l->0);
        }
        if 0 <= i < j < s@.len() {
            assert(paths[i] == s@[i].path@ && paths[j] == s@[j].path@);
        }
    }
}

proof fn found_last(visits: Seq<(Seq<char>, PathLookup)>, path: Seq<char>) -> (k: int)
    requires
        crate::delta::last_lookup(visits, path) is Some,
    ensures
        0 <= k < visits.len(),
        visits[k].0 == path,
        crate::delta::last_lookup(visits, path) == Some(visits[k].1),
    decreases visits.len(),
{
    if visits.last().0 == path {
        visits.len() - 1
    } else {
        let k = found_last(visits.drop_last(), path);
        assert(visits.drop_last()[k] == visits[k]);
        k
    }
}

} // verus!
