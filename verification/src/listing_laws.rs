//! When the listing of a tree is in dictionary order.

use vstd::prelude::*;

use crate::snapshot::InodeNode;

verus! {

/// `b` continues `a`.
pub open spec fn continues(b: Seq<char>, a: Seq<char>) -> bool {
    a.len() < b.len() && b.take(a.len() as int) == a
}

/// Two siblings are listed in dictionary order, with all that lies below
/// them: where the second name continues that of a directory with children,
/// it goes on with a character behind the separator.
pub open spec fn siblings_in_order(first: InodeNode, second: InodeNode) -> bool {
    crate::text::before(first.name@, second.name@) && (first.is_dir && first.children@.len() > 0
        && continues(second.name@, first.name@) ==> '/' < second.name@[first.name@.len() as int])
}

/// The children of every directory have names, and are in order.
pub open spec fn names_in_order(node: InodeNode) -> bool
    decreases node,
{
    node.is_dir ==> {
        &&& forall|i: int, j: int|
            #![trigger node.children@[i], node.children@[j]]
            0 <= i < j < node.children@.len() ==> siblings_in_order(
                node.children@[i],
                node.children@[j],
            )
        &&& forall|i: int|
            0 <= i < node.children@.len() ==> (#[trigger] node.children@[i]).name@.len() > 0
                && names_in_order(node.children@[i])
    }
}

/// Texts that are in order stay in order when they are continued, unless the
/// first one is continued across the second.
proof fn continued_texts_stay_in_order(
    x: Seq<char>,
    y: Seq<char>,
    rx: Seq<char>,
    ry: Seq<char>,
)
    requires
        crate::text::before(x, y),
        continues(y, x) && rx.len() > 0 ==> rx[0] < y[x.len() as int],
    ensures
        crate::text::before(x + rx, y + ry),
    decreases x.len(),
{
    let a = x + rx;
    let b = y + ry;
    if x.len() == 0 {
        assert(a =~= rx);
        if rx.len() > 0 {
            assert(y.take(0) =~= x);
            assert(b[0] == y[0]);
        }
    } else if x[0] == y[0] {
        let x1 = x.drop_first();
        let y1 = y.drop_first();
        if continues(y1, x1) {
            assert(y.take(x.len() as int) =~= x) by {
                assert forall|i: int| 0 <= i < x.len() implies y[i] == x[i] by {
                    if i > 0 {
                        assert(y1.take(x1.len() as int)[i - 1] == x1[i - 1]);
                    }
                }
            }
            assert(y1[x1.len() as int] == y[x.len() as int]);
        }
        continued_texts_stay_in_order(x1, y1, rx, ry);
        assert(a.drop_first() =~= x1 + rx);
        assert(b.drop_first() =~= y1 + ry);
    }
}

/// A text comes before its continuations.
proof fn beginning_comes_first(a: Seq<char>, b: Seq<char>)
    requires
        continues(b, a),
    ensures
        crate::text::before(a, b),
{
    assert forall|i: int| 0 <= i < a.len() implies a[i] == b[i] by {
        assert(b.take(a.len() as int)[i] == a[i]);
    }
    crate::text::before_unfolds(a, b, a.len() as int);
    assert(b.skip(a.len() as int).len() > 0);
}

/// The part of a path at or under `dir` that is behind `dir`.
proof fn behind(q: Seq<char>, dir: Seq<char>) -> (rest: Seq<char>)
    requires
        q == dir || crate::text::is_under(q, dir),
    ensures
        q == dir + rest,
        q != dir ==> rest.len() > 0 && rest[0] == '/',
        q == dir ==> rest.len() == 0,
{
    let rest = q.skip(dir.len() as int);
    assert(q =~= dir + rest) by {
        if q != dir {
            assert forall|i: int| 0 <= i < dir.len() implies q[i] == dir[i] by {
                assert(q.take(dir.len() as int)[i] == dir[i]);
            }
        }
    }
    rest
}

/// All that is listed at one sibling comes before all that is listed at a
/// later one.
proof fn subtrees_in_order(
    path: Seq<char>,
    first: InodeNode,
    second: InodeNode,
    a: Seq<char>,
    b: Seq<char>,
)
    requires
        path.len() > 0,
        siblings_in_order(first, second),
        first.name@.len() > 0,
        second.name@.len() > 0,
        crate::snapshot::listing(
            first,
            crate::snapshot::child_path(path, first.name@),
        ).contains(a),
        crate::snapshot::listing(
            second,
            crate::snapshot::child_path(path, second.name@),
        ).contains(b),
    ensures
        crate::text::before(a, b),
{
    let p = crate::snapshot::child_path(path, first.name@);
    let q = crate::snapshot::child_path(path, second.name@);
    let base = if path == crate::snapshot::root_path() {
        path
    } else {
        path.push('/')
    };
    child_is_not_root(path, first.name@);
    child_is_not_root(path, second.name@);
    crate::paging_laws::listing_stays_inside(first, p);
    crate::paging_laws::listing_stays_inside(second, q);
    let ra = behind(a, p);
    let rb = behind(b, q);
    if a != p {
        only_directories_reach_below(first, p, a);
    }
    continued_texts_stay_in_order(first.name@, second.name@, ra, rb);
    assert(a =~= base + (first.name@ + ra));
    assert(b =~= base + (second.name@ + rb));
    crate::text::before_unfolds(a, b, base.len() as int);
    assert(a.skip(base.len() as int) =~= first.name@ + ra);
    assert(b.skip(base.len() as int) =~= second.name@ + rb);
}

proof fn child_is_not_root(path: Seq<char>, name: Seq<char>)
    requires
        path.len() > 0,
        name.len() > 0,
    ensures
        crate::snapshot::child_path(path, name) != crate::snapshot::root_path(),
        crate::snapshot::child_path(path, name).len() > path.len(),
        continues(crate::snapshot::child_path(path, name), path),
{
    let c = crate::snapshot::child_path(path, name);
    assert(c.take(path.len() as int) =~= path);
    assert(crate::snapshot::root_path().len() == 1);
}

proof fn only_directories_reach_below(node: InodeNode, path: Seq<char>, q: Seq<char>)
    requires
        crate::snapshot::listing(node, path).contains(q),
        q != path,
    ensures
        node.is_dir,
        node.children@.len() > 0,
{
    let all = crate::snapshot::listing(node, path);
    let i = choose|i: int| 0 <= i < all.len() && all[i] == q;
    if node.is_dir && node.children@.len() == 0 {
        assert(crate::snapshot::children_listing(node, path, 0).len() == 0);
    }
}

/// A tree whose names are in order is listed in dictionary order, so that its
/// pages, put together, miss nothing.
pub proof fn names_in_order_sort_the_listing(node: InodeNode, path: Seq<char>)
    requires
        path.len() > 0,
        names_in_order(node),
    ensures
        crate::delta::sorted_paths(crate::snapshot::listing(node, path)),
    decreases node, node.children@.len() + 2,
{
    let all = crate::snapshot::listing(node, path);
    if node.is_dir {
        let n = node.children@.len();
        let kids = crate::snapshot::children_listing(node, path, n);
        children_are_sorted(node, path, n);
        assert forall|i: int, j: int| 0 <= i < j < all.len() implies crate::text::before(
            #[trigger] all[i],
            #[trigger] all[j],
        ) by {
            assert(all[j] == kids[j - 1]);
            assert(kids.contains(kids[j - 1]));
            if i > 0 {
                assert(all[i] == kids[i - 1]);
            } else {
                beginning_comes_first(path, all[j]);
            }
        }
    }
}

/// Following the tokens lists a tree whose names are in order as a whole, each
/// path once and in order; every page but the last is full.
pub proof fn pages_cover_an_ordered_tree(root: InodeNode, page_size: usize, n: nat)
    requires
        page_size > 0,
        crate::paging_laws::fits_the_greatest_page(root, page_size),
        names_in_order(root),
        n >= crate::snapshot::listing(root, crate::snapshot::root_path()).len(),
    ensures
        crate::paging_laws::snapshot_pages(root, page_size, n).done,
        crate::paging_laws::snapshot_pages(root, page_size, n).listed == crate::snapshot::listing(
            root,
            crate::snapshot::root_path(),
        ),
        crate::delta::sorted_paths(crate::paging_laws::snapshot_pages(root, page_size, n).listed),
        forall|k: nat|
            #![trigger crate::paging_laws::snapshot_pages(root, page_size, k)]
            !crate::paging_laws::snapshot_pages(root, page_size, k).done
                ==> crate::paging_laws::is_one_page(
                crate::paging_laws::snapshot_pages(root, page_size, k),
                crate::paging_laws::snapshot_pages(root, page_size, k + 1),
                page_size as nat,
            ),
{
    names_in_order_sort_the_listing(root, crate::snapshot::root_path());
    crate::paging_laws::snapshot_pages_cover_the_listing(root, page_size, n);
}

proof fn children_are_sorted(node: InodeNode, path: Seq<char>, n: nat)
    requires
        path.len() > 0,
        names_in_order(node),
        node.is_dir,
        n <= node.children@.len(),
    ensures
        crate::delta::sorted_paths(crate::snapshot::children_listing(node, path, n)),
        forall|q: Seq<char>| #[trigger]
            crate::snapshot::children_listing(node, path, n).contains(q) ==> continues(q, path)
                && is_listed_at(node, path, n, q),
    decreases node, n + 1,
{
    if n > 0 {
        let a = crate::snapshot::children_listing(node, path, (n - 1) as nat);
        let child = node.children@[n - 1];
        let c = crate::snapshot::child_path(path, child.name@);
        let b = crate::snapshot::listing(child, c);
        children_are_sorted(node, path, (n - 1) as nat);
        child_is_not_root(path, child.name@);
        names_in_order_sort_the_listing(child, c);
        crate::paging_laws::listing_stays_inside(child, c);
        let all = a + b;
        assert forall|q: Seq<char>| #[trigger] all.contains(q) implies continues(q, path)
            && is_listed_at(node, path, n, q) by {
            let i = choose|i: int| 0 <= i < all.len() && all[i] == q;
            if i < a.len() {
                assert(a[i] == q);
                assert(a.contains(q));
                let k = choose|k: int|
                    0 <= k < n - 1 && #[trigger] is_listed_by(node, path, k, q);
                assert(is_listed_by(node, path, k, q));
            } else {
                assert(b[i - a.len()] == q);
                assert(b.contains(q));
                assert(is_listed_by(node, path, n - 1, q));
                let rest = behind(q, c);
                assert(q.take(path.len() as int) =~= c.take(path.len() as int));
            }
        }
        assert forall|i: int, j: int| 0 <= i < j < all.len() implies crate::text::before(
            #[trigger] all[i],
            #[trigger] all[j],
        ) by {
            if j < a.len() {
                assert(all[i] == a[i] && all[j] == a[j]);
            } else if i >= a.len() {
                assert(all[i] == b[i - a.len()] && all[j] == b[j - a.len()]);
            } else {
                assert(all[i] == a[i] && all[j] == b[j - a.len()]);
                assert(a.contains(a[i]));
                assert(b.contains(all[j]));
                let k = choose|k: int|
                    0 <= k < n - 1 && #[trigger] is_listed_by(node, path, k, a[i]);
                subtrees_in_order(path, node.children@[k], child, a[i], all[j]);
            }
        }
    }
}

/// The path is listed at one of the first `n` children.
spec fn is_listed_at(node: InodeNode, path: Seq<char>, n: nat, q: Seq<char>) -> bool {
    exists|k: int| 0 <= k < n && #[trigger] is_listed_by(node, path, k, q)
}

/// The path is listed at the child.
spec fn is_listed_by(node: InodeNode, path: Seq<char>, k: int, q: Seq<char>) -> bool {
    let child = node.children@[k];
    crate::snapshot::listing(child, crate::snapshot::child_path(path, child.name@)).contains(q)
}

} // verus!
