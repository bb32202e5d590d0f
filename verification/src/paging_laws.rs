//! Pages of a listing, put together, give the listing.

use vstd::prelude::*;

use crate::delta::sorted_paths;
use crate::snapshot::{CvMetadataSnapshotEntry, CvMetadataSnapshotPage, InodeNode, VisitView};

verus! {

/// The paths after the token, in order.
pub open spec fn after(paths: Seq<Seq<char>>, token: Option<Seq<char>>) -> Seq<Seq<char>>
    decreases paths.len(),
{
    if paths.len() == 0 {
        Seq::empty()
    } else {
        let rest = after(paths.drop_last(), token);
        if crate::snapshot::is_after(paths.last(), token) {
            rest.push(paths.last())
        } else {
            rest
        }
    }
}

/// The paths that the visits show, in order.
pub open spec fn emitted(v: Seq<VisitView>) -> Seq<Seq<char>>
    decreases v.len(),
{
    if v.len() == 0 {
        Seq::empty()
    } else if v[0].emit {
        seq![v[0].path] + emitted(v.drop_first())
    } else {
        emitted(v.drop_first())
    }
}

proof fn after_of_sum(a: Seq<Seq<char>>, b: Seq<Seq<char>>, token: Option<Seq<char>>)
    ensures
        after(a + b, token) == after(a, token) + after(b, token),
    decreases b.len(),
{
    if b.len() == 0 {
        assert(a + b =~= a);
        assert(after(a, token) + after(b, token) =~= after(a, token));
    } else {
        after_of_sum(a, b.drop_last(), token);
        assert((a + b).drop_last() =~= a + b.drop_last());
        assert((a + b).last() == b.last());
        assert(after(a + b, token) =~= after(a, token) + after(b, token));
    }
}

/// What two parts of a listing show adds up.
pub proof fn emitted_of_sum(a: Seq<VisitView>, b: Seq<VisitView>)
    ensures
        emitted(a + b) == emitted(a) + emitted(b),
    decreases a.len(),
{
    if a.len() == 0 {
        assert(a + b =~= b);
        assert(emitted(a) + emitted(b) =~= emitted(b));
    } else {
        emitted_of_sum(a.drop_first(), b);
        assert((a + b).drop_first() =~= a.drop_first() + b);
        assert((a + b)[0] == a[0]);
        assert(emitted(a + b) =~= emitted(a) + emitted(b));
    }
}

/// A listing that is cut shows the first paths of the whole.
proof fn cut_shows_the_first(v: Seq<VisitView>, budget: nat)
    ensures
        emitted(crate::snapshot::cut(v, budget)) == (if emitted(v).len() <= budget {
            emitted(v)
        } else {
            emitted(v).take(budget as int)
        }),
    decreases v.len(),
{
    let c = crate::snapshot::cut(v, budget);
    if v.len() == 0 || budget == 0 {
        assert(emitted(c) =~= Seq::<Seq<char>>::empty());
        assert(emitted(v).take(0) =~= Seq::<Seq<char>>::empty());
        if emitted(v).len() == 0 {
            assert(emitted(v) =~= Seq::<Seq<char>>::empty());
        }
    } else {
        let rest = if v[0].emit {
            (budget - 1) as nat
        } else {
            budget
        };
        cut_shows_the_first(v.drop_first(), rest);
        assert(c[0] == v[0]);
        assert(c.drop_first() =~= crate::snapshot::cut(v.drop_first(), rest));
        let w = emitted(v.drop_first());
        if v[0].emit {
            if w.len() > rest {
                assert(seq![v[0].path] + w.take(rest as int) =~= (seq![v[0].path] + w).take(
                    budget as int,
                ));
            }
        }
    }
}

/// With respect to the token, the paths contain it, or all precede it, or all
/// follow it.
spec fn is_split_by(paths: Seq<Seq<char>>, token: Option<Seq<char>>) -> bool {
    match token {
        None => true,
        Some(t) => {
            ||| paths.contains(t)
            ||| forall|i: int| 0 <= i < paths.len() ==> crate::text::before(#[trigger] paths[i], t)
            ||| forall|i: int| 0 <= i < paths.len() ==> crate::text::before(t, #[trigger] paths[i])
        },
    }
}

/// A part of a sorted listing is sorted and split by the same token.
proof fn part_is_split(
    a: Seq<Seq<char>>,
    b: Seq<Seq<char>>,
    c: Seq<Seq<char>>,
    token: Option<Seq<char>>,
)
    requires
        sorted_paths(a + b + c),
        is_split_by(a + b + c, token),
    ensures
        sorted_paths(b),
        is_split_by(b, token),
{
    let whole = a + b + c;
    assert forall|i: int, j: int|
        #![trigger b[i], b[j]]
        0 <= i < j < b.len() implies crate::text::before(b[i], b[j]) by {
        assert(whole[a.len() + i] == b[i]);
        assert(whole[a.len() + j] == b[j]);
    }
    if token is Some {
        let t = token->0;
        if whole.contains(t) {
            let m = choose|m: int| 0 <= m < whole.len() && whole[m] == t;
            if a.len() <= m < a.len() + b.len() {
                assert(b[m - a.len()] == t);
            } else if m < a.len() {
                assert forall|i: int| 0 <= i < b.len() implies crate::text::before(
                    t,
                    #[trigger] b[i],
                ) by {
                    assert(whole[a.len() + i] == b[i]);
                    assert(crate::text::before(whole[m], whole[a.len() + i]));
                }
            } else {
                assert forall|i: int| 0 <= i < b.len() implies crate::text::before(
                    #[trigger] b[i],
                    t,
                ) by {
                    assert(whole[a.len() + i] == b[i]);
                    assert(crate::text::before(whole[a.len() + i], whole[m]));
                }
            }
        } else if forall|i: int|
            0 <= i < whole.len() ==> crate::text::before(#[trigger] whole[i], t) {
            assert forall|i: int| 0 <= i < b.len() implies crate::text::before(
                #[trigger] b[i],
                t,
            ) by {
                assert(whole[a.len() + i] == b[i]);
            }
        } else {
            assert forall|i: int| 0 <= i < b.len() implies crate::text::before(
                t,
                #[trigger] b[i],
            ) by {
                assert(whole[a.len() + i] == b[i]);
            }
        }
    }
}

/// Where all paths precede the token, none comes after it.
proof fn none_after(paths: Seq<Seq<char>>, t: Seq<char>)
    requires
        forall|i: int| 0 <= i < paths.len() ==> crate::text::before(#[trigger] paths[i], t),
    ensures
        after(paths, Some(t)) == Seq::<Seq<char>>::empty(),
    decreases paths.len(),
{
    if paths.len() > 0 {
        assert forall|i: int| 0 <= i < paths.drop_last().len() implies crate::text::before(
            #[trigger] paths.drop_last()[i],
            t,
        ) by {
            assert(paths[i] == paths.drop_last()[i]);
        }
        none_after(paths.drop_last(), t);
        assert(crate::text::before(paths[paths.len() - 1], t));
        crate::text::before_is_total(paths.last(), t);
    }
}

/// What lies under something under `dir` lies under `dir`.
proof fn under_is_transitive(s: Seq<char>, mid: Seq<char>, dir: Seq<char>)
    requires
        crate::text::is_under(s, mid),
        crate::text::is_under(mid, dir),
    ensures
        crate::text::is_under(s, dir),
{
    assert(s.take(dir.len() as int) =~= mid.take(dir.len() as int)) by {
        assert forall|i: int| 0 <= i < dir.len() implies s[i] == mid[i] by {
            assert(s.take(mid.len() as int)[i] == mid[i]);
        }
    }
    assert(s.take(mid.len() as int)[dir.len() as int] == mid[dir.len() as int]);
}

/// Every path of a subtree other than the root's own lies at or under it.
pub proof fn listing_stays_inside(node: InodeNode, path: Seq<char>)
    requires
        path.len() > 0,
        path != crate::snapshot::root_path(),
    ensures
        forall|q: Seq<char>| #[trigger]
            crate::snapshot::listing(node, path).contains(q) ==> q == path
                || crate::text::is_under(q, path),
    decreases node, node.children@.len() + 2,
{
    let all = crate::snapshot::listing(node, path);
    if node.is_dir {
        children_stay_inside(node, path, node.children@.len());
        let kids = crate::snapshot::children_listing(node, path, node.children@.len());
        assert forall|q: Seq<char>| #[trigger] all.contains(q) implies q == path
            || crate::text::is_under(q, path) by {
            let i = choose|i: int| 0 <= i < all.len() && all[i] == q;
            if i > 0 {
                assert(kids[i - 1] == q);
                assert(kids.contains(q));
            }
        }
    }
}

proof fn children_stay_inside(node: InodeNode, path: Seq<char>, n: nat)
    requires
        path.len() > 0,
        path != crate::snapshot::root_path(),
        n <= node.children@.len(),
    ensures
        forall|q: Seq<char>| #[trigger]
            crate::snapshot::children_listing(node, path, n).contains(q)
                ==> crate::text::is_under(q, path),
    decreases node, n + 1,
{
    if n > 0 {
        children_stay_inside(node, path, (n - 1) as nat);
        let child = node.children@[n - 1];
        let c = crate::snapshot::child_path(path, child.name@);
        assert(crate::text::is_under(c, path)) by {
            assert(c.take(path.len() as int) =~= path);
        }
        listing_stays_inside(child, c);
        let a = crate::snapshot::children_listing(node, path, (n - 1) as nat);
        let b = crate::snapshot::listing(child, c);
        assert forall|q: Seq<char>| #[trigger] (a + b).contains(q) implies crate::text::is_under(
            q,
            path,
        ) by {
            let i = choose|i: int| 0 <= i < (a + b).len() && (a + b)[i] == q;
            if i < a.len() {
                assert(a[i] == q);
                assert(a.contains(q));
            } else {
                assert(b[i - a.len()] == q);
                assert(b.contains(q));
                if q != c {
                    under_is_transitive(q, c, path);
                }
            }
        }
    }
}

/// The first path of a listing is that of its root.
proof fn listing_begins(node: InodeNode, path: Seq<char>)
    ensures
        crate::snapshot::listing(node, path).len() > 0,
        crate::snapshot::listing(node, path)[0] == path,
{
}

/// A listing without limit shows exactly the paths after the token: what it
/// passes over holds none of them.
proof fn visits_show_what_is_after(node: InodeNode, path: Seq<char>, token: Option<Seq<char>>)
    requires
        path.len() > 0,
        sorted_paths(crate::snapshot::listing(node, path)),
        is_split_by(crate::snapshot::listing(node, path), token),
    ensures
        emitted(crate::snapshot::visits(node, path, token)) == after(
            crate::snapshot::listing(node, path),
            token,
        ),
    decreases node, node.children@.len() + 2,
{
    let all = crate::snapshot::listing(node, path);
    listing_begins(node, path);
    if crate::snapshot::is_passed(path, token) {
        let t = token->0;
        listing_stays_inside(node, path);
        assert(!all.contains(t));
        crate::text::before_is_total(path, t);
        assert(!crate::text::before(t, all[0]));
        none_after(all, t);
        assert(emitted(crate::snapshot::visits(node, path, token)) =~= Seq::<Seq<char>>::empty());
    } else {
        let first = seq![path];
        let visit = seq![crate::snapshot::visit_of(node, path, token)];
        reveal_with_fuel(after, 2);
        reveal_with_fuel(emitted, 2);
        assert(first.drop_last() =~= Seq::<Seq<char>>::empty());
        assert(visit.drop_first() =~= Seq::<VisitView>::empty());
        assert(emitted(visit) =~= after(first, token));
        if node.is_dir {
            let n = node.children@.len();
            let kids = crate::snapshot::children_listing(node, path, n);
            assert(first + kids + Seq::<Seq<char>>::empty() =~= all);
            part_is_split(first, kids, Seq::empty(), token);
            if path == crate::snapshot::root_path() {
                assert forall|i: int| 0 <= i < kids.len() implies #[trigger] kids[i] != path by {
                    assert(all[i + 1] == kids[i]);
                    crate::text::before_is_total(path, path);
                    assert(crate::text::before(all[0], all[i + 1]));
                }
            }
            children_show_what_is_after(node, path, token, n);
            after_of_sum(first, kids, token);
            emitted_of_sum(visit, crate::snapshot::children_visits(node, path, token, n));
        }
    }
}

proof fn children_show_what_is_after(
    node: InodeNode,
    path: Seq<char>,
    token: Option<Seq<char>>,
    n: nat,
)
    requires
        path.len() > 0,
        n <= node.children@.len(),
        sorted_paths(crate::snapshot::children_listing(node, path, n)),
        is_split_by(crate::snapshot::children_listing(node, path, n), token),
    ensures
        emitted(crate::snapshot::children_visits(node, path, token, n)) == after(
            crate::snapshot::children_listing(node, path, n),
            token,
        ),
    decreases node, n + 1,
{
    if n > 0 {
        let child = node.children@[n - 1];
        let c = crate::snapshot::child_path(path, child.name@);
        let a = crate::snapshot::children_listing(node, path, (n - 1) as nat);
        let b = crate::snapshot::listing(child, c);
        let none = Seq::<Seq<char>>::empty();
        assert(none + a + b =~= a + b);
        assert(a + b + none =~= a + b);
        part_is_split(none, a, b, token);
        part_is_split(a, b, none, token);
        children_show_what_is_after(node, path, token, (n - 1) as nat);
        visits_show_what_is_after(child, c, token);
        after_of_sum(a, b, token);
        emitted_of_sum(
            crate::snapshot::children_visits(node, path, token, (n - 1) as nat),
            crate::snapshot::visits(child, c, token),
        );
    } else {
        assert(emitted(crate::snapshot::children_visits(node, path, token, 0)) =~= Seq::<
            Seq<char>,
        >::empty());
    }
}

/// In a sorted listing, the paths after one of them are those behind it; and
/// all paths are after no token.
pub proof fn token_resumes_behind_it(paths: Seq<Seq<char>>, i: int)
    requires
        sorted_paths(paths),
        0 <= i <= paths.len(),
    ensures
        after(paths, if i == 0 {
            None
        } else {
            Some(paths[i - 1])
        }) == paths.skip(i),
    decreases paths.len(),
{
    let token = if i == 0 {
        None
    } else {
        Some(paths[i - 1])
    };
    if paths.len() == 0 {
        assert(after(paths, token) =~= paths.skip(i));
    } else if i == paths.len() {
        let t = paths[i - 1];
        none_after_last(paths, t);
        assert(paths.skip(i) =~= Seq::<Seq<char>>::empty());
    } else {
        let shorter = paths.drop_last();
        assert(sorted_paths(shorter)) by {
            assert forall|a: int, b: int|
                #![trigger shorter[a], shorter[b]]
                0 <= a < b < shorter.len() implies crate::text::before(shorter[a], shorter[b]) by {
                assert(shorter[a] == paths[a] && shorter[b] == paths[b]);
            }
        }
        token_resumes_behind_it(shorter, i);
        if i > 0 {
            assert(shorter[i - 1] == paths[i - 1]);
            assert(crate::text::before(paths[i - 1], paths[paths.len() - 1]));
        }
        assert(after(paths, token) =~= paths.skip(i)) by {
            assert(shorter.skip(i).push(paths.last()) =~= paths.skip(i));
        }
    }
}

proof fn none_after_last(paths: Seq<Seq<char>>, t: Seq<char>)
    requires
        sorted_paths(paths),
        paths.len() > 0,
        t == paths.last(),
    ensures
        after(paths, Some(t)) == Seq::<Seq<char>>::empty(),
{
    let shorter = paths.drop_last();
    assert forall|i: int| 0 <= i < shorter.len() implies crate::text::before(
        #[trigger] shorter[i],
        t,
    ) by {
        assert(shorter[i] == paths[i]);
        assert(crate::text::before(paths[i], paths[paths.len() - 1]));
    }
    none_after(shorter, t);
    crate::text::before_is_total(t, t);
}

/// How far a client has come that asks for page after page.
#[verifier::ext_equal]
pub struct Paging {
    pub listed: Seq<Seq<char>>,
    pub token: Option<Seq<char>>,
    pub done: bool,
}

impl Paging {
    /// The client adds a page made of what remains after its token.
    pub open spec fn with_page(self, remaining: Seq<Seq<char>>, page_size: nat) -> Paging {
        if self.done {
            self
        } else if remaining.len() > page_size {
            Paging {
                listed: self.listed + remaining.take(page_size as int),
                token: Some(remaining[page_size - 1]),
                done: false,
            }
        } else {
            Paging { listed: self.listed + remaining, token: None, done: true }
        }
    }
}

/// The client after `n` pages of the namespace's listing.
pub open spec fn snapshot_pages(root: InodeNode, page_size: usize, n: nat) -> Paging
    decreases n,
{
    if n == 0 {
        Paging { listed: Seq::empty(), token: None, done: false }
    } else {
        let before = snapshot_pages(root, page_size, (n - 1) as nat);
        before.with_page(
            emitted(
                crate::snapshot::cut(
                    crate::snapshot::visits(root, crate::snapshot::root_path(), before.token),
                    crate::snapshot::page_budget(page_size),
                ),
            ),
            page_size as nat,
        )
    }
}

/// The client after `n` pages of changes.
pub open spec fn delta_pages(paths: Seq<Seq<char>>, page_size: usize, n: nat) -> Paging
    decreases n,
{
    if n == 0 {
        Paging { listed: Seq::empty(), token: None, done: false }
    } else {
        let before = delta_pages(paths, page_size, (n - 1) as nat);
        before.with_page(after(paths, before.token), page_size as nat)
    }
}

/// A client that follows the tokens has either seen everything, or the first
/// part of the listing, with the token at its end.
spec fn on_track(p: Paging, paths: Seq<Seq<char>>, n: nat) -> bool {
    if p.done {
        p.listed == paths
    } else {
        exists|c: int|
            #![trigger paths.take(c)]
            n <= c <= paths.len() && (n > 0 ==> c < paths.len()) && p.listed == paths.take(c)
                && p.token == (if c == 0 {
                None
            } else {
                Some(paths[c - 1])
            })
    }
}

proof fn page_keeps_track(
    p: Paging,
    paths: Seq<Seq<char>>,
    remaining: Seq<Seq<char>>,
    page_size: nat,
    n: nat,
)
    requires
        sorted_paths(paths),
        page_size > 0,
        on_track(p, paths, n),
        !p.done && after(paths, p.token).len() <= page_size ==> remaining == after(paths, p.token),
        !p.done && after(paths, p.token).len() > page_size ==> remaining.len() > page_size
            && remaining.take(page_size as int) == after(paths, p.token).take(page_size as int),
    ensures
        on_track(p.with_page(remaining, page_size), paths, n + 1),
{
    if !p.done {
        let c = choose|c: int|
            #![trigger paths.take(c)]
            n <= c <= paths.len() && (n > 0 ==> c < paths.len()) && p.listed == paths.take(c)
                && p.token == (if c == 0 {
                None
            } else {
                Some(paths[c - 1])
            });
        token_resumes_behind_it(paths, c);
        let rest = paths.skip(c);
        let q = p.with_page(remaining, page_size);
        if rest.len() > page_size {
            let d = c + page_size;
            assert(paths.take(c) + rest.take(page_size as int) =~= paths.take(d));
            assert(remaining[page_size - 1] == remaining.take(page_size as int)[page_size - 1]);
            assert(rest.take(page_size as int)[page_size - 1] == paths[d - 1]);
        } else {
            assert(paths.take(c) + rest =~= paths);
        }
    }
}

/// What one more page brings to a client: at most as many paths as a page
/// holds, and exactly that many where the page has a token, which is then its
/// last path. Without a token the client is done.
pub open spec fn is_one_page(before: Paging, next: Paging, page_size: nat) -> bool {
    let page = next.listed.skip(before.listed.len() as int);
    &&& next.listed == before.listed + page
    &&& page.len() <= page_size
    &&& next.done == (next.token is None)
    &&& next.token matches Some(t) ==> page.len() == page_size && page.last() == t
}

proof fn page_is_one_page(p: Paging, remaining: Seq<Seq<char>>, page_size: nat)
    requires
        !p.done,
        page_size > 0,
    ensures
        is_one_page(p, p.with_page(remaining, page_size), page_size),
{
    let q = p.with_page(remaining, page_size);
    let page = if remaining.len() > page_size {
        remaining.take(page_size as int)
    } else {
        remaining
    };
    assert(q.listed.skip(p.listed.len() as int) =~= page);
}

/// A client that adds the page which is made of what its plan shows has made
/// one step.
pub proof fn page_is_one_step(
    before: Paging,
    entries: Seq<CvMetadataSnapshotEntry>,
    page_size: usize,
    page: CvMetadataSnapshotPage,
)
    requires
        !before.done,
        page_size > 0,
        page.is_cut_of(entries, page_size),
    ensures
        before.with_page(crate::snapshot::snapshot_paths(entries), page_size as nat) == (Paging {
            listed: before.listed + crate::snapshot::snapshot_paths(page.entries@),
            token: crate::model::text_of(page.next_page_token),
            done: page.next_page_token is None,
        }),
{
    let paths = crate::snapshot::snapshot_paths(entries);
    if entries.len() > page_size {
        assert(crate::snapshot::snapshot_paths(page.entries@) =~= paths.take(page_size as int));
        assert(paths[page_size - 1] == entries[page_size - 1].status.path@);
    }
}

/// Following the tokens lists the whole namespace, each path once and in
/// order, where the listing is in dictionary order; every page but the last is
/// full. The listing is one that a page of the greatest size can hold.
pub proof fn snapshot_pages_cover_the_listing(root: InodeNode, page_size: usize, n: nat)
    requires
        page_size > 0,
        fits_the_greatest_page(root, page_size),
        sorted_paths(crate::snapshot::listing(root, crate::snapshot::root_path())),
        n >= crate::snapshot::listing(root, crate::snapshot::root_path()).len(),
    ensures
        snapshot_pages(root, page_size, n).done,
        snapshot_pages(root, page_size, n).listed == crate::snapshot::listing(
            root,
            crate::snapshot::root_path(),
        ),
        forall|k: nat|
            #![trigger snapshot_pages(root, page_size, k)]
            !snapshot_pages(root, page_size, k).done ==> is_one_page(
                snapshot_pages(root, page_size, k),
                snapshot_pages(root, page_size, k + 1),
                page_size as nat,
            ),
        forall|k: nat|
            #![trigger snapshot_pages(root, page_size, k)]
            snapshot_pages(root, page_size, k).token matches Some(t) ==> t.len() > 0,
{
    let paths = crate::snapshot::listing(root, crate::snapshot::root_path());
    listing_begins(root, crate::snapshot::root_path());
    snapshot_stays_on_track(root, page_size, n);
    assert forall|k: nat|
        #![trigger snapshot_pages(root, page_size, k)]
        !snapshot_pages(root, page_size, k).done implies is_one_page(
        snapshot_pages(root, page_size, k),
        snapshot_pages(root, page_size, k + 1),
        page_size as nat,
    ) by {
        let p = snapshot_pages(root, page_size, k);
        page_is_one_page(
            p,
            emitted(
                crate::snapshot::cut(
                    crate::snapshot::visits(root, crate::snapshot::root_path(), p.token),
                    crate::snapshot::page_budget(page_size),
                ),
            ),
            page_size as nat,
        );
    }
    assert forall|k: nat|
        #![trigger snapshot_pages(root, page_size, k)]
        snapshot_pages(root, page_size, k).token is Some implies snapshot_pages(
        root,
        page_size,
        k,
    ).token->0.len() > 0 by {
        token_stands_in_the_listing(root, page_size, k);
        let t = snapshot_pages(root, page_size, k).token->0;
        let i = choose|i: int| 0 <= i < paths.len() && paths[i] == t;
        if i > 0 {
            assert(crate::text::before(paths[0], paths[i]));
        }
    }
}

/// A page of the greatest size cannot count one entry more than it holds: it
/// can only hold a listing that is not longer.
pub open spec fn fits_the_greatest_page(root: InodeNode, page_size: usize) -> bool {
    page_size == usize::MAX ==> crate::snapshot::listing(
        root,
        crate::snapshot::root_path(),
    ).len() <= usize::MAX
}

proof fn token_stands_in_the_listing(root: InodeNode, page_size: usize, k: nat)
    requires
        page_size > 0,
        fits_the_greatest_page(root, page_size),
        sorted_paths(crate::snapshot::listing(root, crate::snapshot::root_path())),
        snapshot_pages(root, page_size, k).token is Some,
    ensures
        crate::snapshot::listing(root, crate::snapshot::root_path()).contains(
            snapshot_pages(root, page_size, k).token->0,
        ),
    decreases k,
{
    let paths = crate::snapshot::listing(root, crate::snapshot::root_path());
    snapshot_stays_on_track(root, page_size, k);
    let p = snapshot_pages(root, page_size, k);
    if p.done {
        let before = snapshot_pages(root, page_size, (k - 1) as nat);
        assert(before.done);
        token_stands_in_the_listing(root, page_size, (k - 1) as nat);
    } else {
        let c = choose|c: int|
            #![trigger paths.take(c)]
            k <= c <= paths.len() && (k > 0 ==> c < paths.len()) && p.listed == paths.take(c)
                && p.token == (if c == 0 {
                None
            } else {
                Some(paths[c - 1])
            });
        assert(paths[c - 1] == p.token->0);
    }
}

proof fn snapshot_stays_on_track(root: InodeNode, page_size: usize, n: nat)
    requires
        page_size > 0,
        fits_the_greatest_page(root, page_size),
        sorted_paths(crate::snapshot::listing(root, crate::snapshot::root_path())),
    ensures
        on_track(
            snapshot_pages(root, page_size, n),
            crate::snapshot::listing(root, crate::snapshot::root_path()),
            n,
        ),
    decreases n,
{
    let at = crate::snapshot::root_path();
    let paths = crate::snapshot::listing(root, at);
    if n == 0 {
        assert(paths.take(0) =~= Seq::<Seq<char>>::empty());
    } else {
        snapshot_stays_on_track(root, page_size, (n - 1) as nat);
        let p = snapshot_pages(root, page_size, (n - 1) as nat);
        let v = crate::snapshot::visits(root, at, p.token);
        let budget = crate::snapshot::page_budget(page_size);
        let shown = emitted(crate::snapshot::cut(v, budget));
        if !p.done {
            let c = choose|c: int|
                #![trigger paths.take(c)]
                n - 1 <= c <= paths.len() && (n - 1 > 0 ==> c < paths.len()) && p.listed
                    == paths.take(c) && p.token == (if c == 0 {
                    None
                } else {
                    Some(paths[c - 1])
                });
            if c > 0 {
                assert(paths.contains(paths[c - 1]));
            }
            assert(is_split_by(paths, p.token));
            visits_show_what_is_after(root, at, p.token);
            cut_shows_the_first(v, budget);
            let rest = after(paths, p.token);
            token_resumes_behind_it(paths, c);
            assert(emitted(v) == rest);
            if rest.len() > budget {
                assert(rest.take(budget as int).take(page_size as int) =~= rest.take(
                    page_size as int,
                ));
            }
        }
        page_keeps_track(p, paths, shown, page_size as nat, (n - 1) as nat);
    }
}

/// Following the tokens lists all changed paths, each once and in order; every
/// page but the last is full.
pub proof fn delta_pages_cover_the_changes(paths: Seq<Seq<char>>, page_size: usize, n: nat)
    requires
        page_size > 0,
        sorted_paths(paths),
        n > paths.len(),
    ensures
        delta_pages(paths, page_size, n).done,
        delta_pages(paths, page_size, n).listed == paths,
        forall|k: nat|
            #![trigger delta_pages(paths, page_size, k)]
            !delta_pages(paths, page_size, k).done ==> is_one_page(
                delta_pages(paths, page_size, k),
                delta_pages(paths, page_size, k + 1),
                page_size as nat,
            ),
{
    delta_stays_on_track(paths, page_size, n);
    assert forall|k: nat|
        #![trigger delta_pages(paths, page_size, k)]
        !delta_pages(paths, page_size, k).done implies is_one_page(
        delta_pages(paths, page_size, k),
        delta_pages(paths, page_size, k + 1),
        page_size as nat,
    ) by {
        let p = delta_pages(paths, page_size, k);
        page_is_one_page(p, after(paths, p.token), page_size as nat);
    }
}

proof fn delta_stays_on_track(paths: Seq<Seq<char>>, page_size: usize, n: nat)
    requires
        page_size > 0,
        sorted_paths(paths),
    ensures
        on_track(delta_pages(paths, page_size, n), paths, n),
    decreases n,
{
    if n == 0 {
        assert(paths.take(0) =~= Seq::<Seq<char>>::empty());
    } else {
        delta_stays_on_track(paths, page_size, (n - 1) as nat);
        let p = delta_pages(paths, page_size, (n - 1) as nat);
        page_keeps_track(p, paths, after(paths, p.token), page_size as nat, (n - 1) as nat);
    }
}

/// One page of changes is what remains after its token, cut to the page: the
/// page of a client that has listed nothing else.
pub proof fn delta_page_is_what_remains(
    paths: Seq<Seq<char>>,
    token: Option<Seq<char>>,
    k: int,
)
    requires
        sorted_paths(paths),
        0 <= k <= paths.len(),
        forall|j: int|
            0 <= j < paths.len() ==> (k <= j <==> crate::snapshot::is_after(
                #[trigger] paths[j],
                token,
            )),
    ensures
        after(paths, token) == paths.skip(k),
    decreases paths.len(),
{
    if paths.len() == 0 {
        assert(after(paths, token) =~= paths.skip(k));
    } else {
        let shorter = paths.drop_last();
        assert(sorted_paths(shorter)) by {
            assert forall|a: int, b: int|
                #![trigger shorter[a], shorter[b]]
                0 <= a < b < shorter.len() implies crate::text::before(shorter[a], shorter[b]) by {
                assert(shorter[a] == paths[a] && shorter[b] == paths[b]);
            }
        }
        assert(paths[paths.len() - 1] == paths.last());
        if k == paths.len() {
            assert forall|j: int| 0 <= j < shorter.len() implies (k - 1 <= j
                <==> crate::snapshot::is_after(#[trigger] shorter[j], token)) by {
                assert(shorter[j] == paths[j]);
            }
            delta_page_is_what_remains(shorter, token, k - 1);
            assert(shorter.skip(k - 1) =~= paths.skip(k));
        } else {
            assert forall|j: int| 0 <= j < shorter.len() implies (k <= j
                <==> crate::snapshot::is_after(#[trigger] shorter[j], token)) by {
                assert(shorter[j] == paths[j]);
            }
            delta_page_is_what_remains(shorter, token, k);
            assert(shorter.skip(k).push(paths.last()) =~= paths.skip(k));
        }
    }
}

} // verus!
