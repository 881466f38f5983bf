//! What resolution guarantees, proved of every well-formed tree.

use vstd::prelude::*;
use crate::namespace::{
    child_named,
    lemma_child_named,
    lemma_item_named,
    well_formed,
    within,
    ItemView,
    TreeView,
    Visibility,
};
use crate::resolver::{resolution, walk, Outcome};

verus! {

/// The absolute path of the namespace `n`: the names of the namespaces from
/// below the root down to `n` itself. The root has the empty path.
pub open spec fn path_to(t: TreeView, n: int) -> Seq<Seq<char>>
    decreases n,
{
    if 0 < n < t.len() && t[n].parent is Some && 0 <= t[n].parent->0 < n {
        path_to(t, t[n].parent->0).push(t[n].name)
    } else {
        Seq::empty()
    }
}

/// The outcome is a refusal for visibility, at whatever segment.
pub open spec fn refused(found: Outcome) -> bool {
    found is Err && found->Err_0 is VisibilityError
}

/// Resolution is deterministic: a path that resolves for an origin resolves
/// to one item, however often it is resolved.
pub proof fn lemma_resolution_deterministic(
    t: TreeView,
    origin: int,
    path: Seq<Seq<char>>,
    is_absolute: bool,
    first: ItemView,
    second: ItemView,
)
    requires
        resolution(t, origin, path, is_absolute) == Outcome::Ok(first),
        resolution(t, origin, path, is_absolute) == Outcome::Ok(second),
    ensures
        first == second,
{
}

/// What lies in the subtree of a namespace lies in the subtree of the
/// namespace that declares it.
pub proof fn lemma_within_parent(t: TreeView, x: int, n: int)
    requires
        well_formed(t),
        0 < n < t.len(),
        within(t, x, n),
    ensures
        within(t, x, t[n].parent->0),
    decreases x,
{
    let p = t[n].parent->0;
    if x == n {
        assert(within(t, p, p));
    } else {
        let q = t[x].parent->0;
        lemma_within_parent(t, q, n);
    }
}

/// An absolute path that leads through the namespace `n` is followed, from
/// the root down to `n`, without a miss: what is left of it is then followed
/// from `n`, unless a private namespace on the way is out of the origin's
/// reach. For an origin in the subtree of `n` none is.
pub proof fn lemma_walk_down(t: TreeView, n: int, origin: int, rest: Seq<Seq<char>>)
    requires
        well_formed(t),
        0 <= n < t.len(),
        rest.len() > 0,
    ensures
        walk(t, 0, origin, path_to(t, n) + rest) == walk(t, n, origin, rest) || refused(
            walk(t, 0, origin, path_to(t, n) + rest),
        ),
        within(t, origin, n) ==> walk(t, 0, origin, path_to(t, n) + rest) == walk(
            t,
            n,
            origin,
            rest,
        ),
    decreases n,
{
    if n > 0 {
        // The path leads through the parent of `n`, and goes on from there
        // with the name of `n`, which means `n` and nothing else.
        let p = t[n].parent->0;
        let longer = seq![t[n].name] + rest;
        assert(path_to(t, n) + rest =~= path_to(t, p) + longer);
        lemma_walk_down(t, p, origin, longer);
        lemma_child_named(t, p, t[n].name, n);
        assert(longer.drop_first() =~= rest);
        if within(t, origin, n) {
            lemma_within_parent(t, origin, n);
        }
    }
}

/// An item, private or not, resolves by its absolute path for every origin in
/// the subtree of the namespace that declares it. For that namespace itself
/// it also resolves by its bare name.
pub proof fn lemma_item_resolves_inside(t: TreeView, n: int, a: int, origin: int)
    requires
        well_formed(t),
        0 <= n < t.len(),
        0 <= a < t[n].items.len(),
        within(t, origin, n),
    ensures
        resolution(t, origin, path_to(t, n).push(t[n].items[a].name), true) == Outcome::Ok(
            t[n].items[a],
        ),
        resolution(t, n, seq![t[n].items[a].name], false) == Outcome::Ok(t[n].items[a]),
{
    let name = t[n].items[a].name;
    lemma_item_named(t, n, name, a);
    lemma_walk_down(t, n, origin, seq![name]);
    assert(path_to(t, n).push(name) =~= path_to(t, n) + seq![name]);
}

/// A private item is refused, under its absolute path, to every origin
/// outside the subtree of the namespace that declares it.
pub proof fn lemma_private_item_refused_outside(t: TreeView, n: int, a: int, origin: int)
    requires
        well_formed(t),
        0 <= n < t.len(),
        0 <= a < t[n].items.len(),
        t[n].items[a].visibility == Visibility::Private,
        !within(t, origin, n),
    ensures
        refused(resolution(t, origin, path_to(t, n).push(t[n].items[a].name), true)),
{
    let name = t[n].items[a].name;
    lemma_item_named(t, n, name, a);
    lemma_walk_down(t, n, origin, seq![name]);
    assert(path_to(t, n).push(name) =~= path_to(t, n) + seq![name]);
}

/// Followed from one namespace on behalf of two origins, a path comes to the
/// same outcome unless one of the origins is refused.
pub proof fn lemma_walk_same_unless_refused(
    t: TreeView,
    from: int,
    first: int,
    second: int,
    path: Seq<Seq<char>>,
)
    ensures
        walk(t, from, first, path) == walk(t, from, second, path) || refused(
            walk(t, from, first, path),
        ) || refused(walk(t, from, second, path)),
    decreases path.len(),
{
    if path.len() > 1 {
        match child_named(t, from, path[0]) {
            Some(child) => {
                lemma_walk_same_unless_refused(t, child, first, second, path.drop_first());
            },
            None => {},
        }
    }
}

/// An absolute path is followed from the root whatever the origin: the
/// origin bears on the outcome only through what it may reach. Two origins
/// that are both let through get the same outcome.
pub proof fn lemma_absolute_ignores_origin(
    t: TreeView,
    first: int,
    second: int,
    path: Seq<Seq<char>>,
)
    requires
        !refused(resolution(t, first, path, true)),
        !refused(resolution(t, second, path, true)),
    ensures
        resolution(t, first, path, true) == resolution(t, second, path, true),
{
    lemma_walk_same_unless_refused(t, 0, first, second, path);
}

/// For the root as origin, the origin whose own path is empty, a relative
/// path resolves as the same path taken as absolute.
pub proof fn lemma_relative_from_root_is_absolute(t: TreeView, path: Seq<Seq<char>>)
    ensures
        resolution(t, 0, path, false) == resolution(t, 0, path, true),
{
}

} // verus!
