//! Path resolution: from a dotted path to the item it designates.
//!
//! A path is a sequence of names. All but the last name namespaces, each
//! declared in the one before; the last names an item. An absolute path
//! starts at the root, a relative one at the origin, the namespace on whose
//! behalf the path is resolved. Whatever the path, the origin decides what is
//! visible: a private namespace or item can be reached only if the origin
//! lies in the subtree of the namespace that declares it.

use vstd::prelude::*;
use crate::namespace::{
    child_named,
    item_named,
    within,
    Item,
    ItemView,
    NamespaceTree,
    NodeRef,
    TreeView,
    Visibility,
};

verus! {

/// Why a path designates no item.
#[derive(Clone, Debug, PartialEq, Eq)]
pub enum ResolveError {
    /// Nothing suitable is declared under this segment.
    NotFound(String),
    /// This segment names something private that the origin may not reach.
    VisibilityError(String),
    /// The path designates a namespace.
    NotAnItemError,
}

/// A resolution failure as contracts see it.
pub enum ResolveErrorView {
    NotFound(Seq<char>),
    VisibilityError(Seq<char>),
    NotAnItemError,
}

impl View for ResolveError {
    type V = ResolveErrorView;

    open spec fn view(&self) -> ResolveErrorView {
        match self {
            ResolveError::NotFound(segment) => ResolveErrorView::NotFound(segment@),
            ResolveError::VisibilityError(segment) => ResolveErrorView::VisibilityError(segment@),
            ResolveError::NotAnItemError => ResolveErrorView::NotAnItemError,
        }
    }
}

/// What following a path comes to, as contracts see it: the item that the
/// path designates, or why it designates none.
pub type Outcome = Result<ItemView, ResolveErrorView>;

/// The names that a path holds.
pub open spec fn segments(path: Seq<&str>) -> Seq<Seq<char>> {
    path.map_values(|segment: &str| segment@)
}

/// Whether something of the given visibility, declared in `declarer`, can be
/// reached on behalf of `origin`.
pub open spec fn reachable(
    t: TreeView,
    origin: int,
    declarer: int,
    visibility: Visibility,
) -> bool {
    visibility == Visibility::Public || within(t, origin, declarer)
}

/// What `path` designates when followed from the namespace `from` on behalf
/// of `origin`.
///
/// The empty path designates `from` itself, a namespace and no item. A path
/// of one name designates the item of that name in `from`, which must be
/// reachable from `origin`; where `from` declares a namespace under the name,
/// the path designates no item, and where it declares nothing, the name is
/// not found. A longer path steps into the namespace that its first name
/// declares in `from`, which must be reachable from `origin`, and goes on
/// from there; a first name under which `from` declares no namespace is not
/// found.
pub open spec fn walk(t: TreeView, from: int, origin: int, path: Seq<Seq<char>>) -> Outcome
    decreases path.len(),
{
    if path.len() == 0 {
        Err(ResolveErrorView::NotAnItemError)
    } else if path.len() == 1 {
        match item_named(t, from, path[0]) {
            Some(item) => if reachable(t, origin, from, item.visibility) {
                Ok(item)
            } else {
                Err(ResolveErrorView::VisibilityError(path[0]))
            },
            None => if child_named(t, from, path[0]) is Some {
                Err(ResolveErrorView::NotAnItemError)
            } else {
                Err(ResolveErrorView::NotFound(path[0]))
            },
        }
    } else {
        match child_named(t, from, path[0]) {
            Some(child) => if reachable(t, origin, from, t[child].visibility) {
                walk(t, child, origin, path.drop_first())
            } else {
                Err(ResolveErrorView::VisibilityError(path[0]))
            },
            None => Err(ResolveErrorView::NotFound(path[0])),
        }
    }
}

/// What `path` designates for `origin`: followed from the root if the path is
/// absolute, from `origin` if it is relative.
pub open spec fn resolution(
    t: TreeView,
    origin: int,
    path: Seq<Seq<char>>,
    is_absolute: bool,
) -> Outcome {
    walk(t, if is_absolute { 0 } else { origin }, origin, path)
}

/// What a resolution returned, as contracts see it.
pub open spec fn outcome_of(found: Result<&Item, ResolveError>) -> Outcome {
    match found {
        Ok(item) => Ok(item@),
        Err(error) => Err(error@),
    }
}

impl NamespaceTree {
    /// Resolves `path` on behalf of `origin`.
    ///
    /// Returns the item that the path designates, or the first reason why it
    /// designates none: `NotFound` with the segment under which nothing
    /// suitable is declared, `VisibilityError` with the segment that names
    /// something private out of the origin's reach, `NotAnItemError` where
    /// the path ends at a namespace.
    pub fn resolve(
        &self,
        origin: NodeRef,
        path: &[&str],
        is_absolute: bool,
    ) -> (found: Result<&Item, ResolveError>)
        ensures
            outcome_of(found) == resolution(self@, origin@, segments(path@), is_absolute),
    {
        let from = if is_absolute {
            self.root()
        } else {
            origin
        };
        self.resolve_from(from, origin, path)
    }

    /// Follows `path` from the namespace `from` on behalf of `origin`.
    fn resolve_from(
        &self,
        from: NodeRef,
        origin: NodeRef,
        path: &[&str],
    ) -> (found: Result<&Item, ResolveError>)
        ensures
            outcome_of(found) == walk(self@, from@, origin@, segments(path@)),
    {
        let ghost names = segments(path@);
        let count = path.len();
        if count == 0 {
            return Err(ResolveError::NotAnItemError);
        }
        let mut cur = from;
        let mut i: usize = 0;
        assert(names.skip(0) =~= names);
        while i + 1 < count
            invariant
                count == path@.len(),
                names == segments(path@),
                i < count,
                walk(self@, cur@, origin@, names.skip(i as int)) == walk(
                    self@,
                    from@,
                    origin@,
                    names,
                ),
            decreases count - i,
        {
            let segment = path[i];
            proof {
                assert(names.skip(i as int).drop_first() =~= names.skip(i as int + 1));
            }
            match self.get_child(cur, segment) {
                None => {
                    return Err(ResolveError::NotFound(segment.to_owned()));
                },
                Some(child) => {
                    let allowed = match self.visibility_of(child) {
                        Visibility::Public => true,
                        Visibility::Private => self.is_within(origin, cur),
                    };
                    if !allowed {
                        return Err(ResolveError::VisibilityError(segment.to_owned()));
                    }
                    cur = child;
                },
            }
            i += 1;
        }
        let segment = path[i];
        match self.get_item(cur, segment) {
            Some(item) => {
                let allowed = match item.visibility {
                    Visibility::Public => true,
                    Visibility::Private => self.is_within(origin, cur),
                };
                if allowed {
                    Ok(item)
                } else {
                    Err(ResolveError::VisibilityError(segment.to_owned()))
                }
            },
            None => match self.get_child(cur, segment) {
                Some(_) => Err(ResolveError::NotAnItemError),
                None => Err(ResolveError::NotFound(segment.to_owned())),
            },
        }
    }
}

} // verus!
