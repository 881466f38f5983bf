//! The namespace tree: named namespaces nested in one another, each holding
//! named items, every one of them tagged public or private.
//!
//! The tree is kept as an arena. A namespace is referred to by a [`NodeRef`],
//! the root by [`NamespaceTree::root`]. Namespaces and items are only ever
//! added, so a reference stays good for as long as the tree lives.

use vstd::prelude::*;
use crate::text::same_text;

verus! {

/// Who may reach a namespace or an item.
#[derive(Clone, Copy, Debug, PartialEq, Eq, Structural)]
pub enum Visibility {
    /// Reachable from any origin.
    Public,
    /// Reachable only from the namespace that declares it and from the
    /// namespaces below that one.
    Private,
}

/// What an item is.
#[derive(Clone, Copy, Debug, PartialEq, Eq, Structural)]
pub enum ItemKind {
    Function,
    Type,
}

/// A named thing declared in a namespace.
#[derive(Clone, Debug, PartialEq, Eq)]
pub struct Item {
    pub name: String,
    pub visibility: Visibility,
    pub kind: ItemKind,
}

/// An item as contracts see it.
pub struct ItemView {
    pub name: Seq<char>,
    pub visibility: Visibility,
    pub kind: ItemKind,
}

impl View for Item {
    type V = ItemView;

    open spec fn view(&self) -> ItemView {
        ItemView { name: self.name@, visibility: self.visibility, kind: self.kind }
    }
}

/// A namespace as contracts see it: its own name and visibility, the
/// namespace that declares it (none for the root), and the items it declares.
pub struct NodeView {
    pub name: Seq<char>,
    pub visibility: Visibility,
    pub parent: Option<int>,
    pub items: Seq<ItemView>,
}

/// A tree as contracts see it: its namespaces in the order in which they were
/// added, the root first. A namespace is known by its position.
pub type TreeView = Seq<NodeView>;

/// `c` is a namespace declared directly in `n` under the name `name`.
pub open spec fn names_child(t: TreeView, n: int, name: Seq<char>, c: int) -> bool {
    &&& 0 < c < t.len()
    &&& t[c].parent == Some(n)
    &&& t[c].name == name
}

/// The `a`-th item declared in `n` has the name `name`.
pub open spec fn names_item(t: TreeView, n: int, name: Seq<char>, a: int) -> bool {
    &&& 0 <= n < t.len()
    &&& 0 <= a < t[n].items.len()
    &&& t[n].items[a].name == name
}

/// What makes a sequence of namespaces a tree in which a name means one thing.
///
/// The root comes first, has no parent and is public. Every other namespace
/// is declared in one that was added before it. Within one namespace a name
/// belongs to at most one child namespace or item.
pub open spec fn well_formed(t: TreeView) -> bool {
    &&& t.len() > 0
    &&& t[0].parent is None
    &&& t[0].visibility == Visibility::Public
    &&& forall|c: int|
        0 < c < t.len() ==> (#[trigger] t[c]).parent is Some && 0 <= t[c].parent->0 < c
    &&& forall|n: int, name: Seq<char>, c: int, d: int|
        #[trigger] names_child(t, n, name, c) && #[trigger] names_child(t, n, name, d) ==> c == d
    &&& forall|n: int, name: Seq<char>, a: int, b: int|
        #[trigger] names_item(t, n, name, a) && #[trigger] names_item(t, n, name, b) ==> a == b
    &&& forall|n: int, name: Seq<char>, c: int, a: int|
        !(#[trigger] names_child(t, n, name, c) && #[trigger] names_item(t, n, name, a))
}

/// The namespace declared in `n` under `name`, if there is one.
pub open spec fn child_named(t: TreeView, n: int, name: Seq<char>) -> Option<int> {
    if exists|c: int| names_child(t, n, name, c) {
        Some(choose|c: int| names_child(t, n, name, c))
    } else {
        None
    }
}

/// The item declared in `n` under `name`, if there is one.
pub open spec fn item_named(t: TreeView, n: int, name: Seq<char>) -> Option<ItemView> {
    if exists|a: int| names_item(t, n, name, a) {
        Some(t[n].items[choose|a: int| names_item(t, n, name, a)])
    } else {
        None
    }
}

/// `x` lies in the subtree rooted at `n`: it is `n` itself or is declared,
/// through any number of namespaces, below it.
pub open spec fn within(t: TreeView, x: int, n: int) -> bool
    decreases x,
{
    if !(0 <= x < t.len()) {
        false
    } else if x == n {
        true
    } else {
        match t[x].parent {
            Some(p) => 0 <= p < x && within(t, p, n),
            None => false,
        }
    }
}

/// A name means one thing: the namespace that a namespace declares under a
/// name is the only thing it declares under that name.
pub proof fn lemma_child_named(t: TreeView, n: int, name: Seq<char>, c: int)
    requires
        well_formed(t),
        names_child(t, n, name, c),
    ensures
        child_named(t, n, name) == Some(c),
        item_named(t, n, name) is None,
{
}

/// A name means one thing: the item that a namespace declares under a name is
/// the only thing it declares under that name.
pub proof fn lemma_item_named(t: TreeView, n: int, name: Seq<char>, a: int)
    requires
        well_formed(t),
        names_item(t, n, name, a),
    ensures
        item_named(t, n, name) == Some(t[n].items[a]),
        child_named(t, n, name) is None,
{
}

/// The tree `t` with a new, empty namespace declared in `p`.
pub open spec fn with_child(
    t: TreeView,
    p: int,
    name: Seq<char>,
    visibility: Visibility,
) -> TreeView {
    t.push(NodeView { name, visibility, parent: Some(p), items: Seq::<ItemView>::empty() })
}

/// The tree `t` with one more item declared in `n`.
pub open spec fn with_item(t: TreeView, n: int, item: ItemView) -> TreeView {
    t.update(
        n,
        NodeView {
            name: t[n].name,
            visibility: t[n].visibility,
            parent: t[n].parent,
            items: t[n].items.push(item),
        },
    )
}

/// Declaring a namespace under a name that is free in its parent keeps the
/// tree well formed.
pub proof fn lemma_with_child_well_formed(
    t: TreeView,
    p: int,
    name: Seq<char>,
    visibility: Visibility,
)
    requires
        well_formed(t),
        0 <= p < t.len(),
        child_named(t, p, name) is None,
        item_named(t, p, name) is None,
    ensures
        well_formed(with_child(t, p, name, visibility)),
{
    let u = with_child(t, p, name, visibility);
    let c = t.len() as int;
    // What was declared before is declared as before; the new namespace is
    // the only one of its name in `p`, since the name was free there.
    assert forall|n: int, nm: Seq<char>, x: int, y: int| #[trigger]
        names_child(u, n, nm, x) && #[trigger] names_child(u, n, nm, y) implies x == y by {
        if x < c && y < c {
            assert(names_child(t, n, nm, x) && names_child(t, n, nm, y));
        } else if x < c {
            assert(names_child(t, p, name, x));
        } else if y < c {
            assert(names_child(t, p, name, y));
        }
    }
    assert forall|n: int, nm: Seq<char>, a: int, b: int| #[trigger]
        names_item(u, n, nm, a) && #[trigger] names_item(u, n, nm, b) implies a == b by {
        assert(names_item(t, n, nm, a) && names_item(t, n, nm, b));
    }
    assert forall|n: int, nm: Seq<char>, x: int, a: int|
        !(#[trigger] names_child(u, n, nm, x) && #[trigger] names_item(u, n, nm, a)) by {
        if names_child(u, n, nm, x) && names_item(u, n, nm, a) {
            assert(names_item(t, n, nm, a));
            if x < c {
                assert(names_child(t, n, nm, x));
            }
        }
    }
}

/// Declaring an item under a name that is free in its namespace keeps the
/// tree well formed.
pub proof fn lemma_with_item_well_formed(t: TreeView, n: int, item: ItemView)
    requires
        well_formed(t),
        0 <= n < t.len(),
        child_named(t, n, item.name) is None,
        item_named(t, n, item.name) is None,
    ensures
        well_formed(with_item(t, n, item)),
{
    let u = with_item(t, n, item);
    let last = t[n].items.len() as int;
    // Namespaces are declared as before, and so are all items but the new
    // one, which is the only thing of its name in `n`.
    assert forall|m: int, nm: Seq<char>, x: int| names_child(u, m, nm, x) implies names_child(
        t,
        m,
        nm,
        x,
    ) by {}
    assert forall|m: int, nm: Seq<char>, a: int|
        names_item(u, m, nm, a) && !(m == n && a == last) implies names_item(t, m, nm, a) by {}
}

/// A reference to a namespace of a tree.
#[derive(Clone, Copy, Debug, PartialEq, Eq, Structural)]
pub struct NodeRef {
    index: usize,
}

impl View for NodeRef {
    type V = int;

    /// The position of the namespace in the tree's view.
    closed spec fn view(&self) -> int {
        self.index as int
    }
}

/// The name is already taken, by a namespace or by an item, in the namespace
/// to which something was to be added.
#[derive(Clone, Copy, Debug, PartialEq, Eq, Structural)]
pub struct DuplicateNameError;

/// One namespace in the arena.
#[derive(Debug)]
struct NamespaceNode {
    name: String,
    visibility: Visibility,
    parent: Option<usize>,
    children: Vec<usize>,
    items: Vec<Item>,
}

impl View for NamespaceNode {
    type V = NodeView;

    closed spec fn view(&self) -> NodeView {
        NodeView {
            name: self.name@,
            visibility: self.visibility,
            parent: match self.parent {
                Some(p) => Some(p as int),
                None => None,
            },
            items: self.items@.map_values(|item: Item| item@),
        }
    }
}

/// The tree that an arena stands for.
spec fn tree_of(nodes: Seq<NamespaceNode>) -> TreeView {
    nodes.map_values(|node: NamespaceNode| node@)
}

/// `c` stands at place `k` in the list of children of its parent.
spec fn listed_at(nodes: Seq<NamespaceNode>, c: int, k: int) -> bool {
    let p = nodes[c].parent->0 as int;
    &&& 0 <= p < nodes.len()
    &&& 0 <= k < nodes[p].children@.len()
    &&& nodes[p].children@[k] == c
}

/// `c` stands in the list of children of its parent.
spec fn listed(nodes: Seq<NamespaceNode>, c: int) -> bool {
    exists|k: int| listed_at(nodes, c, k)
}

/// Every namespace lists its children, and lists nothing else.
spec fn children_listed(nodes: Seq<NamespaceNode>) -> bool {
    &&& forall|n: int, k: int|
        0 <= n < nodes.len() && 0 <= k < nodes[n].children@.len() ==> {
            let c = #[trigger] nodes[n].children@[k];
            0 < c < nodes.len() && nodes[c as int].parent == Some(n as usize)
        }
    &&& forall|c: int| 0 < c < nodes.len() ==> #[trigger] listed(nodes, c)
}

/// A tree of namespaces.
///
/// A tree is well formed at all times: whatever holds of well-formed trees
/// holds of the view of every value of this type.
#[derive(Debug)]
pub struct NamespaceTree {
    nodes: Vec<NamespaceNode>,
}

impl View for NamespaceTree {
    type V = TreeView;

    closed spec fn view(&self) -> TreeView {
        tree_of(self.nodes@)
    }
}

impl NamespaceTree {
    /// The tree is well formed and its bookkeeping agrees with it.
    #[verifier::type_invariant]
    spec fn sound(self) -> bool {
        &&& well_formed(tree_of(self.nodes@))
        &&& children_listed(self.nodes@)
    }

    /// `node` refers to a namespace of this tree.
    pub open spec fn has(&self, node: NodeRef) -> bool {
        0 <= node@ < self@.len()
    }

    /// A tree that holds the root namespace and nothing else. The root has the
    /// empty name, since no path ever names it.
    pub fn new() -> (tree: NamespaceTree)
        ensures
            well_formed(tree@),
            tree@ == seq![
                NodeView {
                    name: Seq::<char>::empty(),
                    visibility: Visibility::Public,
                    parent: None,
                    items: Seq::<ItemView>::empty(),
                },
            ],
    {
        let root = NamespaceNode {
            name: String::new(),
            visibility: Visibility::Public,
            parent: None,
            children: Vec::new(),
            items: Vec::new(),
        };
        let mut nodes: Vec<NamespaceNode> = Vec::new();
        nodes.push(root);
        proof {
            assert(root@.items =~= Seq::<ItemView>::empty());
        }
        NamespaceTree { nodes }
    }

    /// The root namespace.
    pub fn root(&self) -> (root: NodeRef)
        ensures
            root@ == 0,
            self.has(root),
            well_formed(self@),
    {
        proof {
            use_type_invariant(self);
        }
        NodeRef { index: 0 }
    }

    /// Whether `node` refers to a namespace of this tree.
    pub fn contains(&self, node: NodeRef) -> (found: bool)
        ensures
            found == self.has(node),
    {
        node.index < self.nodes.len()
    }

    /// The position of the namespace declared in `n` under `name`.
    fn find_child(&self, n: usize, name: &str) -> (found: Option<usize>)
        requires
            n < self@.len(),
        ensures
            match found {
                Some(c) => c < self@.len() && names_child(self@, n as int, name@, c as int),
                None => forall|c: int| !names_child(self@, n as int, name@, c),
            },
    {
        proof {
            use_type_invariant(self);
        }
        let kids = &self.nodes[n].children;
        let mut k: usize = 0;
        while k < kids.len()
            invariant
                children_listed(self.nodes@),
                n < self.nodes@.len(),
                kids == &self.nodes@[n as int].children,
                k <= kids@.len(),
                forall|j: int|
                    0 <= j < k ==> !names_child(self@, n as int, name@, #[trigger] kids@[j] as int),
            decreases kids@.len() - k,
        {
            let c = kids[k];
            if same_text(self.nodes[c].name.as_str(), name) {
                return Some(c);
            }
            k += 1;
        }
        proof {
            // A namespace declared in `n` stands in the list that was searched.
            assert forall|c: int| !names_child(self@, n as int, name@, c) by {
                if names_child(self@, n as int, name@, c) {
                    assert(listed(self.nodes@, c));
                    let j = choose|j: int| listed_at(self.nodes@, c, j);
                    assert(kids@[j] == c);
                }
            }
        }
        None
    }

    /// The place, among the items of `n`, of the one declared under `name`.
    fn find_item(&self, n: usize, name: &str) -> (found: Option<usize>)
        requires
            n < self@.len(),
        ensures
            match found {
                Some(a) => names_item(self@, n as int, name@, a as int),
                None => forall|a: int| !names_item(self@, n as int, name@, a),
            },
    {
        let items = &self.nodes[n].items;
        let mut a: usize = 0;
        while a < items.len()
            invariant
                n < self.nodes@.len(),
                items == &self.nodes@[n as int].items,
                a <= items@.len(),
                forall|j: int| 0 <= j < a ==> !names_item(self@, n as int, name@, j),
            decreases items@.len() - a,
        {
            if same_text(items[a].name.as_str(), name) {
                return Some(a);
            }
            a += 1;
        }
        None
    }

    /// The namespace declared in `node` under `name`, if there is one. A
    /// reference that is not of this tree declares nothing.
    pub fn get_child(&self, node: NodeRef, name: &str) -> (child: Option<NodeRef>)
        ensures
            match child {
                Some(c) => self.has(c) && child_named(self@, node@, name@) == Some(c@),
                None => child_named(self@, node@, name@) is None,
            },
    {
        proof {
            use_type_invariant(self);
        }
        if !self.contains(node) {
            return None;
        }
        match self.find_child(node.index, name) {
            Some(c) => {
                proof {
                    lemma_child_named(self@, node@, name@, c as int);
                }
                Some(NodeRef { index: c })
            },
            None => None,
        }
    }

    /// The item declared in `node` under `name`, if there is one. A reference
    /// that is not of this tree declares nothing.
    pub fn get_item(&self, node: NodeRef, name: &str) -> (item: Option<&Item>)
        ensures
            match item {
                Some(i) => item_named(self@, node@, name@) == Some(i@),
                None => item_named(self@, node@, name@) is None,
            },
    {
        proof {
            use_type_invariant(self);
        }
        if !self.contains(node) {
            return None;
        }
        match self.find_item(node.index, name) {
            Some(a) => {
                proof {
                    lemma_item_named(self@, node@, name@, a as int);
                }
                Some(&self.nodes[node.index].items[a])
            },
            None => None,
        }
    }

    /// Whether `name` is free in the namespace at position `n`: whether that
    /// namespace declares neither a namespace nor an item under it.
    fn is_free(&self, n: usize, name: &str) -> (free: bool)
        requires
            n < self@.len(),
        ensures
            free == (child_named(self@, n as int, name@) is None && item_named(
                self@,
                n as int,
                name@,
            ) is None),
    {
        proof {
            use_type_invariant(self);
        }
        match self.find_child(n, name) {
            Some(c) => {
                proof {
                    lemma_child_named(self@, n as int, name@, c as int);
                }
                false
            },
            None => match self.find_item(n, name) {
                Some(a) => {
                    proof {
                        lemma_item_named(self@, n as int, name@, a as int);
                    }
                    false
                },
                None => true,
            },
        }
    }

    /// Takes the arena out of the tree, leaving a tree of the root alone.
    fn take_nodes(&mut self) -> (nodes: Vec<NamespaceNode>)
        ensures
            nodes == old(self).nodes,
            well_formed(tree_of(nodes@)),
            children_listed(nodes@),
    {
        proof {
            use_type_invariant(&*self);
        }
        let mut taken = NamespaceTree::new();
        std::mem::swap(self, &mut taken);
        taken.nodes
    }

    /// Declares a new, empty namespace in `parent` under `name` and returns a
    /// reference to it. Fails, and leaves the tree as it was, if `parent`
    /// already declares a namespace or an item under that name.
    pub fn add_child(
        &mut self,
        parent: NodeRef,
        name: &str,
        visibility: Visibility,
    ) -> (added: Result<NodeRef, DuplicateNameError>)
        requires
            old(self).has(parent),
        ensures
            well_formed(final(self)@),
            match added {
                Ok(child) => {
                    &&& child_named(old(self)@, parent@, name@) is None
                    &&& item_named(old(self)@, parent@, name@) is None
                    &&& child@ == old(self)@.len()
                    &&& final(self)@ == with_child(old(self)@, parent@, name@, visibility)
                },
                Err(_) => {
                    &&& child_named(old(self)@, parent@, name@) is Some || item_named(
                        old(self)@,
                        parent@,
                        name@,
                    ) is Some
                    &&& final(self)@ == old(self)@
                },
            },
    {
        proof {
            use_type_invariant(&*self);
        }
        let p = parent.index;
        if !self.is_free(p, name) {
            return Err(DuplicateNameError);
        }
        let mut nodes = self.take_nodes();
        let ghost before = nodes@;
        let c = nodes.len();
        let node = NamespaceNode {
            name: name.to_owned(),
            visibility,
            parent: Some(p),
            children: Vec::new(),
            items: Vec::new(),
        };
        nodes.push(node);
        nodes[p].children.push(c);
        proof {
            // The tree has grown by the one namespace, and every namespace is
            // listed where it was, the new one last in the list of `p`.
            assert(nodes@[c as int]@.items =~= Seq::<ItemView>::empty());
            assert(tree_of(nodes@) =~= with_child(tree_of(before), parent@, name@, visibility));
            lemma_with_child_well_formed(tree_of(before), parent@, name@, visibility);
            assert forall|x: int| 0 < x < nodes@.len() implies #[trigger] listed(nodes@, x) by {
                if x < c {
                    assert(listed(before, x));
                    let k = choose|k: int| listed_at(before, x, k);
                    assert(listed_at(nodes@, x, k));
                } else {
                    assert(listed_at(nodes@, x, before[p as int].children@.len() as int));
                }
            }
        }
        *self = NamespaceTree { nodes };
        Ok(NodeRef { index: c })
    }

    /// Declares an item in `node` under `name`. Fails, and leaves the tree as
    /// it was, if `node` already declares a namespace or an item under that
    /// name.
    pub fn add_item(
        &mut self,
        node: NodeRef,
        name: &str,
        visibility: Visibility,
        kind: ItemKind,
    ) -> (added: Result<(), DuplicateNameError>)
        requires
            old(self).has(node),
        ensures
            well_formed(final(self)@),
            match added {
                Ok(_) => {
                    &&& child_named(old(self)@, node@, name@) is None
                    &&& item_named(old(self)@, node@, name@) is None
                    &&& final(self)@ == with_item(
                        old(self)@,
                        node@,
                        ItemView { name: name@, visibility, kind },
                    )
                },
                Err(_) => {
                    &&& child_named(old(self)@, node@, name@) is Some || item_named(
                        old(self)@,
                        node@,
                        name@,
                    ) is Some
                    &&& final(self)@ == old(self)@
                },
            },
    {
        proof {
            use_type_invariant(&*self);
        }
        let n = node.index;
        if !self.is_free(n, name) {
            return Err(DuplicateNameError);
        }
        let mut nodes = self.take_nodes();
        let ghost before = nodes@;
        nodes[n].items.push(Item { name: name.to_owned(), visibility, kind });
        proof {
            // The namespace has the one item more, and every namespace is
            // listed where it was.
            let declared = ItemView { name: name@, visibility, kind };
            assert(nodes@[n as int]@.items =~= before[n as int]@.items.push(declared));
            assert(tree_of(nodes@) =~= with_item(tree_of(before), node@, declared));
            lemma_with_item_well_formed(tree_of(before), node@, declared);
            assert forall|x: int| 0 < x < nodes@.len() implies #[trigger] listed(nodes@, x) by {
                assert(listed(before, x));
                let k = choose|k: int| listed_at(before, x, k);
                assert(listed_at(nodes@, x, k));
            }
        }
        *self = NamespaceTree { nodes };
        Ok(())
    }

    /// Whether `node` lies in the subtree rooted at `ancestor`: whether it is
    /// `ancestor` itself or is declared somewhere below it. A reference that
    /// is not of this tree lies in no subtree.
    pub fn is_within(&self, node: NodeRef, ancestor: NodeRef) -> (inside: bool)
        ensures
            inside == within(self@, node@, ancestor@),
    {
        proof {
            use_type_invariant(self);
        }
        if !self.contains(node) {
            return false;
        }
        let mut cur = node.index;
        loop
            invariant
                well_formed(self@),
                cur < self.nodes@.len(),
                within(self@, cur as int, ancestor@) == within(self@, node@, ancestor@),
            decreases cur,
        {
            if cur == ancestor.index {
                return true;
            }
            match self.nodes[cur].parent {
                None => {
                    return false;
                },
                Some(p) => {
                    cur = p;
                },
            }
        }
    }

    /// The visibility with which `node` was declared.
    pub fn visibility_of(&self, node: NodeRef) -> (visibility: Visibility)
        requires
            self.has(node),
        ensures
            visibility == self@[node@].visibility,
    {
        self.nodes[node.index].visibility
    }
}

} // verus!
