//! The alias table: short local names for resolved paths.
//!
//! A binding records the absolute dotted path that an alias stood for when it
//! was made. It is a snapshot: nothing ties it to a tree, and later changes to
//! a tree do not touch it. Binding an alias again shadows what it stood for.

use vstd::prelude::*;
use crate::text::same_text;

verus! {

/// The table `m` after `alias_name` was bound to `resolved_path`.
pub open spec fn bound(
    m: Map<Seq<char>, Seq<char>>,
    alias_name: Seq<char>,
    resolved_path: Seq<char>,
) -> Map<Seq<char>, Seq<char>> {
    m.insert(alias_name, resolved_path)
}

/// What `alias_name` stands for in the table `m`.
pub open spec fn looked_up(m: Map<Seq<char>, Seq<char>>, alias_name: Seq<char>) -> Option<
    Seq<char>,
> {
    if m.contains_key(alias_name) {
        Some(m[alias_name])
    } else {
        None
    }
}

/// A path handed out by a lookup, as contracts see it.
pub open spec fn path_view(path: Option<&str>) -> Option<Seq<char>> {
    match path {
        Some(p) => Some(p@),
        None => None,
    }
}

/// Of two bindings of one alias the later one counts: a lookup returns its
/// path, and the table is as if the earlier binding had never been made.
pub proof fn lemma_last_binding_wins(
    m: Map<Seq<char>, Seq<char>>,
    alias_name: Seq<char>,
    first: Seq<char>,
    second: Seq<char>,
)
    ensures
        looked_up(bound(bound(m, alias_name, first), alias_name, second), alias_name) == Some(
            second,
        ),
        bound(bound(m, alias_name, first), alias_name, second) == bound(m, alias_name, second),
{
    assert(bound(bound(m, alias_name, first), alias_name, second) =~= bound(
        m,
        alias_name,
        second,
    ));
}

/// One alias and the path it stands for.
#[derive(Debug)]
struct AliasBinding {
    alias_name: String,
    resolved_path: String,
}

/// The binding at place `i` is that of `alias_name`.
spec fn binds(bindings: Seq<AliasBinding>, alias_name: Seq<char>, i: int) -> bool {
    0 <= i < bindings.len() && bindings[i].alias_name@ == alias_name
}

/// No alias has two bindings.
spec fn single(bindings: Seq<AliasBinding>) -> bool {
    forall|alias_name: Seq<char>, i: int, j: int|
        #[trigger] binds(bindings, alias_name, i) && #[trigger] binds(bindings, alias_name, j)
            ==> i == j
}

/// The table that a list of bindings stands for.
spec fn table_of(bindings: Seq<AliasBinding>) -> Map<Seq<char>, Seq<char>> {
    Map::new(
        |alias_name: Seq<char>| exists|i: int| binds(bindings, alias_name, i),
        |alias_name: Seq<char>|
            bindings[choose|i: int| binds(bindings, alias_name, i)].resolved_path@,
    )
}

/// What a table holds for an alias is the path of its one binding.
proof fn lemma_binding(bindings: Seq<AliasBinding>, alias_name: Seq<char>, i: int)
    requires
        single(bindings),
        binds(bindings, alias_name, i),
    ensures
        table_of(bindings).contains_key(alias_name),
        table_of(bindings)[alias_name] == bindings[i].resolved_path@,
{
}

/// A list of bindings stands for the table that holds, for each of them, its
/// path under its alias, and nothing else.
proof fn lemma_same_table(bindings: Seq<AliasBinding>, m: Map<Seq<char>, Seq<char>>)
    requires
        single(bindings),
        forall|alias_name: Seq<char>, i: int| #[trigger]
            binds(bindings, alias_name, i) ==> m.contains_key(alias_name) && m[alias_name]
                == bindings[i].resolved_path@,
        forall|alias_name: Seq<char>| #[trigger]
            m.contains_key(alias_name) ==> exists|i: int| binds(bindings, alias_name, i),
    ensures
        table_of(bindings) == m,
{
    assert forall|alias_name: Seq<char>| #[trigger]
        table_of(bindings).contains_key(alias_name) implies m.contains_key(alias_name)
        && table_of(bindings)[alias_name] == m[alias_name] by {
        let i = choose|i: int| binds(bindings, alias_name, i);
        lemma_binding(bindings, alias_name, i);
    }
}

/// The aliases of one scope.
#[derive(Debug)]
pub struct AliasTable {
    bindings: Vec<AliasBinding>,
}

impl View for AliasTable {
    type V = Map<Seq<char>, Seq<char>>;

    closed spec fn view(&self) -> Map<Seq<char>, Seq<char>> {
        table_of(self.bindings@)
    }
}

impl AliasTable {
    /// No alias has two bindings.
    #[verifier::type_invariant]
    spec fn sound(self) -> bool {
        single(self.bindings@)
    }

    /// A table without bindings.
    pub fn new() -> (table: AliasTable)
        ensures
            table@ == Map::<Seq<char>, Seq<char>>::empty(),
    {
        AliasTable { bindings: Vec::new() }
    }

    /// The place of the binding of `alias_name`.
    fn find(&self, alias_name: &str) -> (found: Option<usize>)
        ensures
            match found {
                Some(i) => binds(self.bindings@, alias_name@, i as int),
                None => forall|i: int| !binds(self.bindings@, alias_name@, i),
            },
    {
        let mut i: usize = 0;
        while i < self.bindings.len()
            invariant
                i <= self.bindings@.len(),
                forall|j: int| 0 <= j < i ==> !binds(self.bindings@, alias_name@, j),
            decreases self.bindings@.len() - i,
        {
            if same_text(self.bindings[i].alias_name.as_str(), alias_name) {
                return Some(i);
            }
            i += 1;
        }
        None
    }

    /// Binds `alias_name` to `resolved_path`. A binding that the alias already
    /// had is overwritten.
    pub fn bind(&mut self, alias_name: &str, resolved_path: &str)
        ensures
            final(self)@ == bound(old(self)@, alias_name@, resolved_path@),
    {
        proof {
            use_type_invariant(&*self);
        }
        let found = self.find(alias_name);
        let mut taken = AliasTable::new();
        std::mem::swap(self, &mut taken);
        let mut bindings = taken.bindings;
        let ghost before = bindings@;
        let ghost after = bound(table_of(before), alias_name@, resolved_path@);
        match found {
            Some(i) => {
                bindings[i].resolved_path = resolved_path.to_owned();
                proof {
                    assert forall|a: Seq<char>, j: int| #[trigger]
                        binds(bindings@, a, j) implies binds(before, a, j) && after.contains_key(a)
                        && after[a] == bindings@[j].resolved_path@ by {
                        lemma_binding(before, a, j);
                    }
                    assert forall|a: Seq<char>| #[trigger] after.contains_key(a) implies exists|
                        j: int,
                    |
                        binds(bindings@, a, j) by {
                        let j = if a == alias_name@ {
                            i as int
                        } else {
                            choose|j: int| binds(before, a, j)
                        };
                        assert(binds(bindings@, a, j));
                    }
                }
            },
            None => {
                bindings.push(
                    AliasBinding {
                        alias_name: alias_name.to_owned(),
                        resolved_path: resolved_path.to_owned(),
                    },
                );
                proof {
                    let last = before.len() as int;
                    assert forall|a: Seq<char>, j: int| #[trigger]
                        binds(bindings@, a, j) implies (if j == last {
                        a == alias_name@
                    } else {
                        binds(before, a, j)
                    }) && after.contains_key(a) && after[a] == bindings@[j].resolved_path@ by {
                        if j != last {
                            lemma_binding(before, a, j);
                        }
                    }
                    assert forall|a: Seq<char>| #[trigger] after.contains_key(a) implies exists|
                        j: int,
                    |
                        binds(bindings@, a, j) by {
                        let j = if a == alias_name@ {
                            last
                        } else {
                            choose|j: int| binds(before, a, j)
                        };
                        assert(binds(bindings@, a, j));
                    }
                }
            },
        }
        proof {
            lemma_same_table(bindings@, after);
        }
        *self = AliasTable { bindings };
    }

    /// The path that `alias_name` was last bound to, or nothing if it was
    /// never bound.
    pub fn lookup(&self, alias_name: &str) -> (path: Option<&str>)
        ensures
            path_view(path) == looked_up(self@, alias_name@),
    {
        proof {
            use_type_invariant(self);
        }
        match self.find(alias_name) {
            Some(i) => {
                proof {
                    lemma_binding(self.bindings@, alias_name@, i as int);
                }
                Some(self.bindings[i].resolved_path.as_str())
            },
            None => None,
        }
    }
}

} // verus!
