//! The chain of lexical scopes.
//!
//! All scopes ever created live in one arena, and a scope names its
//! enclosing scope by index. A callable keeps the index of its defining
//! scope, so a closure reads and writes the very bindings that were in
//! force at its declaration, however long it outlives the block that made
//! them. A parent index is always smaller than the index of the scope that
//! carries it, so every walk up the chain ends; a link that does not point
//! downwards is treated as the end of the chain.
//!
//! `define` writes the current scope only; `assign` overwrites the first
//! binding found walking the chain and fails when none exists; `get` reads
//! the same way without writing.

use crate::literals::{LiteralValue, SpecValue};
use vstd::hash_map::StringHashMap;
use vstd::prelude::*;
use vstd::string::StringExecFns;

verus! {

/// One scope: its bindings and, unless it is a root, its enclosing scope.
pub struct Scope {
    vars: StringHashMap<LiteralValue>,
    parent: Option<usize>,
}

/// The mathematical image of one scope.
#[verifier::ext_equal]
pub struct SpecScope {
    pub vars: Map<Seq<char>, SpecValue>,
    pub parent: Option<nat>,
}

/// The image of a binding table.
pub open spec fn vars_view(m: Map<Seq<char>, LiteralValue>) -> Map<Seq<char>, SpecValue> {
    Map::new(|k: Seq<char>| m.dom().contains(k), |k: Seq<char>| m[k]@)
}

impl View for Scope {
    type V = SpecScope;

    closed spec fn view(&self) -> SpecScope {
        SpecScope {
            vars: vars_view(self.vars@),
            parent: match self.parent {
                Some(p) => Some(p as nat),
                None => None,
            },
        }
    }
}

/// Whether the chain starting at `env` has a binding for `name`.
pub open spec fn chain_contains(scopes: Seq<SpecScope>, env: nat, name: Seq<char>) -> bool
    decreases env,
{
    if env >= scopes.len() {
        false
    } else if scopes[env as int].vars.dom().contains(name) {
        true
    } else {
        match scopes[env as int].parent {
            Some(p) => if p < env {
                chain_contains(scopes, p, name)
            } else {
                false
            },
            None => false,
        }
    }
}

/// The value bound to `name` in the first scope of the chain that binds it.
pub open spec fn chain_lookup(scopes: Seq<SpecScope>, env: nat, name: Seq<char>) -> Option<
    SpecValue,
>
    decreases env,
{
    if env >= scopes.len() {
        None
    } else if scopes[env as int].vars.dom().contains(name) {
        Some(scopes[env as int].vars[name])
    } else {
        match scopes[env as int].parent {
            Some(p) => if p < env {
                chain_lookup(scopes, p, name)
            } else {
                None
            },
            None => None,
        }
    }
}

/// The scopes after overwriting `name` in the first scope of the chain
/// that binds it, or `None` when no scope of the chain binds it —
/// assignment never creates a binding.
pub open spec fn chain_assign(
    scopes: Seq<SpecScope>,
    env: nat,
    name: Seq<char>,
    v: SpecValue,
) -> Option<Seq<SpecScope>>
    decreases env,
{
    if env >= scopes.len() {
        None
    } else if scopes[env as int].vars.dom().contains(name) {
        Some(
            scopes.update(
                env as int,
                SpecScope {
                    vars: scopes[env as int].vars.insert(name, v),
                    parent: scopes[env as int].parent,
                },
            ),
        )
    } else {
        match scopes[env as int].parent {
            Some(p) => if p < env {
                chain_assign(scopes, p, name, v)
            } else {
                None
            },
            None => None,
        }
    }
}

/// Assignment never opens or closes a scope: a successful `chain_assign`
/// keeps the number of scopes, every parent link, and the domain of every
/// binding table.
pub proof fn lemma_chain_assign_shape(
    scopes: Seq<SpecScope>,
    env: nat,
    name: Seq<char>,
    v: SpecValue,
)
    ensures
        (match chain_assign(scopes, env, name, v) {
            Some(s2) => {
                &&& s2.len() == scopes.len()
                &&& forall|i: int|
                    0 <= i < scopes.len() ==> #[trigger] s2[i].parent == scopes[i].parent
                &&& forall|i: int|
                    0 <= i < scopes.len() ==> #[trigger] s2[i].vars.dom()
                        == scopes[i].vars.dom()
            },
            None => true,
        }),
    decreases env,
{
    if env < scopes.len() {
        if scopes[env as int].vars.dom().contains(name) {
            assert(forall|i: int|
                0 <= i < scopes.len() && i != env ==> #[trigger] chain_assign(
                    scopes,
                    env,
                    name,
                    v,
                ).unwrap()[i] == scopes[i]);
            assert(chain_assign(scopes, env, name, v).unwrap()[env as int].vars.dom()
                =~= scopes[env as int].vars.dom());
        } else {
            match scopes[env as int].parent {
                Some(p) => {
                    if p < env {
                        lemma_chain_assign_shape(scopes, p, name, v);
                    }
                },
                None => {},
            }
        }
    }
}

/// The outermost ancestor of `env`.
pub open spec fn chain_root(scopes: Seq<SpecScope>, env: nat) -> nat
    decreases env,
{
    if env >= scopes.len() {
        env
    } else {
        match scopes[env as int].parent {
            Some(p) => if p < env {
                chain_root(scopes, p)
            } else {
                env
            },
            None => env,
        }
    }
}

/// The first scope of the chain from `env` that binds `name`; only
/// meaningful when the chain does bind it.
pub open spec fn chain_holder(scopes: Seq<SpecScope>, env: nat, name: Seq<char>) -> nat
    recommends
        chain_contains(scopes, env, name),
    decreases env,
{
    if env >= scopes.len() {
        env
    } else if scopes[env as int].vars.dom().contains(name) {
        env
    } else {
        match scopes[env as int].parent {
            Some(p) => if p < env {
                chain_holder(scopes, p, name)
            } else {
                env
            },
            None => env,
        }
    }
}

/// Opening a new scope at the end of the arena changes nothing that an
/// existing chain sees.
pub proof fn lemma_chain_lookup_push(
    scopes: Seq<SpecScope>,
    x: SpecScope,
    env: nat,
    name: Seq<char>,
)
    requires
        env < scopes.len(),
    ensures
        chain_lookup(scopes.push(x), env, name) == chain_lookup(scopes, env, name),
    decreases env,
{
    if !scopes[env as int].vars.dom().contains(name) {
        match scopes[env as int].parent {
            Some(p) => {
                if p < env {
                    lemma_chain_lookup_push(scopes, x, p, name);
                }
            },
            None => {},
        }
    }
}

/// Two arenas that agree on the parent links and binding domains of their
/// first `n` scopes make the same names visible from every scope below
/// `n`.
pub proof fn lemma_chain_contains_congruent(
    s1: Seq<SpecScope>,
    s2: Seq<SpecScope>,
    n: nat,
    env: nat,
    name: Seq<char>,
)
    requires
        env < n,
        n <= s1.len(),
        n <= s2.len(),
        forall|i: int|
            0 <= i < n ==> #[trigger] s2[i].parent == s1[i].parent && s2[i].vars.dom()
                == s1[i].vars.dom(),
    ensures
        chain_contains(s2, env, name) == chain_contains(s1, env, name),
    decreases env,
{
    if !s1[env as int].vars.dom().contains(name) {
        match s1[env as int].parent {
            Some(p) => {
                if p < env {
                    lemma_chain_contains_congruent(s1, s2, n, p, name);
                }
            },
            None => {},
        }
    }
}

/// The arena of all scopes.
pub struct Environment {
    scopes: Vec<Scope>,
}

impl View for Environment {
    type V = Seq<SpecScope>;

    closed spec fn view(&self) -> Seq<SpecScope> {
        Seq::new(self.scopes@.len(), |i: int| self.scopes@[i]@)
    }
}

impl Environment {
    /// An arena holding a single empty root scope.
    pub fn new() -> (r: Environment)
        ensures
            r@ =~= seq![SpecScope { vars: Map::empty(), parent: None }],
    {
        let mut scopes: Vec<Scope> = Vec::new();
        scopes.push(Scope { vars: StringHashMap::new(), parent: None });
        proof {
            assert(vars_view(Map::empty()) =~= Map::<Seq<char>, SpecValue>::empty());
        }
        Environment { scopes }
    }

    /// How many scopes exist.
    pub fn scope_count(&self) -> (n: usize)
        ensures
            n == self@.len(),
    {
        self.scopes.len()
    }

    /// Opens a new empty scope whose enclosing scope is `parent`, and
    /// returns its index.
    pub fn push_scope(&mut self, parent: usize) -> (idx: usize)
        ensures
            final(self)@ =~= old(self)@.push(
                SpecScope { vars: Map::empty(), parent: Some(parent as nat) },
            ),
            idx == old(self)@.len(),
    {
        let idx = self.scopes.len();
        self.scopes.push(Scope { vars: StringHashMap::new(), parent: Some(parent) });
        proof {
            assert(vars_view(Map::empty()) =~= Map::<Seq<char>, SpecValue>::empty());
            assert(final(self)@ =~= old(self)@.push(
                SpecScope { vars: Map::empty(), parent: Some(parent as nat) },
            ));
        }
        idx
    }

    /// Inserts or overwrites a binding in scope `env` itself — never in an
    /// ancestor, and with no complaint about redefinition.
    pub fn define(&mut self, env: usize, name: String, value: LiteralValue)
        requires
            env < old(self)@.len(),
        ensures
            final(self)@ =~= old(self)@.update(
                env as int,
                SpecScope {
                    vars: old(self)@[env as int].vars.insert(name@, value@),
                    parent: old(self)@[env as int].parent,
                },
            ),
    {
        let ghost name_view = name@;
        let ghost value_view = value@;
        self.scopes[env].vars.insert(name, value);
        proof {
            assert(final(self).scopes@[env as int]@ =~= SpecScope {
                vars: old(self)@[env as int].vars.insert(name_view, value_view),
                parent: old(self)@[env as int].parent,
            }) by {
                assert(vars_view(old(self).scopes@[env as int].vars@.insert(name_view, value))
                    =~= vars_view(old(self).scopes@[env as int].vars@).insert(
                    name_view,
                    value_view,
                ));
            }
            assert(final(self)@ =~= old(self)@.update(
                env as int,
                SpecScope {
                    vars: old(self)@[env as int].vars.insert(name_view, value_view),
                    parent: old(self)@[env as int].parent,
                },
            ));
        }
    }

    /// Walks to the outermost ancestor of `env`.
    fn root_of(&self, env: usize) -> (r: usize)
        requires
            env < self@.len(),
        ensures
            r as nat == chain_root(self@, env as nat),
            r < self@.len(),
        decreases env,
    {
        match self.scopes[env].parent {
            Some(p) => {
                if p < env {
                    self.root_of(p)
                } else {
                    env
                }
            },
            None => env,
        }
    }

    /// Inserts or overwrites a binding in the outermost ancestor of `env`.
    pub fn define_top_level(&mut self, env: usize, name: String, value: LiteralValue)
        requires
            env < old(self)@.len(),
        ensures
            final(self)@ =~= old(self)@.update(
                chain_root(old(self)@, env as nat) as int,
                SpecScope {
                    vars: old(self)@[chain_root(old(self)@, env as nat) as int].vars.insert(
                        name@,
                        value@,
                    ),
                    parent: old(self)@[chain_root(old(self)@, env as nat) as int].parent,
                },
            ),
    {
        let root = self.root_of(env);
        self.define(root, name, value);
    }

    /// Overwrites the binding for `name` in the nearest scope of the chain
    /// that has one and reports success, or reports failure when no scope
    /// of the chain binds `name`.
    pub fn assign(&mut self, env: usize, name: &str, value: LiteralValue) -> (ok: bool)
        requires
            env < old(self)@.len(),
        ensures
            (match chain_assign(old(self)@, env as nat, name@, value@) {
                Some(s2) => ok && final(self)@ == s2,
                None => !ok && final(self)@ == old(self)@,
            }),
        decreases env,
    {
        let contains = self.scopes[env].vars.contains_key(name);
        if contains {
            let owned = name.to_owned();
            self.define(env, owned, value);
            true
        } else {
            match self.scopes[env].parent {
                Some(p) => {
                    if p < env {
                        self.assign(p, name, value)
                    } else {
                        false
                    }
                },
                None => false,
            }
        }
    }

    /// The value bound to `name` in the nearest scope of the chain that
    /// binds it.
    pub fn get(&self, env: usize, name: &str) -> (r: Option<LiteralValue>)
        requires
            env < self@.len(),
        ensures
            (match chain_lookup(self@, env as nat, name@) {
                Some(v) => r matches Some(x) && x@ == v,
                None => r is None,
            }),
        decreases env,
    {
        match self.scopes[env].vars.get(name) {
            Some(v) => Some(v.duplicate()),
            None => {
                match self.scopes[env].parent {
                    Some(p) => {
                        if p < env {
                            self.get(p, name)
                        } else {
                            None
                        }
                    },
                    None => None,
                }
            },
        }
    }
}

} // verus!
