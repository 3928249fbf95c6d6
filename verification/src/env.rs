use vstd::prelude::*;
use vstd::string::*;
use crate::eval::{clone_named_info, clone_stmt, clone_strings};
use crate::semantics::{
    env_store, lemma_scopes_view_concat, lemma_scopes_view_index, lemma_scopes_view_len, lookup,
    lookup_level, scope_map, scopes_view, view_named, view_stmt, NamedV,
};
use crate::stmt::Stmt;
use crate::utils;
use crate::val::Val;

verus! {

broadcast use vstd::std_specs::vec::group_vec_axioms, vstd::seq::group_seq_axioms;

/// What a name stands for in a scope: a bound value, or a function's
/// parameter list and unevaluated body.
#[derive(Debug, PartialEq)]
pub enum NamedInfo {
    Binding(Val),
    Func { params: Vec<String>, body: Stmt },
}

impl NamedInfo {
    pub(crate) fn into_binding(self) -> (r: Option<Val>)
        ensures
            (match r {
                Some(v) => view_named(self) == NamedV::Binding(v),
                None => !(view_named(self) matches NamedV::Binding(_)),
            }),
    {
        if let Self::Binding(val) = self {
            Some(val)
        } else {
            None
        }
    }

    pub(crate) fn into_func(self) -> (r: Option<(Vec<String>, Stmt)>)
        ensures
            (match r {
                Some((params, body)) => view_named(self) == (NamedV::Func {
                    params: params.deep_view(),
                    body: view_stmt(body),
                }),
                None => !(view_named(self) matches NamedV::Func { .. }),
            }),
    {
        if let Self::Func { params, body } = self {
            Some((params, body))
        } else {
            None
        }
    }
}

/// The scope chain: the root scope, then the nested child scopes, the
/// innermost last. Its view is the sequence of the scopes' maps.
#[derive(Debug, PartialEq)]
pub struct Env {
    root: Vec<(String, NamedInfo)>,
    children: Vec<Vec<(String, NamedInfo)>>,
}

impl View for Env {
    type V = Seq<Map<Seq<char>, NamedV>>;

    closed spec fn view(&self) -> Seq<Map<Seq<char>, NamedV>> {
        seq![scope_map(self.root@)] + scopes_view(self.children@)
    }
}

impl Default for Env {
    /// The empty root environment.
    fn default() -> (r: Self)
        ensures
            r@ =~= seq![Map::<Seq<char>, NamedV>::empty()],
            r@.len() == 1,
    {
        let r = Env { root: Vec::new(), children: Vec::new() };
        proof {
            assert(r@ =~= seq![Map::<Seq<char>, NamedV>::empty()]);
        }
        r
    }
}

impl Env {
    proof fn lemma_len(&self)
        ensures
            self@.len() == 1 + self.children@.len(),
    {
        lemma_scopes_view_len(self.children@);
    }

    /// The chain always holds at least the root scope.
    pub proof fn lemma_nonempty(&self)
        ensures
            self@.len() >= 1,
    {
        self.lemma_len();
    }

    /// Appends an entry to the innermost scope; at the view, this inserts
    /// under the name, shadowing any earlier entry of that scope.
    fn cur_scope_push(&mut self, name: String, info: NamedInfo)
        ensures
            final(self)@ == env_store(old(self)@, name@, view_named(info)),
    {
        proof {
            self.lemma_len();
        }
        let ghost oldenv = self@;
        let ghost nv = view_named(info);
        if self.children.len() == 0 {
            let ghost oldroot = self.root@;
            self.root.push((name, info));
            proof {
                assert(self.root@.drop_last() =~= oldroot);
                assert(scope_map(self.root@) == scope_map(oldroot).insert(name@, nv));
                assert(self@ =~= env_store(oldenv, name@, nv));
            }
        } else {
            let ghost oldchildren = self.children@;
            let n = self.children.len();
            let mut top = match self.children.pop() {
                Some(t) => t,
                None => Vec::new(),
            };
            let ghost oldtop = top@;
            top.push((name, info));
            self.children.push(top);
            proof {
                assert(top@.drop_last() =~= oldtop);
                assert(scope_map(top@) == scope_map(oldtop).insert(name@, nv));
                assert(oldchildren.subrange(0, n - 1).push(oldchildren.last()) =~= oldchildren);
                assert(self.children@.drop_last() =~= oldchildren.subrange(0, n - 1));
                assert(scopes_view(self.children@) == scopes_view(
                    oldchildren.subrange(0, n - 1),
                ).push(scope_map(top@)));
                assert(scopes_view(oldchildren) == scopes_view(
                    oldchildren.subrange(0, n - 1),
                ).push(scope_map(oldtop)));
                lemma_scopes_view_len(oldchildren.subrange(0, n - 1));
                assert(self@ =~= env_store(oldenv, name@, nv));
            }
        }
    }

    /// Stores a value under a name in the innermost scope.
    pub fn store_binding(&mut self, name: String, val: Val)
        ensures
            final(self)@ == env_store(old(self)@, name@, NamedV::Binding(val)),
    {
        self.cur_scope_push(name, NamedInfo::Binding(val));
    }

    /// Stores a function's parameter list and unevaluated body under a name
    /// in the innermost scope.
    pub fn store_func(&mut self, name: String, params: Vec<String>, body: Stmt)
        ensures
            final(self)@ == env_store(
                old(self)@,
                name@,
                NamedV::Func { params: params.deep_view(), body: view_stmt(body) },
            ),
    {
        self.cur_scope_push(name, NamedInfo::Func { params, body });
    }

    /// Opens a fresh, empty innermost scope.
    pub(crate) fn push_scope(&mut self)
        ensures
            final(self)@ == old(self)@.push(Map::<Seq<char>, NamedV>::empty()),
    {
        let ghost oldchildren = self.children@;
        self.children.push(Vec::new());
        proof {
            assert(self.children@.drop_last() =~= oldchildren);
            assert(self.children@.last()@ =~= Seq::<(String, NamedInfo)>::empty());
            assert(scopes_view(self.children@) == scopes_view(oldchildren).push(
                Map::<Seq<char>, NamedV>::empty(),
            ));
            assert(self@ =~= old(self)@.push(Map::<Seq<char>, NamedV>::empty()));
        }
    }

    /// Discards the innermost scope.
    pub(crate) fn pop_scope(&mut self)
        requires
            old(self)@.len() >= 2,
        ensures
            final(self)@ == old(self)@.drop_last(),
    {
        proof {
            self.lemma_len();
        }
        let ghost oldchildren = self.children@;
        let _ = self.children.pop();
        proof {
            assert(self.children@ =~= oldchildren.drop_last());
            assert(oldchildren.drop_last().push(oldchildren.last()) =~= oldchildren);
            assert(scopes_view(oldchildren) == scopes_view(oldchildren.drop_last()).push(
                scope_map(oldchildren.last()@),
            ));
            assert(self@ =~= old(self)@.drop_last());
        }
    }

    /// Sets aside every scope above level `j`, leaving scopes `0..=j`.
    pub(crate) fn split_off_scopes(&mut self, j: usize) -> (hidden: Vec<Vec<(String, NamedInfo)>>)
        requires
            j + 1 <= old(self)@.len(),
        ensures
            final(self)@ == old(self)@.subrange(0, j + 1),
            old(self)@ == final(self)@ + scopes_view(hidden@),
    {
        proof {
            self.lemma_len();
        }
        let ghost oldchildren = self.children@;
        let hidden = self.children.split_off(j);
        proof {
            assert(oldchildren =~= self.children@ + hidden@);
            lemma_scopes_view_concat(self.children@, hidden@);
            lemma_scopes_view_len(self.children@);
            assert(self@ =~= old(self)@.subrange(0, j + 1));
            assert(old(self)@ =~= self@ + scopes_view(hidden@));
        }
        hidden
    }

    /// Puts back the scopes that `split_off_scopes` set aside.
    pub(crate) fn restore_scopes(&mut self, hidden: Vec<Vec<(String, NamedInfo)>>)
        ensures
            final(self)@ == old(self)@ + scopes_view(hidden@),
    {
        let ghost oldchildren = self.children@;
        let mut h = hidden;
        self.children.append(&mut h);
        proof {
            lemma_scopes_view_concat(oldchildren, hidden@);
            assert(self@ =~= old(self)@ + scopes_view(hidden@));
        }
    }

    /// Finds an entry in one scope; the last entry under a name wins.
    fn scope_find<'a>(scope: &'a Vec<(String, NamedInfo)>, name: &str) -> (r: Option<
        &'a NamedInfo,
    >)
        ensures
            (match r {
                Some(info) => scope_map(scope@).contains_key(name@) && scope_map(scope@)[name@]
                    == view_named(*info),
                None => !scope_map(scope@).contains_key(name@),
            }),
    {
        let mut i: usize = scope.len();
        proof {
            assert(scope@.subrange(0, scope@.len() as int) =~= scope@);
        }
        loop
            invariant
                i <= scope@.len(),
                scope_map(scope@).contains_key(name@) <==> scope_map(
                    scope@.subrange(0, i as int),
                ).contains_key(name@),
                scope_map(scope@).contains_key(name@) ==> scope_map(scope@)[name@] == scope_map(
                    scope@.subrange(0, i as int),
                )[name@],
            decreases i,
        {
            if i == 0 {
                proof {
                    assert(scope@.subrange(0, 0) =~= Seq::<(String, NamedInfo)>::empty());
                }
                return None;
            }
            i = i - 1;
            let entry = &scope[i];
            proof {
                assert(scope@.subrange(0, i + 1).drop_last() =~= scope@.subrange(0, i as int));
                assert(scope@.subrange(0, i + 1).last() == scope@[i as int]);
            }
            if utils::str_eq(entry.0.as_str(), name) {
                return Some(&entry.1);
            }
        }
    }

    /// Walks the chain from the innermost scope outward; returns the level
    /// and the entry of the first scope that binds the name.
    pub(crate) fn lookup_named<'a>(&'a self, name: &str) -> (r: Option<(usize, &'a NamedInfo)>)
        ensures
            (match r {
                Some((j, info)) => {
                    &&& lookup_level(self@, name@) == j as int
                    &&& (j as int) < self@.len()
                    &&& lookup(self@, name@) == Some(view_named(*info))
                },
                None => lookup_level(self@, name@) == -1 && lookup(self@, name@) is None,
            }),
    {
        proof {
            self.lemma_len();
        }
        let mut k: usize = self.children.len();
        proof {
            assert(self@.subrange(0, self@.len() as int) =~= self@);
        }
        loop
            invariant
                k <= self.children@.len(),
                self@.len() == 1 + self.children@.len(),
                lookup_level(self@, name@) == lookup_level(
                    self@.subrange(0, k + 1 as int),
                    name@,
                ),
            ensures
                lookup_level(self@, name@) == lookup_level(self@.subrange(0, 1), name@),
            decreases k,
        {
            if k == 0 {
                break;
            }
            k = k - 1;
            proof {
                lemma_scopes_view_index(self.children@, k as int);
                assert(self@[k + 1 as int] == scope_map(self.children@[k as int]@));
                assert(self@.subrange(0, k + 2 as int).last() == self@[k + 1 as int]);
                assert(self@.subrange(0, k + 2 as int).drop_last() =~= self@.subrange(
                    0,
                    k + 1 as int,
                ));
            }
            match Self::scope_find(&self.children[k], name) {
                Some(info) => {
                    proof {
                        assert(lookup_level(self@, name@) == k + 1);
                    }
                    return Some((k + 1, info));
                },
                None => {},
            }
        }
        proof {
            assert(self@.subrange(0, 1).last() == self@[0]);
            assert(self@[0] == scope_map(self.root@));
            assert(self@.subrange(0, 1).drop_last() =~= self@.subrange(0, 0));
            assert(self@.subrange(0, 0) =~= Seq::<Map<Seq<char>, NamedV>>::empty());
        }
        match Self::scope_find(&self.root, name) {
            Some(info) => {
                proof {
                    assert(self@.subrange(0, 1).len() == 1);
                    assert(self@.subrange(0, 1).last().contains_key(name@));
                    assert(lookup_level(self@.subrange(0, 1), name@) == 0);
                    assert(lookup_level(self@, name@) == 0);
                    assert(self@[0][name@] == view_named(*info));
                }
                Some((0, info))
            },
            None => {
                proof {
                    assert(self@.subrange(0, 1).len() == 1);
                    assert(!self@.subrange(0, 1).last().contains_key(name@));
                    assert(lookup_level(self@.subrange(0, 1).drop_last(), name@) == -1);
                    assert(lookup_level(self@, name@) == -1);
                }
                None
            },
        }
    }

    /// Resolves a name to the value bound to it, walking the chain outward.
    pub fn get_binding(&self, name: &str) -> (r: Result<Val, String>)
        ensures
            (match r {
                Ok(v) => lookup(self@, name@) == Some(NamedV::Binding(v)),
                Err(m) => {
                    &&& !(lookup(self@, name@) matches Some(NamedV::Binding(_)))
                    &&& m@ == crate::semantics::err_msg(
                        crate::semantics::EvalErrV::NotBound(name@),
                    )
                },
            }),
    {
        match self.lookup_named(name) {
            Some((_, NamedInfo::Binding(v))) => Ok(*v),
            _ => Err(not_bound_message(name)),
        }
    }

    /// Resolves a name to a function's parameters and body, walking the
    /// chain outward.
    pub fn get_func(&self, name: &str) -> (r: Result<(Vec<String>, Stmt), String>)
        ensures
            (match r {
                Ok((params, body)) => lookup(self@, name@) == Some(
                    NamedV::Func { params: params.deep_view(), body: view_stmt(body) },
                ),
                Err(m) => {
                    &&& !(lookup(self@, name@) matches Some(NamedV::Func { .. }))
                    &&& m@ == crate::semantics::err_msg(
                        crate::semantics::EvalErrV::NotBound(name@),
                    )
                },
            }),
    {
        match self.lookup_named(name) {
            Some((_, info)) => match info {
                NamedInfo::Func { params, body } => Ok((clone_strings(params), clone_stmt(body))),
                _ => Err(not_bound_message(name)),
            },
            _ => Err(not_bound_message(name)),
        }
    }

    /// Resolves a name to whatever it stands for, walking the chain outward.
    pub(crate) fn get_named_info(&self, name: &str) -> (r: Option<NamedInfo>)
        ensures
            (match r {
                Some(info) => lookup(self@, name@) == Some(view_named(info)),
                None => lookup(self@, name@) is None,
            }),
    {
        match self.lookup_named(name) {
            Some((_, info)) => Some(clone_named_info(info)),
            None => None,
        }
    }
}

/// The diagnostic for a name that the chain does not bind as asked.
pub(crate) fn not_bound_message(name: &str) -> (r: String)
    ensures
        r@ == crate::semantics::err_msg(crate::semantics::EvalErrV::NotBound(name@)),
{
    let mut m = String::from_str("binding with name '");
    m.append(name);
    m.append("' does not exist");
    m
}

} // verus!
