use vstd::prelude::*;

use crate::object::{obj_v, Object, SObject};
use crate::text::owned;

verus! {

// ---------------------------------------------------------------------------
// Scopes and the runtime that keeps them
// ---------------------------------------------------------------------------

/// A handle on an environment kept by a `Runtime`.
#[derive(Clone, Copy, Debug, PartialEq, Eq, Structural)]
pub struct EnvironmentRef {
    pub index: usize,
}

/// A name and the value bound to it.
#[derive(Debug, PartialEq, Eq)]
pub struct Binding {
    pub name: String,
    pub value: Object,
}

/// The bindings of one scope, and the scope that encloses it.
#[derive(Debug, PartialEq, Eq)]
pub struct Environment {
    store: Vec<Binding>,
    outer: Option<EnvironmentRef>,
}

/// The abstract value of a scope: what each name is bound to, and the enclosing scope.
pub struct SFrame {
    pub store: Map<Seq<char>, SObject>,
    pub outer: Option<nat>,
}

/// The abstract value of a runtime: its scopes, by handle, and the lines printed so far.
pub struct SRuntime {
    pub envs: Seq<SFrame>,
    pub output: Seq<Seq<char>>,
}

/// The bindings of a store, a later binding of a name hiding an earlier one.
pub open spec fn store_map(s: Seq<Binding>) -> Map<Seq<char>, SObject>
    decreases s.len(),
{
    if s.len() == 0 {
        Map::empty()
    } else {
        store_map(s.drop_last()).insert(s.last().name@, obj_v(s.last().value))
    }
}

/// The value bound to `name` in `m`, if any.
pub open spec fn bound(m: Map<Seq<char>, SObject>, name: Seq<char>) -> Option<SObject> {
    if m.dom().contains(name) {
        Some(m[name])
    } else {
        None
    }
}

/// The value that `name` has in scope `i`: its own binding, else the one it has in the
/// enclosing scope. A handle that names no scope binds nothing.
pub open spec fn lookup(envs: Seq<SFrame>, i: int, name: Seq<char>) -> Option<SObject>
    decreases i,
{
    if 0 <= i < envs.len() {
        match bound(envs[i].store, name) {
            Some(v) => Some(v),
            None => match envs[i].outer {
                Some(o) => if o < i {
                    lookup(envs, o as int, name)
                } else {
                    None
                },
                None => None,
            },
        }
    } else {
        None
    }
}

/// The value that `name` has in the scope `f`, whose enclosing scope is kept in `envs`.
pub open spec fn frame_lookup(f: SFrame, envs: Seq<SFrame>, name: Seq<char>) -> Option<SObject> {
    match bound(f.store, name) {
        Some(v) => Some(v),
        None => match f.outer {
            Some(o) => lookup(envs, o as int, name),
            None => None,
        },
    }
}

/// The runtime after `name` is bound to `v` in scope `i`; a handle that names no scope
/// changes nothing.
pub open spec fn assign(rt: SRuntime, i: int, name: Seq<char>, v: SObject) -> SRuntime {
    if 0 <= i < rt.envs.len() {
        SRuntime {
            envs: rt.envs.update(
                i,
                SFrame { store: rt.envs[i].store.insert(name, v), outer: rt.envs[i].outer },
            ),
            output: rt.output,
        }
    } else {
        rt
    }
}

/// The runtime with one more scope, empty, enclosed by `outer`.
pub open spec fn extend(rt: SRuntime, outer: Option<nat>) -> SRuntime {
    SRuntime {
        envs: rt.envs.push(SFrame { store: Map::empty(), outer }),
        output: rt.output,
    }
}

/// A name read in the scope it was just bound in gives back the value bound.
pub proof fn law_read_after_write(rt: SRuntime, i: nat, name: Seq<char>, v: SObject)
    requires
        i < rt.envs.len(),
    ensures
        lookup(assign(rt, i as int, name, v).envs, i as int, name) == Some(v),
{
}

/// Binding a name leaves every other name as it was, in every scope, and leaves every scope
/// that the bound one does not enclose as it was, whatever name is read there.
pub proof fn law_write_is_local(rt: SRuntime, i: int, name: Seq<char>, v: SObject, j: int, other: Seq<char>)
    requires
        other != name || j < i,
    ensures
        lookup(assign(rt, i, name, v).envs, j, other) == lookup(rt.envs, j, other),
    decreases j,
{
    let after = assign(rt, i, name, v).envs;
    if 0 <= j < rt.envs.len() {
        assert(after.len() == rt.envs.len());
        if 0 <= i < rt.envs.len() && j == i {
            assert(bound(after[j].store, other) == bound(rt.envs[j].store, other));
        } else {
            assert(after[j] == rt.envs[j]);
        }
        assert(after[j].outer == rt.envs[j].outer);
        match rt.envs[j].outer {
            Some(o) => {
                if o < j {
                    law_write_is_local(rt, i, name, v, o as int, other);
                }
            },
            None => {},
        }
    }
}

/// A new scope leaves what every existing scope sees as it was.
pub proof fn law_extend_keeps_scopes(rt: SRuntime, outer: Option<nat>, j: int, name: Seq<char>)
    requires
        0 <= j < rt.envs.len(),
    ensures
        lookup(extend(rt, outer).envs, j, name) == lookup(rt.envs, j, name),
    decreases j,
{
    let after = extend(rt, outer).envs;
    if 0 <= j < rt.envs.len() {
        assert(after[j] == rt.envs[j]);
        match rt.envs[j].outer {
            Some(o) => {
                if o < j {
                    law_extend_keeps_scopes(rt, outer, o as int, name);
                }
            },
            None => {},
        }
    }
}

/// The abstract value of a value that may be missing.
pub open spec fn opt_v(o: Option<Object>) -> Option<SObject> {
    match o {
        Some(v) => Some(obj_v(v)),
        None => None,
    }
}

impl View for Environment {
    type V = SFrame;

    closed spec fn view(&self) -> SFrame {
        SFrame {
            store: store_map(self.store@),
            outer: match self.outer {
                Some(r) => Some(r.index as nat),
                None => None,
            },
        }
    }
}

/// The bindings of `s` that are not hidden by a later one.
proof fn lemma_store_take(s: Seq<Binding>, j: int, name: Seq<char>)
    requires
        0 < j <= s.len(),
    ensures
        bound(store_map(s.take(j)), name) == if s[j - 1].name@ == name {
            Some(obj_v(s[j - 1].value))
        } else {
            bound(store_map(s.take(j - 1)), name)
        },
{
    assert(s.take(j).drop_last() =~= s.take(j - 1));
    assert(s.take(j).last() == s[j - 1]);
}

/// The value bound to `name` in a store, searched from its latest binding.
fn store_get(s: &Vec<Binding>, name: &str) -> (r: Option<Object>)
    ensures
        opt_v(r) == bound(store_map(s@), name@),
{
    let mut j: usize = s.len();
    assert(s@.take(j as int) =~= s@);
    while j > 0
        invariant
            j <= s@.len(),
            bound(store_map(s@.take(j as int)), name@) == bound(store_map(s@), name@),
        decreases j,
    {
        proof {
            lemma_store_take(s@, j as int, name@);
        }
        if crate::text::same_text(&s[j - 1].name, name) {
            return Some(s[j - 1].value.duplicate());
        }
        j = j - 1;
    }
    assert(s@.take(0) =~= Seq::<Binding>::empty());
    None
}

impl Environment {
    /// A scope with no bindings and no enclosing scope.
    pub fn new() -> (e: Environment)
        ensures
            e@.store == Map::<Seq<char>, SObject>::empty(),
            e@.outer is None,
    {
        Environment { store: Vec::new(), outer: None }
    }

    /// A scope with no bindings, enclosed by `outer`.
    pub fn new_enclosed(outer: EnvironmentRef) -> (e: Environment)
        ensures
            e@.store == Map::<Seq<char>, SObject>::empty(),
            e@.outer == Some(outer.index as nat),
    {
        Environment { store: Vec::new(), outer: Some(outer) }
    }

    /// The value of `name` here: this scope's binding, else the one it has in the enclosing
    /// scope, which `runtime` keeps.
    pub fn get(&self, runtime: &Runtime, name: &str) -> (r: Option<Object>)
        ensures
            opt_v(r) == frame_lookup(self@, runtime@.envs, name@),
    {
        match store_get(&self.store, name) {
            Some(v) => Some(v),
            None => match self.outer {
                Some(o) => runtime.get(o, name),
                None => None,
            },
        }
    }

    /// Binds `name` to `value` in this scope, and gives the value back.
    pub fn set(&mut self, name: &str, value: Object) -> (r: Object)
        ensures
            final(self)@.store == old(self)@.store.insert(name@, value@),
            final(self)@.outer == old(self)@.outer,
            r@ == value@,
    {
        let r = value.duplicate();
        self.store.push(Binding { name: owned(name), value });
        proof {
            assert(self.store@.drop_last() =~= old(self).store@);
        }
        r
    }
}

/// The scopes of a program run, each reached by its handle, and the lines it printed.
#[derive(Debug, PartialEq, Eq)]
pub struct Runtime {
    environments: Vec<Environment>,
    output: Vec<String>,
}

impl View for Runtime {
    type V = SRuntime;

    closed spec fn view(&self) -> SRuntime {
        SRuntime {
            envs: Seq::new(self.environments@.len(), |i: int| self.environments@[i]@),
            output: Seq::new(self.output@.len(), |i: int| self.output@[i]@),
        }
    }
}

impl Runtime {
    /// A runtime with no scopes and nothing printed.
    pub fn new() -> (r: Runtime)
        ensures
            r@.envs == Seq::<SFrame>::empty(),
            r@.output == Seq::<Seq<char>>::empty(),
    {
        let r = Runtime { environments: Vec::new(), output: Vec::new() };
        assert(r@.envs =~= Seq::<SFrame>::empty());
        assert(r@.output =~= Seq::<Seq<char>>::empty());
        r
    }

    /// Keeps `env`, and gives the handle that reaches it.
    pub fn add(&mut self, env: Environment) -> (r: EnvironmentRef)
        ensures
            r.index == old(self)@.envs.len(),
            final(self)@.envs == old(self)@.envs.push(env@),
            final(self)@.output == old(self)@.output,
    {
        let r = EnvironmentRef { index: self.environments.len() };
        let ghost e = env@;
        self.environments.push(env);
        assert(self@.envs =~= old(self)@.envs.push(e));
        assert(self@.output =~= old(self)@.output);
        r
    }

    /// Keeps a new, empty scope enclosed by `outer`, and gives its handle.
    pub fn add_enclosed(&mut self, outer: EnvironmentRef) -> (r: EnvironmentRef)
        ensures
            r.index == old(self)@.envs.len(),
            final(self)@ == extend(old(self)@, Some(outer.index as nat)),
    {
        let r = self.add(Environment::new_enclosed(outer));
        assert(self@.envs =~= extend(old(self)@, Some(outer.index as nat)).envs);
        r
    }

    /// The value of `name` in the scope that `env` reaches.
    pub fn get(&self, env: EnvironmentRef, name: &str) -> (r: Option<Object>)
        ensures
            opt_v(r) == lookup(self@.envs, env.index as int, name@),
    {
        let ghost envs = self@.envs;
        let mut i: usize = env.index;
        loop
            invariant
                envs == self@.envs,
                lookup(envs, i as int, name@) == lookup(envs, env.index as int, name@),
            decreases i,
        {
            if i >= self.environments.len() {
                return None;
            }
            let frame = &self.environments[i];
            assert(envs[i as int] == frame@);
            match store_get(&frame.store, name) {
                Some(v) => {
                    return Some(v);
                },
                None => match frame.outer {
                    Some(o) => {
                        if o.index < i {
                            i = o.index;
                        } else {
                            return None;
                        }
                    },
                    None => {
                        return None;
                    },
                },
            }
        }
    }

    /// Binds `name` to `value` in the scope that `env` reaches, and gives the value back.
    pub fn set(&mut self, env: EnvironmentRef, name: &str, value: Object) -> (r: Object)
        ensures
            final(self)@ == assign(old(self)@, env.index as int, name@, value@),
            r@ == value@,
    {
        let ghost v = value@;
        if env.index < self.environments.len() {
            let mut frame = Environment::new();
            std::mem::swap(&mut frame, &mut self.environments[env.index]);
            let r = frame.set(name, value);
            let ghost f = frame@;
            self.environments.set(env.index, frame);
            proof {
                assert(self@.envs =~= assign(old(self)@, env.index as int, name@, v).envs);
                assert(self@.output =~= old(self)@.output);
            }
            r
        } else {
            value
        }
    }

    /// Records a printed line.
    pub fn print(&mut self, line: String)
        ensures
            final(self)@.envs == old(self)@.envs,
            final(self)@.output == old(self)@.output.push(line@),
    {
        let ghost l = line@;
        self.output.push(line);
        assert(self@.envs =~= old(self)@.envs);
        assert(self@.output =~= old(self)@.output.push(l));
    }

    /// The lines printed so far, which are then forgotten.
    pub fn take_output(&mut self) -> (lines: Vec<String>)
        ensures
            final(self)@.envs == old(self)@.envs,
            final(self)@.output == Seq::<Seq<char>>::empty(),
            lines@.len() == old(self)@.output.len(),
            forall|i: int| 0 <= i < lines@.len() ==> #[trigger] lines@[i]@ == old(self)@.output[i],
    {
        let mut lines: Vec<String> = Vec::new();
        std::mem::swap(&mut lines, &mut self.output);
        assert(self@.envs =~= old(self)@.envs);
        assert(self@.output =~= Seq::<Seq<char>>::empty());
        lines
    }

    /// The number of scopes kept.
    pub fn len(&self) -> (n: usize)
        ensures
            n == self@.envs.len(),
    {
        self.environments.len()
    }
}

} // verus!
