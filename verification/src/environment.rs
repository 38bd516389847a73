//! The environment: a stack of scopes, each a map from names to values.
use vstd::prelude::*;
use vstd::string::StringExecFns;
use rustc_hash::FxHashMap;
use crate::error::{RuntimeError, RuntimeErrorKind};
use crate::value::{Value, ValueView};

verus! {

/// `rustc_hash::FxBuildHasher`, the hasher of the scopes' maps. It is
/// carried through; nothing is said of what is inside.
#[verifier::external_type_specification]
#[verifier::external_body]
pub struct ExFxBuildHasher(rustc_hash::FxBuildHasher);

/// What a scope holds: the value of each name that it defines.
pub type Bindings = Map<Seq<char>, ValueView>;

/// The scopes of an environment, the global scope first.
pub type Frames = Seq<Bindings>;

/// The bindings that a hash map of `rustc_hash` holds.
pub uninterp spec fn bindings(scope: FxHashMap<String, Value>) -> Bindings;

pub open spec fn no_bindings() -> Bindings {
    Map::empty()
}

/// What `get` gives for a name: the value bound to it, if any.
pub open spec fn bound(scope: Bindings, name: Seq<char>) -> Option<ValueView> {
    if scope.contains_key(name) {
        Some(scope[name])
    } else {
        None
    }
}

pub open spec fn option_view(v: Option<&Value>) -> Option<ValueView> {
    match v {
        Some(x) => Some(x@),
        None => None,
    }
}

/// `FxHashMap::default`: a map that holds nothing.
#[verifier::external_body]
fn scope_new() -> (scope: FxHashMap<String, Value>)
    ensures
        bindings(scope) == no_bindings(),
{
    FxHashMap::default()
}

/// `HashMap::contains_key` on a map of `rustc_hash`: whether the name is
/// bound.
#[verifier::external_body]
fn scope_contains(scope: &FxHashMap<String, Value>, name: &str) -> (b: bool)
    ensures
        b == bindings(*scope).contains_key(name@),
{
    scope.contains_key(name)
}

/// `HashMap::get` on a map of `rustc_hash`: the value bound to the name.
#[verifier::external_body]
fn scope_get<'a>(scope: &'a FxHashMap<String, Value>, name: &str) -> (v: Option<&'a Value>)
    ensures
        option_view(v) == bound(bindings(*scope), name@),
{
    scope.get(name)
}

/// `HashMap::insert` on a map of `rustc_hash`: binds the name to the value,
/// in place of what it was bound to.
#[verifier::external_body]
fn scope_insert(scope: &mut FxHashMap<String, Value>, name: &str, value: Value)
    ensures
        bindings(*final(scope)) == bindings(*old(scope)).insert(name@, value@),
{
    scope.insert(name.into(), value);
}

/// The innermost scope that binds the name, if any.
pub open spec fn defining_scope(frames: Frames, name: Seq<char>) -> Option<int>
    decreases frames.len(),
{
    if frames.len() == 0 {
        None
    } else if frames.last().contains_key(name) {
        Some(frames.len() - 1)
    } else {
        defining_scope(frames.drop_last(), name)
    }
}

/// The value of a name: that of the innermost scope that binds it.
pub open spec fn lookup(frames: Frames, name: Seq<char>) -> Option<ValueView> {
    match defining_scope(frames, name) {
        Some(i) => Some(frames[i][name]),
        None => None,
    }
}

/// The scopes after a definition: the innermost scope binds the name to
/// the value, whatever the outer scopes hold.
pub open spec fn defined(frames: Frames, name: Seq<char>, value: ValueView) -> Frames {
    frames.update(frames.len() - 1, frames.last().insert(name, value))
}

/// The scopes after an assignment: the innermost scope that binds the
/// name binds it to the value; nothing where no scope binds it.
pub open spec fn assigned(frames: Frames, name: Seq<char>, value: ValueView) -> Option<Frames> {
    match defining_scope(frames, name) {
        Some(i) => Some(frames.update(i, frames[i].insert(name, value))),
        None => None,
    }
}

/// The innermost defining scope is a scope of the stack and binds the name,
/// and no scope further in does.
pub proof fn lemma_defining_scope(frames: Frames, name: Seq<char>)
    ensures
        match defining_scope(frames, name) {
            Some(i) => 0 <= i < frames.len() && frames[i].contains_key(name) && forall|j: int|
                i < j < frames.len() ==> !frames[j].contains_key(name),
            None => forall|j: int| 0 <= j < frames.len() ==> !frames[j].contains_key(name),
        },
    decreases frames.len(),
{
    if frames.len() > 0 && !frames.last().contains_key(name) {
        let below = frames.drop_last();
        lemma_defining_scope(below, name);
        assert(forall|j: int| 0 <= j < below.len() ==> below[j] == frames[j]);
        assert(defining_scope(frames, name) == defining_scope(below, name));
        match defining_scope(below, name) {
            Some(i) => {
                assert forall|j: int| i < j < frames.len() implies !frames[j].contains_key(
                    name,
                ) by {
                    if j < below.len() {
                        assert(below[j] == frames[j]);
                    }
                }
            },
            None => {
                assert forall|j: int| 0 <= j < frames.len() implies !frames[j].contains_key(
                    name,
                ) by {
                    if j < below.len() {
                        assert(below[j] == frames[j]);
                    }
                }
            },
        }
    }
}

/// If the scopes from `from` on do not bind the name, the search goes on
/// among the scopes below.
proof fn lemma_search_below(frames: Frames, name: Seq<char>, from: int)
    requires
        0 <= from <= frames.len(),
        forall|j: int| from <= j < frames.len() ==> !frames[j].contains_key(name),
    ensures
        defining_scope(frames, name) == defining_scope(frames.take(from), name),
    decreases frames.len() - from,
{
    if from < frames.len() {
        assert(frames.drop_last().take(from) =~= frames.take(from));
        lemma_search_below(frames.drop_last(), name, from);
    } else {
        assert(frames.take(from) =~= frames);
    }
}

/// A name defined in a scope that was just entered is seen there with its
/// new value, and is gone when the scope is left: the scopes are as they
/// were before.
pub proof fn lemma_inner_definition_does_not_leak(frames: Frames, name: Seq<char>, value: ValueView)
    requires
        frames.len() >= 1,
    ensures
        lookup(defined(frames.push(no_bindings()), name, value), name) == Some(value),
        defined(frames.push(no_bindings()), name, value).drop_last() == frames,
{
    let entered = frames.push(no_bindings());
    let after = defined(entered, name, value);
    assert(after.last().contains_key(name));
    assert(after.drop_last() =~= frames);
}

/// An assignment in a scope that was just entered and binds nothing
/// reaches the scope outside that binds the name: when the inner scope is
/// left, the name holds the new value.
pub proof fn lemma_assignment_reaches_outer_scope(
    frames: Frames,
    name: Seq<char>,
    value: ValueView,
)
    requires
        lookup(frames, name) is Some,
    ensures
        assigned(frames.push(no_bindings()), name, value) is Some,
        assigned(frames, name, value) is Some,
        assigned(frames.push(no_bindings()), name, value)->0.drop_last() == assigned(
            frames,
            name,
            value,
        )->0,
        lookup(assigned(frames, name, value)->0, name) == Some(value),
{
    let entered = frames.push(no_bindings());
    assert(entered.drop_last() =~= frames);
    assert(!entered.last().contains_key(name));
    lemma_defining_scope(frames, name);
    let i = defining_scope(frames, name)->0;
    assert(defining_scope(entered, name) == Some(i));
    let inner = entered.update(i, entered[i].insert(name, value));
    let outer = frames.update(i, frames[i].insert(name, value));
    assert(inner.drop_last() =~= outer);
    lemma_defining_scope(outer, name);
    assert(outer[i].contains_key(name));
    assert(forall|j: int| i < j < outer.len() ==> outer[j] == frames[j]);
    assert(defining_scope(outer, name) == Some(i));
}

pub struct Environment {
    scopes: Vec<FxHashMap<String, Value>>,
}

impl View for Environment {
    type V = Frames;

    closed spec fn view(&self) -> Frames {
        Seq::new(self.scopes.len() as nat, |i: int| bindings(self.scopes[i]))
    }
}

impl Default for Environment {
    /// An environment with the global scope alone, which binds nothing.
    fn default() -> (env: Environment)
        ensures
            env.wf(),
            env@ == seq![no_bindings()],
    {
        let mut scopes = Vec::new();
        scopes.push(scope_new());
        let env = Environment { scopes };
        assert(env@ =~= seq![no_bindings()]);
        env
    }
}

impl Environment {
    /// The environment holds the global scope.
    pub open spec fn wf(&self) -> bool {
        self@.len() >= 1
    }

    /// The number of scopes.
    pub fn depth(&self) -> (n: usize)
        ensures
            n == self@.len(),
    {
        self.scopes.len()
    }

    /// Binds the name in the innermost scope.
    pub fn define(&mut self, name: &str, value: Value)
        requires
            old(self).wf(),
        ensures
            final(self).wf(),
            final(self)@ == defined(old(self)@, name@, value@),
    {
        let last = self.scopes.len() - 1;
        scope_insert(&mut self.scopes[last], name, value);
        assert(self@ =~= defined(old(self)@, name@, value@));
    }

    /// Binds the name anew in the innermost scope that binds it, and gives
    /// the value that it held there.
    pub fn assign(&mut self, name: &str, value: Value) -> (r: Result<Value, RuntimeError>)
        requires
            old(self).wf(),
        ensures
            final(self).wf(),
            final(self)@.len() == old(self)@.len(),
            match r {
                Ok(previous) => assigned(old(self)@, name@, value@) == Some(final(self)@)
                    && Some(previous@) == lookup(old(self)@, name@),
                Err(e) => assigned(old(self)@, name@, value@) is None && final(self)@ == old(
                    self,
                )@ && e.kind is UndefinedAssignment && e.kind->UndefinedAssignment_name@ == name@,
            },
    {
        let mut i = self.scopes.len();
        while i > 0
            invariant
                i <= self.scopes.len(),
                self.scopes == old(self).scopes,
                forall|j: int| i <= j < self.scopes.len() ==> !self@[j].contains_key(name@),
            decreases i,
        {
            i = i - 1;
            if scope_contains(&self.scopes[i], name) {
                proof {
                    lemma_search_below(self@, name@, i + 1);
                    assert(self@.take(i + 1).last() == self@[i as int]);
                    assert(self@.take(i + 1).len() == i + 1);
                }
                let previous = match scope_get(&self.scopes[i], name) {
                    Some(v) => v.duplicate(),
                    None => Value::Nil,
                };
                scope_insert(&mut self.scopes[i], name, value);
                assert(self@ =~= old(self)@.update(
                    i as int,
                    old(self)@[i as int].insert(name@, value@),
                ));
                return Ok(previous);
            }
        }
        proof {
            lemma_search_below(self@, name@, 0);
            assert(self@.take(0) =~= Seq::<Bindings>::empty());
        }
        Err(
            RuntimeError {
                kind: RuntimeErrorKind::UndefinedAssignment {
                    name: String::from_str(name),
                },
            },
        )
    }

    /// The value of the name: that of the innermost scope that binds it.
    pub fn get(&self, name: &str) -> (v: Option<&Value>)
        ensures
            option_view(v) == lookup(self@, name@),
    {
        let mut i = self.scopes.len();
        while i > 0
            invariant
                i <= self.scopes.len(),
                forall|j: int| i <= j < self.scopes.len() ==> !self@[j].contains_key(name@),
            decreases i,
        {
            i = i - 1;
            if scope_contains(&self.scopes[i], name) {
                proof {
                    lemma_search_below(self@, name@, i + 1);
                    assert(self@.take(i + 1).last() == self@[i as int]);
                    assert(self@.take(i + 1).len() == i + 1);
                }
                return scope_get(&self.scopes[i], name);
            }
        }
        proof {
            lemma_search_below(self@, name@, 0);
            assert(self@.take(0) =~= Seq::<Bindings>::empty());
        }
        None
    }

    /// Enters a scope that binds nothing.
    pub fn push_scope(&mut self)
        ensures
            final(self)@ == old(self)@.push(no_bindings()),
    {
        self.scopes.push(scope_new());
        assert(self@ =~= old(self)@.push(no_bindings()));
    }

    /// Leaves the innermost scope. The global scope is never left.
    pub fn pop_scope(&mut self)
        requires
            old(self)@.len() > 1,
        ensures
            final(self)@ == old(self)@.drop_last(),
    {
        self.scopes.pop();
        assert(self@ =~= old(self)@.drop_last());
    }
}

} // verus!
