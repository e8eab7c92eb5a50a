//! The variable context: an ordered mapping from names to values.

use crate::json::{Json, JsonModel};
use crate::text::views;
use indexmap::IndexMap;
use vstd::prelude::*;

verus! {

/// One variable of a context model: its name and its value.
pub type Binding = (Seq<char>, JsonModel);

/// Whether some binding of `vars` has the name `name`.
pub open spec fn has_name(vars: Seq<Binding>, name: Seq<char>) -> bool {
    exists|i: int| 0 <= i < vars.len() && (#[trigger] vars[i]).0 == name
}

/// Position of the first binding named `name`, or `vars.len()` where there is none.
pub open spec fn position(vars: Seq<Binding>, name: Seq<char>) -> nat
    decreases vars.len(),
{
    if vars.len() == 0 || vars[0].0 == name {
        0
    } else {
        1 + position(vars.drop_first(), name)
    }
}

/// The value bound to `name`, if any.
pub open spec fn lookup(vars: Seq<Binding>, name: Seq<char>) -> Option<JsonModel> {
    if position(vars, name) < vars.len() {
        Some(vars[position(vars, name) as int].1)
    } else {
        None
    }
}

/// `vars` with `name` bound to `value`: in the place where the name stood, or at the end
/// where it is new.
pub open spec fn bind(vars: Seq<Binding>, name: Seq<char>, value: JsonModel) -> Seq<Binding> {
    if has_name(vars, name) {
        Seq::new(
            vars.len(),
            |i: int|
                if vars[i].0 == name {
                    (name, value)
                } else {
                    vars[i]
                },
        )
    } else {
        vars.push((name, value))
    }
}

/// `vars` without the bindings of `name`; the others keep their order.
pub open spec fn unbind(vars: Seq<Binding>, name: Seq<char>) -> Seq<Binding>
    decreases vars.len(),
{
    if vars.len() == 0 {
        vars
    } else if vars.last().0 == name {
        unbind(vars.drop_last(), name)
    } else {
        unbind(vars.drop_last(), name).push(vars.last())
    }
}

/// No name is bound twice.
pub open spec fn distinct_names(vars: Seq<Binding>) -> bool {
    forall|i: int, j: int|
        0 <= i < j < vars.len() ==> (#[trigger] vars[i]).0 != (#[trigger] vars[j]).0
}

/// The names of `vars`, in order.
pub open spec fn names_of(vars: Seq<Binding>) -> Seq<Seq<char>> {
    Seq::new(vars.len(), |i: int| vars[i].0)
}

/// `indexmap::IndexMap`, the ordered map that holds the variables.
#[verifier::external_type_specification]
#[verifier::external_body]
#[verifier::reject_recursive_types(K)]
#[verifier::reject_recursive_types(V)]
#[verifier::reject_recursive_types(S)]
pub struct ExIndexMap<K, V, S>(IndexMap<K, V, S>);

/// What a map of variables holds: its entries in the map's order, each as a name and the
/// model of a value.
pub uninterp spec fn var_entries(map: IndexMap<String, Json>) -> Seq<Binding>;

/// Binding a name keeps the names distinct.
pub proof fn lemma_bind_distinct(vars: Seq<Binding>, name: Seq<char>, value: JsonModel)
    requires
        distinct_names(vars),
    ensures
        distinct_names(bind(vars, name, value)),
{
    let after = bind(vars, name, value);
    assert forall|i: int, j: int| 0 <= i < j < after.len() implies (#[trigger] after[i]).0 != (
    #[trigger] after[j]).0 by {
        if has_name(vars, name) {
            assert(after[i].0 == vars[i].0);
            assert(after[j].0 == vars[j].0);
        } else if j == vars.len() {
            assert(after[i] == vars[i]);
        } else {
            assert(after[i] == vars[i]);
            assert(after[j] == vars[j]);
        }
    }
}

/// What is left when a name is removed are bindings of other names that were there before.
pub proof fn lemma_unbind_members(vars: Seq<Binding>, name: Seq<char>)
    ensures
        unbind(vars, name).len() <= vars.len(),
        forall|k: int|
            0 <= k < unbind(vars, name).len() ==> (#[trigger] unbind(vars, name)[k]).0 != name
                && vars.contains(unbind(vars, name)[k]),
        forall|i: int|
            0 <= i < vars.len() && vars[i].0 != name ==> unbind(vars, name).contains(
                #[trigger] vars[i],
            ),
    decreases vars.len(),
{
    if vars.len() > 0 {
        let init = vars.drop_last();
        lemma_unbind_members(init, name);
        let before = unbind(init, name);
        let after = unbind(vars, name);
        assert forall|k: int| 0 <= k < after.len() implies (#[trigger] after[k]).0 != name
            && vars.contains(after[k]) by {
            if k < before.len() {
                assert(after[k] == before[k]);
                let w = choose|w: int| 0 <= w < init.len() && init[w] == before[k];
                assert(vars[w] == after[k]);
            } else {
                assert(after[k] == vars[vars.len() - 1]);
            }
        }
        assert forall|i: int| 0 <= i < vars.len() && vars[i].0 != name implies after.contains(
            #[trigger] vars[i],
        ) by {
            if i < init.len() {
                assert(init[i] == vars[i]);
                let w = choose|w: int| 0 <= w < before.len() && before[w] == init[i];
                assert(after[w] == vars[i]);
            } else {
                assert(after[after.len() - 1] == vars[i]);
            }
        }
    }
}

/// Removing a name keeps the names distinct, and the name is gone.
pub proof fn lemma_unbind_distinct(vars: Seq<Binding>, name: Seq<char>)
    requires
        distinct_names(vars),
    ensures
        distinct_names(unbind(vars, name)),
        !has_name(unbind(vars, name), name),
    decreases vars.len(),
{
    lemma_unbind_members(vars, name);
    if vars.len() > 0 {
        let init = vars.drop_last();
        lemma_unbind_distinct(init, name);
        lemma_unbind_members(init, name);
        let before = unbind(init, name);
        let after = unbind(vars, name);
        assert forall|i: int, j: int| 0 <= i < j < after.len() implies (#[trigger] after[i]).0 != (
        #[trigger] after[j]).0 by {
            if j < before.len() {
                assert(after[i] == before[i] && after[j] == before[j]);
            } else {
                assert(after[i] == before[i]);
                let w = choose|w: int| 0 <= w < init.len() && init[w] == before[i];
                assert(vars[w] == init[w]);
                assert(after[j] == vars[vars.len() - 1]);
            }
        }
    }
}

/// Where the first binding of a name stands.
pub proof fn lemma_position(vars: Seq<Binding>, name: Seq<char>)
    ensures
        position(vars, name) <= vars.len(),
        forall|i: int| 0 <= i < position(vars, name) ==> (#[trigger] vars[i]).0 != name,
        position(vars, name) < vars.len() ==> vars[position(vars, name) as int].0 == name,
        has_name(vars, name) <==> position(vars, name) < vars.len(),
    decreases vars.len(),
{
    if vars.len() == 0 || vars[0].0 == name {
    } else {
        let rest = vars.drop_first();
        lemma_position(rest, name);
        assert forall|i: int| 0 <= i < position(vars, name) implies (#[trigger] vars[i]).0
            != name by {
            if i > 0 {
                assert(vars[i] == rest[i - 1]);
            }
        }
        if position(vars, name) < vars.len() {
            assert(vars[position(vars, name) as int] == rest[position(rest, name) as int]);
        }
        if has_name(vars, name) {
            let i = choose|i: int| 0 <= i < vars.len() && (#[trigger] vars[i]).0 == name;
            assert(rest[i - 1] == vars[i]);
        }
    }
}

/// A place before which no binding has the name, and which has it or is the end, is the
/// place of the first binding of the name.
pub proof fn lemma_position_is(vars: Seq<Binding>, name: Seq<char>, p: nat)
    requires
        p <= vars.len(),
        forall|i: int| 0 <= i < p ==> (#[trigger] vars[i]).0 != name,
        p < vars.len() ==> vars[p as int].0 == name,
    ensures
        position(vars, name) == p,
{
    lemma_position(vars, name);
    let q = position(vars, name);
    if q < p {
        assert(vars[q as int].0 == name);
    }
}

/// A name that has just been bound is bound to the value given.
pub proof fn lemma_lookup_bound(vars: Seq<Binding>, name: Seq<char>, value: JsonModel)
    ensures
        lookup(bind(vars, name, value), name) == Some(value),
{
    let after = bind(vars, name, value);
    lemma_position(vars, name);
    let p = position(vars, name);
    assert forall|i: int| 0 <= i < p implies (#[trigger] after[i]).0 != name by {
        assert(vars[i].0 != name);
    }
    lemma_position_is(after, name, p);
}

/// Binding a name leaves every other name as it was.
pub proof fn lemma_lookup_bind_other(
    vars: Seq<Binding>,
    name: Seq<char>,
    value: JsonModel,
    other: Seq<char>,
)
    requires
        other != name,
    ensures
        lookup(bind(vars, name, value), other) == lookup(vars, other),
{
    let after = bind(vars, name, value);
    lemma_position(vars, other);
    let p = position(vars, other);
    assert forall|i: int| 0 <= i < p && i < after.len() implies (#[trigger] after[i]).0
        != other by {
        assert(vars[i].0 != other);
    }
    if p < vars.len() {
        lemma_position_is(after, other, p);
    } else {
        lemma_position_is(after, other, after.len());
    }
}

/// What a name is bound to once a binding is added at the end.
pub proof fn lemma_lookup_push(vars: Seq<Binding>, last: Binding, name: Seq<char>)
    ensures
        lookup(vars.push(last), name) == if has_name(vars, name) {
            lookup(vars, name)
        } else if last.0 == name {
            Some(last.1)
        } else {
            None
        },
{
    let after = vars.push(last);
    lemma_position(vars, name);
    let p = position(vars, name);
    assert forall|i: int| 0 <= i < p implies (#[trigger] after[i]).0 != name by {
        assert(after[i] == vars[i]);
    }
    if p < vars.len() {
        assert(after[p as int] == vars[p as int]);
        lemma_position_is(after, name, p);
    } else if last.0 == name {
        lemma_position_is(after, name, p);
    } else {
        lemma_position_is(after, name, after.len());
    }
}

/// A name that has just been removed is bound to nothing.
pub proof fn lemma_lookup_unbound(vars: Seq<Binding>, name: Seq<char>)
    ensures
        lookup(unbind(vars, name), name) is None,
{
    lemma_unbind_members(vars, name);
    lemma_position(unbind(vars, name), name);
}

/// Removing a name leaves every other name as it was.
pub proof fn lemma_lookup_unbind_other(vars: Seq<Binding>, name: Seq<char>, other: Seq<char>)
    requires
        other != name,
    ensures
        lookup(unbind(vars, name), other) == lookup(vars, other),
        has_name(unbind(vars, name), other) == has_name(vars, other),
    decreases vars.len(),
{
    lemma_position(vars, other);
    lemma_position(unbind(vars, name), other);
    if vars.len() > 0 {
        let init = vars.drop_last();
        let last = vars.last();
        lemma_lookup_unbind_other(init, name, other);
        assert(init.push(last) =~= vars);
        lemma_lookup_push(init, last, other);
        lemma_position(init, other);
        lemma_position(unbind(init, name), other);
        if last.0 != name {
            lemma_lookup_push(unbind(init, name), last, other);
        }
    }
}

/// The variable context.
#[derive(Debug)]
pub struct Context {
    map: IndexMap<String, Json>,
}

impl View for Context {
    type V = Seq<Binding>;

    closed spec fn view(&self) -> Seq<Binding> {
        var_entries(self.map)
    }
}

/// `IndexMap::new`: a map without entries.
#[verifier::external_body]
fn map_new() -> (map: IndexMap<String, Json>)
    ensures
        var_entries(map) == Seq::<Binding>::empty(),
{
    IndexMap::new()
}

/// `IndexMap::len`: the number of entries.
#[verifier::external_body]
fn map_len(map: &IndexMap<String, Json>) -> (n: usize)
    ensures
        n == var_entries(*map).len(),
{
    map.len()
}

/// `IndexMap::get_index`: the entry at a position of the map's order, if the map has as
/// many.
#[verifier::external_body]
fn map_get_index(map: &IndexMap<String, Json>, index: usize) -> (entry: Option<(&String, &Json)>)
    ensures
        match entry {
            Some((k, v)) => index < var_entries(*map).len() && (k@, v@) == var_entries(
                *map,
            )[index as int],
            None => index >= var_entries(*map).len(),
        },
{
    map.get_index(index)
}

/// `IndexMap::get`: the value stored for a key, if the key is in the map.
#[verifier::external_body]
fn map_get<'a>(map: &'a IndexMap<String, Json>, key: &str) -> (value: Option<&'a Json>)
    ensures
        match value {
            Some(v) => lookup(var_entries(*map), key@) == Some(v@),
            None => lookup(var_entries(*map), key@) is None,
        },
{
    map.get(key)
}

impl Context {
    /// No name is bound twice.
    #[verifier::type_invariant]
    spec fn names_are_distinct(&self) -> bool {
        distinct_names(var_entries(self.map))
    }

    /// `IndexMap::insert`: where the key is in the map, its entry keeps its place and takes
    /// the new value; where it is not, the entry is added after all others.
    #[verifier::external_body]
    fn map_insert(&mut self, key: String, value: Json)
        ensures
            var_entries(final(self).map) == bind(var_entries(old(self).map), key@, value@),
    {
        self.map.insert(key, value);
    }

    /// `IndexMap::shift_remove`: the entry of the key leaves the map, and the entries
    /// behind it move up in their order.
    #[verifier::external_body]
    fn map_shift_remove(&mut self, key: &str)
        ensures
            var_entries(final(self).map) == unbind(var_entries(old(self).map), key@),
    {
        self.map.shift_remove(key);
    }

    /// A context without variables.
    pub fn new() -> (ctx: Context)
        ensures
            ctx@ == Seq::<Binding>::empty(),
    {
        Context { map: map_new() }
    }

    /// Binds `name` to `value`, in place of an earlier binding of that name if there is one.
    pub fn insert(&mut self, name: String, value: Json)
        ensures
            final(self)@ == bind(old(self)@, name@, value@),
    {
        proof {
            use_type_invariant(&*self);
            lemma_bind_distinct(self@, name@, value@);
        }
        self.map_insert(name, value);
    }

    /// Removes the binding of `name`, if there is one.
    pub fn remove(&mut self, name: &str)
        ensures
            final(self)@ == unbind(old(self)@, name@),
    {
        proof {
            use_type_invariant(&*self);
            lemma_unbind_distinct(self@, name@);
        }
        self.map_shift_remove(name);
    }

    /// The number of variables.
    pub fn len(&self) -> (n: usize)
        ensures
            n == self@.len(),
            distinct_names(self@),
    {
        proof {
            use_type_invariant(self);
        }
        map_len(&self.map)
    }

    /// The value bound to `name`, if any.
    pub fn get(&self, name: &str) -> (value: Option<&Json>)
        ensures
            match value {
                Some(v) => lookup(self@, name@) == Some(v@),
                None => lookup(self@, name@) is None,
            },
    {
        map_get(&self.map, name)
    }

    /// The names of the variables, in order.
    pub fn names(&self) -> (names: Vec<String>)
        ensures
            views(names@) == names_of(self@),
    {
        let n: usize = map_len(&self.map);
        let mut names: Vec<String> = Vec::new();
        let mut i: usize = 0;
        while i < n
            invariant
                n == self@.len(),
                i <= n,
                names@.len() == i,
                forall|k: int| 0 <= k < i ==> (#[trigger] names@[k])@ == self@[k].0,
            decreases n - i,
        {
            match map_get_index(&self.map, i) {
                Some((k, _)) => {
                    names.push(k.clone());
                },
                None => {},
            }
            i += 1;
        }
        assert(views(names@) =~= names_of(self@));
        names
    }

    /// The map that holds the variables.
    pub(crate) fn as_map(&self) -> (map: &IndexMap<String, Json>)
        ensures
            var_entries(*map) == self@,
    {
        &self.map
    }
}

} // verus!
