//! Runtime values and the host-object store.
//!
//! The engine validates plain data: scalars, mappings keyed by interned
//! field-name symbols (`u64`), and references into a `Store` of host
//! objects. A host object carries its class identity, a backing
//! attribute container (`dict`) and an optional fields-set. The store
//! stands for the host runtime's heap: object identity is the index,
//! and in-place construction modes mutate objects through it.

use vstd::prelude::*;

verus! {

/// A runtime value handed to or produced by a validator.
#[derive(Debug)]
pub enum Value {
    Null,
    Bool(bool),
    Int(i64),
    Str(Vec<char>),
    /// A plain mapping from field-name symbols to values.
    Mapping(Vec<(u64, Value)>),
    /// A reference to a host object in the store.
    Instance(usize),
    /// A two-part result, as produced by validators that return an
    /// auxiliary fields-set alongside the attribute container.
    Pair(Box<Value>, Box<Value>),
    /// A set of field-name symbols (a fields-set as a value).
    NameSet(Vec<u64>),
}

/// Specification-level image of a `Value`.
pub enum Val {
    Null,
    Bool(bool),
    Int(int),
    Str(Seq<char>),
    Mapping(Seq<(u64, Val)>),
    Instance(int),
    Pair(Box<Val>, Box<Val>),
    NameSet(Seq<u64>),
}

pub open spec fn entries_view(m: Seq<(u64, Value)>) -> Seq<(u64, Val)>
    decreases m,
{
    if m.len() == 0 {
        Seq::empty()
    } else {
        entries_view(m.drop_last()).push((m.last().0, m.last().1@))
    }
}

impl View for Value {
    type V = Val;

    open spec fn view(&self) -> Val
        decreases self,
    {
        match self {
            Value::Null => Val::Null,
            Value::Bool(b) => Val::Bool(*b),
            Value::Int(i) => Val::Int(*i as int),
            Value::Str(s) => Val::Str(s@),
            Value::Mapping(m) => Val::Mapping(entries_view(m@)),
            Value::Instance(i) => Val::Instance(*i as int),
            Value::Pair(a, b) => Val::Pair(Box::new((**a)@), Box::new((**b)@)),
            Value::NameSet(s) => Val::NameSet(s@),
        }
    }
}

pub proof fn lemma_entries_view(m: Seq<(u64, Value)>)
    ensures
        (#[trigger] entries_view(m)).len() == m.len(),
        forall|i: int|
            0 <= i < m.len() ==> entries_view(m)[i] == (m[i].0, m[i].1@),
    decreases m,
{
    if m.len() > 0 {
        lemma_entries_view(m.drop_last());
        assert(forall|i: int| 0 <= i < m.len() - 1 ==> m.drop_last()[i] == m[i]);
        assert(entries_view(m) == entries_view(m.drop_last()).push((m.last().0, m.last().1@)));
        assert(entries_view(m)[m.len() - 1] == (m[m.len() - 1].0, m[m.len() - 1].1@));
    }
}

/// First-match lookup in a mapping's entry list.
pub open spec fn spec_lookup(entries: Seq<(u64, Val)>, key: u64) -> Option<Val>
    decreases entries,
{
    if entries.len() == 0 {
        None
    } else if entries[0].0 == key {
        Some(entries[0].1)
    } else {
        spec_lookup(entries.drop_first(), key)
    }
}

/// A host object: class identity, backing attribute container, and an
/// optional fields-set facility.
#[derive(Debug)]
pub struct Obj {
    pub class: usize,
    pub dict: Vec<(u64, Value)>,
    pub fields_set: Option<Vec<u64>>,
}

/// Specification-level image of a host object.
pub struct ObjM {
    pub class: int,
    pub dict: Seq<(u64, Val)>,
    pub fields_set: Option<Seq<u64>>,
}

impl View for Obj {
    type V = ObjM;

    open spec fn view(&self) -> ObjM {
        ObjM {
            class: self.class as int,
            dict: entries_view(self.dict@),
            fields_set: match self.fields_set {
                Some(ref fs) => Some(fs@),
                None => None,
            },
        }
    }
}

/// The host heap: every live host object, addressed by index.
#[derive(Debug)]
pub struct Store {
    pub objects: Vec<Obj>,
}

impl View for Store {
    type V = Seq<ObjM>;

    open spec fn view(&self) -> Seq<ObjM> {
        Seq::new(self.objects@.len(), |i: int| self.objects@[i]@)
    }
}

/// All object references inside `v` point into a store of `n` objects.
pub open spec fn val_wf(v: Val, n: int) -> bool
    decreases v,
{
    match v {
        Val::Instance(i) => 0 <= i < n,
        Val::Mapping(m) => entries_wf(m, n),
        Val::Pair(a, b) => val_wf(*a, n) && val_wf(*b, n),
        _ => true,
    }
}

pub open spec fn entries_wf(m: Seq<(u64, Val)>, n: int) -> bool
    decreases m,
{
    if m.len() == 0 {
        true
    } else {
        val_wf(m.last().1, n) && entries_wf(m.drop_last(), n)
    }
}

pub proof fn lemma_entries_wf(m: Seq<(u64, Val)>, n: int)
    ensures
        #[trigger] entries_wf(m, n) <==> (forall|i: int|
            0 <= i < m.len() ==> val_wf(#[trigger] m[i].1, n)),
    decreases m,
{
    if m.len() > 0 {
        lemma_entries_wf(m.drop_last(), n);
        if entries_wf(m, n) {
            assert(forall|i: int| 0 <= i < m.len() - 1 ==> m[i] == m.drop_last()[i]);
        } else {
            if forall|i: int| 0 <= i < m.len() ==> val_wf(#[trigger] m[i].1, n) {
                assert(forall|i: int| 0 <= i < m.len() - 1 ==> m.drop_last()[i] == m[i]);
                assert(val_wf(m.last().1, n));
            }
        }
    }
}

pub open spec fn obj_wf(o: ObjM, n: int, nclasses: int) -> bool {
    &&& 0 <= o.class < nclasses
    &&& entries_wf(o.dict, n)
}

/// Every stored object's attribute container points only into the
/// store itself.
pub open spec fn store_dicts_wf(s: Seq<ObjM>) -> bool {
    forall|i: int| 0 <= i < s.len() ==> entries_wf((#[trigger] s[i]).dict, s.len() as int)
}

/// Every stored object is internally consistent with the store and a
/// class table of `nclasses` classes.
pub open spec fn store_wf(s: Seq<ObjM>, nclasses: int) -> bool {
    &&& store_dicts_wf(s)
    &&& forall|i: int| 0 <= i < s.len() ==> 0 <= (#[trigger] s[i]).class < nclasses
}

/// Growing the store never invalidates references into it.
pub proof fn lemma_val_wf_grow(v: Val, n: int, m: int)
    requires
        val_wf(v, n),
        n <= m,
    ensures
        #[trigger] val_wf(v, m),
    decreases v,
{
    match v {
        Val::Mapping(entries) => {
            lemma_entries_wf(entries, n);
            lemma_entries_wf(entries, m);
            assert forall|i: int| 0 <= i < entries.len() implies val_wf(#[trigger] entries[i].1, m) by {
                lemma_val_wf_grow(entries[i].1, n, m);
            }
        },
        Val::Pair(a, b) => {
            lemma_val_wf_grow(*a, n, m);
            lemma_val_wf_grow(*b, n, m);
        },
        _ => {},
    }
}

/// A deep copy of `v`: same value, fresh ownership.
#[verifier::loop_isolation(false)]
pub fn value_clone(v: &Value) -> (r: Value)
    ensures
        r@ == v@,
    decreases v,
{
    match v {
        Value::Null => Value::Null,
        Value::Bool(b) => Value::Bool(*b),
        Value::Int(i) => Value::Int(*i),
        Value::Str(s) => Value::Str(clone_chars(s)),
        Value::Mapping(m) => Value::Mapping(clone_entries(m)),
        Value::Instance(i) => Value::Instance(*i),
        Value::Pair(a, b) => Value::Pair(Box::new(value_clone(a)), Box::new(value_clone(b))),
        Value::NameSet(s) => Value::NameSet(clone_names(s)),
    }
}

#[verifier::loop_isolation(false)]
pub fn clone_chars(s: &Vec<char>) -> (r: Vec<char>)
    ensures
        r@ == s@,
{
    let mut out: Vec<char> = Vec::new();
    let mut i: usize = 0;
    while i < s.len()
        invariant
            i <= s@.len(),
            out@ =~= s@.take(i as int),
        decreases s@.len() - i,
    {
        out.push(s[i]);
        proof {
            assert(out@ =~= s@.take(i + 1));
        }
        i = i + 1;
    }
    proof {
        assert(s@.take(s@.len() as int) =~= s@);
    }
    out
}

#[verifier::loop_isolation(false)]
pub fn clone_names(s: &Vec<u64>) -> (r: Vec<u64>)
    ensures
        r@ == s@,
{
    let mut out: Vec<u64> = Vec::new();
    let mut i: usize = 0;
    while i < s.len()
        invariant
            i <= s@.len(),
            out@ =~= s@.take(i as int),
        decreases s@.len() - i,
    {
        out.push(s[i]);
        proof {
            assert(out@ =~= s@.take(i + 1));
        }
        i = i + 1;
    }
    proof {
        assert(s@.take(s@.len() as int) =~= s@);
    }
    out
}

/// First-match lookup, cloning the found value out of the entry list.
#[verifier::loop_isolation(false)]
pub fn lookup_entry(entries: &Vec<(u64, Value)>, key: u64) -> (r: Option<Value>)
    ensures
        match r {
            Some(v) => spec_lookup(entries_view(entries@), key) == Some(v@),
            None => spec_lookup(entries_view(entries@), key) is None,
        },
{
    let mut i: usize = 0;
    proof {
        lemma_entries_view(entries@);
        assert(entries_view(entries@).skip(0) =~= entries_view(entries@));
    }
    while i < entries.len()
        invariant
            i <= entries@.len(),
            spec_lookup(entries_view(entries@), key) == spec_lookup(
                entries_view(entries@).skip(i as int),
                key,
            ),
            entries_view(entries@).len() == entries@.len(),
            forall|j: int|
                0 <= j < entries@.len() ==> entries_view(entries@)[j] == (
                    entries@[j].0,
                    entries@[j].1@,
                ),
        decreases entries@.len() - i,
    {
        let ev = Ghost(entries_view(entries@));
        proof {
            assert(ev@.skip(i as int)[0] == ev@[i as int]);
        }
        if entries[i].0 == key {
            let c = value_clone(&entries[i].1);
            return Some(c);
        }
        proof {
            assert(ev@.skip(i as int).drop_first() =~= ev@.skip(i + 1));
        }
        i = i + 1;
    }
    None
}

/// A deep copy of a mapping's entry list.
#[verifier::loop_isolation(false)]
pub fn clone_entries(m: &Vec<(u64, Value)>) -> (r: Vec<(u64, Value)>)
    ensures
        entries_view(r@) == entries_view(m@),
    decreases m,
{
    let mut out: Vec<(u64, Value)> = Vec::new();
    let mut i: usize = 0;
    while i < m.len()
        invariant
            i <= m@.len(),
            out@.len() == i,
            forall|j: int| 0 <= j < i ==> out@[j].0 == m@[j].0 && out@[j].1@ == m@[j].1@,
        decreases m@.len() - i,
    {
        let c = value_clone(&m[i].1);
        out.push((m[i].0, c));
        i = i + 1;
    }
    proof {
        lemma_entries_view(out@);
        lemma_entries_view(m@);
        assert(entries_view(out@) =~= entries_view(m@));
    }
    out
}

/// A copy of an optional fields-set.
pub fn clone_fields_set(o: &Option<Vec<u64>>) -> (r: Option<Vec<u64>>)
    ensures
        match o {
            Some(fs) => r matches Some(rs) && rs@ == fs@,
            None => r is None,
        },
{
    match o {
        Some(fs) => Some(clone_names(fs)),
        None => None,
    }
}

/// Where a successful lookup's value sits in the entry list.
pub proof fn lemma_lookup_index(s: Seq<(u64, Val)>, key: u64)
    ensures
        match spec_lookup(s, key) {
            Some(v) => exists|i: int| 0 <= i < s.len() && s[i] == (key, v),
            None => forall|i: int| 0 <= i < s.len() ==> (#[trigger] s[i]).0 != key,
        },
    decreases s,
{
    if s.len() > 0 && s[0].0 != key {
        lemma_lookup_index(s.drop_first(), key);
        match spec_lookup(s, key) {
            Some(v) => {
                let i = choose|i: int|
                    0 <= i < s.drop_first().len() && s.drop_first()[i] == (key, v);
                assert(s[i + 1] == (key, v));
            },
            None => {
                assert forall|i: int| 0 <= i < s.len() implies (#[trigger] s[i]).0 != key by {
                    if i > 0 {
                        assert(s.drop_first()[i - 1] == s[i]);
                    }
                }
            },
        }
    }
}

/// A value read out of a well-formed entry list is well formed.
pub proof fn lemma_lookup_wf(s: Seq<(u64, Val)>, key: u64, n: int)
    requires
        entries_wf(s, n),
        spec_lookup(s, key) is Some,
    ensures
        val_wf(spec_lookup(s, key).unwrap(), n),
{
    lemma_lookup_index(s, key);
    lemma_entries_wf(s, n);
    let v = spec_lookup(s, key).unwrap();
    let i = choose|i: int| 0 <= i < s.len() && s[i] == (key, v);
    assert(val_wf(s[i].1, n));
}

/// The entry list with the binding for `key` replaced in place, or
/// appended when absent.
pub open spec fn spec_dict_set(entries: Seq<(u64, Val)>, key: u64, v: Val) -> Seq<(u64, Val)>
    decreases entries,
{
    if entries.len() == 0 {
        seq![(key, v)]
    } else if entries[0].0 == key {
        entries.update(0, (key, v))
    } else {
        seq![entries[0]] + spec_dict_set(entries.drop_first(), key, v)
    }
}

pub proof fn lemma_dict_set_found(s: Seq<(u64, Val)>, key: u64, v: Val, j: int)
    requires
        0 <= j < s.len(),
        s[j].0 == key,
        forall|k: int| 0 <= k < j ==> (#[trigger] s[k]).0 != key,
    ensures
        spec_dict_set(s, key, v) =~= s.update(j, (key, v)),
    decreases j,
{
    if j > 0 {
        assert(s[0].0 != key);
        assert(s.drop_first()[j - 1].0 == key);
        assert forall|k: int| 0 <= k < j - 1 implies (#[trigger] s.drop_first()[k]).0 != key by {
            assert(s.drop_first()[k] == s[k + 1]);
        }
        lemma_dict_set_found(s.drop_first(), key, v, j - 1);
    }
}

pub proof fn lemma_dict_set_absent(s: Seq<(u64, Val)>, key: u64, v: Val)
    requires
        forall|k: int| 0 <= k < s.len() ==> (#[trigger] s[k]).0 != key,
    ensures
        spec_dict_set(s, key, v) =~= s.push((key, v)),
    decreases s,
{
    if s.len() > 0 {
        assert forall|k: int| 0 <= k < s.drop_first().len() implies (#[trigger] s.drop_first()[k]).0
            != key by {
            assert(s.drop_first()[k] == s[k + 1]);
        }
        lemma_dict_set_absent(s.drop_first(), key, v);
    }
}

/// A fresh entry list equal to `entries` with `key` bound to `v`:
/// replaced in place when present, appended when absent.
#[verifier::loop_isolation(false)]
pub fn dict_set_clone(entries: &Vec<(u64, Value)>, key: u64, v: &Value) -> (r: Vec<(u64, Value)>)
    ensures
        entries_view(r@) == spec_dict_set(entries_view(entries@), key, v@),
{
    proof {
        lemma_entries_view(entries@);
    }
    let ghost ev = entries_view(entries@);
    let mut j: usize = 0;
    while j < entries.len()
        invariant
            j <= entries@.len(),
            forall|k: int| 0 <= k < j ==> (#[trigger] ev[k]).0 != key,
        decreases entries@.len() - j,
    {
        if entries[j].0 == key {
            let mut out = clone_entries(entries);
            proof {
                lemma_entries_view(out@);
            }
            let c = value_clone(v);
            let ghost outpre = out@;
            out.set(j, (key, c));
            proof {
                lemma_entries_view(out@);
                lemma_entries_view(outpre);
                lemma_dict_set_found(ev, key, v@, j as int);
                assert(entries_view(out@) =~= ev.update(j as int, (key, v@)));
            }
            return out;
        }
        j = j + 1;
    }
    let mut out = clone_entries(entries);
    let c = value_clone(v);
    let ghost out0 = out@;
    out.push((key, c));
    proof {
        lemma_entries_view(out@);
        lemma_entries_view(out0);
        lemma_dict_set_absent(ev, key, v@);
        assert(entries_view(out@) =~= ev.push((key, v@)));
    }
    out
}

/// Updating one binding keeps a well-formed entry list well formed.
pub proof fn lemma_dict_set_wf(d: Seq<(u64, Val)>, key: u64, v: Val, n: int)
    requires
        entries_wf(d, n),
        val_wf(v, n),
    ensures
        entries_wf(spec_dict_set(d, key, v), n),
    decreases d,
{
    lemma_entries_wf(d, n);
    let r = spec_dict_set(d, key, v);
    if d.len() == 0 {
        lemma_entries_wf(r, n);
    } else if d[0].0 == key {
        lemma_entries_wf(r, n);
    } else {
        assert forall|i: int| 0 <= i < d.drop_first().len() implies val_wf(
            #[trigger] d.drop_first()[i].1,
            n,
        ) by {
            assert(d.drop_first()[i] == d[i + 1]);
        }
        lemma_entries_wf(d.drop_first(), n);
        lemma_dict_set_wf(d.drop_first(), key, v, n);
        let rr = spec_dict_set(d.drop_first(), key, v);
        lemma_entries_wf(rr, n);
        lemma_entries_wf(r, n);
        assert forall|i: int| 0 <= i < r.len() implies val_wf(#[trigger] r[i].1, n) by {
            if i > 0 {
                assert(r[i] == rr[i - 1]);
            } else {
                assert(r[0] == d[0]);
            }
        }
    }
}

/// Entry-list well-formedness survives store growth.
pub proof fn lemma_entries_wf_grow(d: Seq<(u64, Val)>, n: int, m: int)
    requires
        entries_wf(d, n),
        n <= m,
    ensures
        entries_wf(d, m),
{
    lemma_val_wf_grow(Val::Mapping(d), n, m);
}

/// Replacing one object with a well-formed one keeps the store well
/// formed.
pub proof fn lemma_store_update_wf(st: Seq<ObjM>, i: int, o: ObjM, nclasses: int)
    requires
        store_wf(st, nclasses),
        0 <= i < st.len(),
        entries_wf(o.dict, st.len() as int),
        0 <= o.class < nclasses,
    ensures
        store_wf(st.update(i, o), nclasses),
{
    let st2 = st.update(i, o);
    assert forall|j: int| 0 <= j < st2.len() implies entries_wf(
        (#[trigger] st2[j]).dict,
        st2.len() as int,
    ) && 0 <= st2[j].class < nclasses by {
        if j != i {
            assert(st2[j] == st[j]);
        }
    }
}

/// Appending a well-formed object keeps the store well formed.
pub proof fn lemma_store_push_wf(st: Seq<ObjM>, o: ObjM, nclasses: int)
    requires
        store_wf(st, nclasses),
        entries_wf(o.dict, st.len() as int + 1),
        0 <= o.class < nclasses,
    ensures
        store_wf(st.push(o), nclasses),
{
    let st2 = st.push(o);
    assert forall|j: int| 0 <= j < st2.len() implies entries_wf(
        (#[trigger] st2[j]).dict,
        st2.len() as int,
    ) && 0 <= st2[j].class < nclasses by {
        if j < st.len() {
            assert(st2[j] == st[j]);
            lemma_entries_wf_grow(st[j].dict, st.len() as int, st2.len() as int);
        } else {
            assert(st2[j] == o);
        }
    }
}

/// A value and its specification image have the same shape.
pub proof fn lemma_view_shape(v: &Value)
    ensures
        (v@ is Null) <==> (v is Null),
        (v@ is Mapping) <==> (v is Mapping),
        (v@ is Instance) <==> (v is Instance),
        (v@ is Pair) <==> (v is Pair),
        (v@ is NameSet) <==> (v is NameSet),
        (v@ is Int) <==> (v is Int),
        (v@ is Str) <==> (v is Str),
        (v@ is Bool) <==> (v is Bool),
{
    match v {
        Value::Null => {},
        Value::Bool(_) => {},
        Value::Int(_) => {},
        Value::Str(_) => {},
        Value::Mapping(_) => {},
        Value::Instance(_) => {},
        Value::Pair(_, _) => {},
        Value::NameSet(_) => {},
    }
}

} // verus!
