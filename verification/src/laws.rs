//! Engine-wide laws, proved once and for all over the specification
//! semantics.

use vstd::prelude::*;

use crate::config::{spec_compose, spec_compose_both, spec_priority, ConfigValue, CONFIG_CHOOSE_PRIORITY};
use crate::errors::{ErrM, ErrorKind, LineErrM};
use crate::guard::free_count;
use crate::schema::ClassDef;
use crate::errors::spec_single_error;
use crate::validator::{
    spec_effective_strict, spec_existing_fields_set, spec_is_exact,
    spec_split_pair, sv, sv_fields, Extra, FieldM, ModelValM, VTree,
};
use crate::values::{ObjM, Val};

verus! {

/// The configuration composer is deterministic: what it yields is a
/// function of the two inputs alone, so re-running it on the same pair
/// always gives the same winner and the same merged content.
pub proof fn lemma_compose_deterministic(
    p1: Option<Map<u64, ConfigValue>>,
    c1: Option<Map<u64, ConfigValue>>,
    p2: Option<Map<u64, ConfigValue>>,
    c2: Option<Map<u64, ConfigValue>>,
)
    requires
        p1 == p2,
        c1 == c2,
    ensures
        spec_compose(p1, c1) == spec_compose(p2, c2),
{
}

/// The choose-priority tie-break treats the two sides symmetrically:
/// whichever side holds the strictly greater priority wins outright,
/// whether it is the parent or the child.
pub proof fn lemma_compose_choose_symmetric(
    p: Map<u64, ConfigValue>,
    c: Map<u64, ConfigValue>,
    pc: int,
    cc: int,
)
    requires
        spec_priority(p, CONFIG_CHOOSE_PRIORITY) == Ok::<int, crate::errors::BuildError>(pc),
        spec_priority(c, CONFIG_CHOOSE_PRIORITY) == Ok::<int, crate::errors::BuildError>(cc),
    ensures
        pc > cc ==> spec_compose_both(p, c) == Ok::<Map<u64, ConfigValue>, crate::errors::BuildError>(p),
        cc > pc ==> spec_compose_both(p, c) == Ok::<Map<u64, ConfigValue>, crate::errors::BuildError>(c),
{
}

/// Re-merging the composed result with the same child changes nothing:
/// the composer is idempotent under repeated merges of the same pair.
pub proof fn lemma_compose_idempotent(
    p: Map<u64, ConfigValue>,
    c: Map<u64, ConfigValue>,
    m: Map<u64, ConfigValue>,
)
    requires
        spec_compose_both(p, c) == Ok::<Map<u64, ConfigValue>, crate::errors::BuildError>(m),
        // both merge knobs well typed: a choose-priority winner never
        // reads them, so a later tie could otherwise hit an invalid
        // value the first merge never saw
        spec_priority(p, crate::config::CONFIG_MERGE_PRIORITY) is Ok,
        spec_priority(c, crate::config::CONFIG_MERGE_PRIORITY) is Ok,
    ensures
        spec_compose_both(m, c) == Ok::<Map<u64, ConfigValue>, crate::errors::BuildError>(m),
{
    let key = CONFIG_CHOOSE_PRIORITY;
    let mkey = crate::config::CONFIG_MERGE_PRIORITY;
    let pc = spec_priority(p, key).unwrap();
    let cc = spec_priority(c, key).unwrap();
    if pc > cc {
        assert(m == p);
    } else if pc < cc {
        assert(m == c);
        assert(c.union_prefer_right(c) =~= c);
    } else {
        let pm = spec_priority(p, mkey).unwrap();
        let cm = spec_priority(c, mkey).unwrap();
        // either way m holds both domains, with the winner's values;
        // its priorities still tie with the child's on choose, so the
        // re-merge folds the child back into m without a change
        if cm > pm {
            assert(m == p.union_prefer_right(c));
        } else {
            assert(m == c.union_prefer_right(p));
        }
        assert(spec_priority(m, key) == Ok::<int, crate::errors::BuildError>(cc)) by {
            if m.contains_key(key) {
                if c.contains_key(key) {
                    lemma_priority_value(c, key);
                } else {
                    lemma_priority_value(p, key);
                }
            }
        }
        let mm = spec_priority(m, mkey).unwrap();
        assert(spec_priority(m, mkey) is Ok) by {
            if m.contains_key(mkey) {
                if cm > pm {
                    if c.contains_key(mkey) {
                        lemma_priority_value(c, mkey);
                    } else {
                        lemma_priority_value(p, mkey);
                    }
                } else {
                    if p.contains_key(mkey) {
                        lemma_priority_value(p, mkey);
                    } else {
                        lemma_priority_value(c, mkey);
                    }
                }
            }
        }
        if cm > pm {
            // the child won: m carries the child's entries verbatim
            if cm > mm {
                assert(m.union_prefer_right(c) =~= m);
            } else {
                assert(c.union_prefer_right(m) =~= m);
            }
        } else {
            // the parent won: m's merge priority is the parent's, so
            // the child never outranks it again
            assert(mm >= cm) by {
                if m.contains_key(mkey) {
                    if p.contains_key(mkey) {
                        lemma_priority_value(p, mkey);
                    } else {
                        lemma_priority_value(c, mkey);
                    }
                } else {
                    assert(!p.contains_key(mkey) && !c.contains_key(mkey));
                }
            }
            assert(!(cm > mm));
            assert(c.union_prefer_right(m) =~= m);
        }
    }
}

/// A priority read off a map whose knob is a well-typed integer.
proof fn lemma_priority_value(m: Map<u64, ConfigValue>, key: u64)
    requires
        spec_priority(m, key) is Ok,
        m.contains_key(key),
    ensures
        m[key] == ConfigValue::Int(spec_priority(m, key).unwrap() as i64),
        spec_priority(m, key).unwrap() == m[key]->Int_0 as int,
{
    match m[key] {
        ConfigValue::Int(i) => {},
        ConfigValue::Bool(_) => {},
    }
}

/// Does the tree contain a definition-slot reference anywhere?
pub open spec fn has_slot_ref(t: VTree) -> bool
    decreases t,
{
    match t {
        VTree::Model(mv) => has_slot_ref(*mv.validator),
        VTree::Fields(fs) => fields_have_slot_ref(fs),
        VTree::Nullable(b) => has_slot_ref(*b),
        VTree::SlotRef(_) => true,
        _ => false,
    }
}

pub open spec fn fields_have_slot_ref(fs: Seq<FieldM>) -> bool
    decreases fs,
{
    if fs.len() == 0 {
        false
    } else {
        has_slot_ref(fs.last().validator) || fields_have_slot_ref(fs.drop_last())
    }
}

pub proof fn lemma_fields_have_slot_ref(fs: Seq<FieldM>)
    ensures
        fields_have_slot_ref(fs) <==> (exists|i: int|
            0 <= i < fs.len() && has_slot_ref(#[trigger] fs[i].validator)),
    decreases fs,
{
    if fs.len() > 0 {
        lemma_fields_have_slot_ref(fs.drop_last());
        assert(forall|i: int| 0 <= i < fs.len() - 1 ==> fs.drop_last()[i] == fs[i]);
        if fields_have_slot_ref(fs) {
            if has_slot_ref(fs.last().validator) {
                assert(has_slot_ref(fs[fs.len() - 1].validator));
            } else {
                let i = choose|i: int|
                    0 <= i < fs.drop_last().len() && has_slot_ref(
                        #[trigger] fs.drop_last()[i].validator,
                    );
                assert(has_slot_ref(fs[i].validator));
            }
        } else {
            if exists|i: int| 0 <= i < fs.len() && has_slot_ref(#[trigger] fs[i].validator) {
                let i = choose|i: int|
                    0 <= i < fs.len() && has_slot_ref(#[trigger] fs[i].validator);
                if i < fs.len() - 1 {
                    assert(has_slot_ref(fs.drop_last()[i].validator));
                }
            }
        }
    }
}

/// Does this result report the recursion condition anywhere?
pub open spec fn reports_recursion(res: Result<Val, ErrM>) -> bool {
    match res {
        Err(ErrM::LineErrors(ls)) => exists|i: int|
            0 <= i < ls.len() && (#[trigger] ls[i]).kind is RecursionLoop,
        _ => false,
    }
}

pub open spec fn freports_recursion(res: Result<(Seq<(u64, Val)>, Seq<u64>), ErrM>) -> bool {
    match res {
        Err(ErrM::LineErrors(ls)) => exists|i: int|
            0 <= i < ls.len() && (#[trigger] ls[i]).kind is RecursionLoop,
        _ => false,
    }
}

/// A schema without self-reference never triggers the recursion guard:
/// validating any input, under any call context, against a tree with
/// no definition-slot reference never yields the recursion condition.
pub proof fn lemma_no_slot_ref_no_recursion(
    t: VTree,
    slots: Seq<VTree>,
    classes: Seq<ClassDef>,
    store: Seq<ObjM>,
    input: Val,
    extra: Extra,
    guard: Seq<bool>,
)
    requires
        !has_slot_ref(t),
    ensures
        !reports_recursion(sv(t, slots, classes, store, input, extra, guard).1),
    decreases free_count(guard), t, 1int,
{
    match t {
        VTree::Nullable(b) => {
            if !(input is Null) {
                lemma_no_slot_ref_no_recursion(*b, slots, classes, store, input, extra, guard);
            }
        },
        VTree::Fields(fs) => {
            lemma_fields_have_slot_ref(fs);
            match (extra.self_instance, extra.assignee_field) {
                (Some(tgt), Some(f)) => {
                    match crate::validator::spec_find_field(fs, f) {
                        Some(ix) => {
                            if 0 <= ix < fs.len() {
                                let cleared = Extra {
                                    self_instance: None,
                                    assignee_field: None,
                                    ..extra
                                };
                                lemma_no_slot_ref_no_recursion(
                                    fs[ix].validator,
                                    slots,
                                    classes,
                                    store,
                                    input,
                                    cleared,
                                    guard,
                                );
                            }
                        },
                        None => {},
                    }
                },
                _ => {
                    if input is Mapping || input is Instance {
                        lemma_fields_no_recursion(fs, slots, classes, store, input, extra, guard);
                    }
                },
            }
        },
        VTree::Model(mv) => {
            let body = *mv.validator;
            match extra.self_instance {
                Some(si) => {
                    match extra.assignee_field {
                        Some(_) => {
                            lemma_no_slot_ref_no_recursion(body, slots, classes, store, input, extra, guard);
                        },
                        None => {
                            let cleared = Extra { self_instance: None, ..extra };
                            lemma_no_slot_ref_no_recursion(body, slots, classes, store, input, cleared, guard);
                        },
                    }
                },
                None => {
                    if spec_is_exact(store, input, mv.class) {
                        if mv.revalidate {
                            lemma_no_slot_ref_no_recursion(body, slots, classes, store, input, extra, guard);
                        }
                    } else if !spec_effective_strict(extra, mv.strict) {
                        lemma_no_slot_ref_no_recursion(body, slots, classes, store, input, extra, guard);
                    }
                },
            }
        },
        _ => {},
    }
}

/// Field-by-field validation of slot-reference-free fields never
/// yields the recursion condition; sibling aggregation and location
/// prefixing preserve the condition tags of the children.
pub proof fn lemma_fields_no_recursion(
    fs: Seq<FieldM>,
    slots: Seq<VTree>,
    classes: Seq<ClassDef>,
    store: Seq<ObjM>,
    input: Val,
    extra: Extra,
    guard: Seq<bool>,
)
    requires
        !fields_have_slot_ref(fs),
    ensures
        !freports_recursion(sv_fields(fs, slots, classes, store, input, extra, guard).1),
    decreases free_count(guard), fs, 0int,
{
    lemma_fields_have_slot_ref(fs);
    if fs.len() > 0 {
        let head = fs[0];
        assert(!has_slot_ref(head.validator));
        assert forall|i: int| 0 <= i < fs.drop_first().len() implies !has_slot_ref(
            (#[trigger] fs.drop_first()[i]).validator,
        ) by {
            assert(fs.drop_first()[i] == fs[i + 1]);
        }
        lemma_fields_have_slot_ref(fs.drop_first());
        match crate::validator::spec_get_field(store, input, head.name) {
            None => {
                lemma_fields_no_recursion(fs.drop_first(), slots, classes, store, input, extra, guard);
            },
            Some(v) => {
                lemma_no_slot_ref_no_recursion(head.validator, slots, classes, store, v, extra, guard);
                let (st1, r1) = sv(head.validator, slots, classes, store, v, extra, guard);
                lemma_fields_no_recursion(fs.drop_first(), slots, classes, st1, input, extra, guard);
            },
        }
    }
}

/// Re-entering a definition slot that is already on the active stack
/// is rejected at once with the recursion condition, whatever the
/// input.
pub proof fn lemma_reentry_rejected(
    i: int,
    slots: Seq<VTree>,
    classes: Seq<ClassDef>,
    store: Seq<ObjM>,
    input: Val,
    extra: Extra,
    guard: Seq<bool>,
)
    requires
        0 <= i < guard.len(),
        guard.len() == slots.len(),
        guard[i],
    ensures
        sv(VTree::SlotRef(i), slots, classes, store, input, extra, guard) == (
            store,
            Err::<Val, ErrM>(spec_single_error(ErrorKind::RecursionLoop)),
        ),
{
}

/// With revalidation disabled, an exact instance passes through: the
/// returned object is identity-equal to the input, the store is
/// untouched, and no hook runs.
pub proof fn lemma_passthrough_identity(
    mv: ModelValM,
    slots: Seq<VTree>,
    classes: Seq<ClassDef>,
    store: Seq<ObjM>,
    input: Val,
    extra: Extra,
    guard: Seq<bool>,
)
    requires
        extra.self_instance is None,
        spec_is_exact(store, input, mv.class),
        !mv.revalidate,
    ensures
        sv(VTree::Model(mv), slots, classes, store, input, extra, guard) == (
            store,
            Ok::<Val, ErrM>(input),
        ),
{
}

/// With revalidation enabled, a successfully revalidated exact
/// instance comes back as a distinct, freshly allocated instance
/// whose attribute container is the revalidated data and whose
/// fields-set is the original instance's own whenever the original
/// exposed one.
pub proof fn lemma_revalidate_fresh(
    mv: ModelValM,
    slots: Seq<VTree>,
    classes: Seq<ClassDef>,
    store: Seq<ObjM>,
    iid: int,
    extra: Extra,
    guard: Seq<bool>,
)
    requires
        extra.self_instance is None,
        spec_is_exact(store, Val::Instance(iid), mv.class),
        mv.revalidate,
        mv.expect_fields_set,
        mv.post_init is None,
        sv(*mv.validator, slots, classes, store, Val::Instance(iid), extra, guard).1 is Ok,
        spec_split_pair(
            sv(*mv.validator, slots, classes, store, Val::Instance(iid), extra, guard).1->Ok_0,
        ) is Some,
        sv(*mv.validator, slots, classes, store, Val::Instance(iid), extra, guard).0.len()
            >= store.len(),
    ensures
        ({
            let (st1, r1) = sv(*mv.validator, slots, classes, store, Val::Instance(iid), extra, guard);
            let (dm, ns) = spec_split_pair(r1->Ok_0).unwrap();
            let out = sv(VTree::Model(mv), slots, classes, store, Val::Instance(iid), extra, guard);
            // a fresh identity, distinct from the input's
            &&& out.1 == Ok::<Val, ErrM>(Val::Instance(st1.len() as int))
            &&& st1.len() != iid
            // equal field data: the revalidated attribute container
            &&& out.0[st1.len() as int].dict == dm
            // the original's fields-set wins when it exposed one
            &&& out.0[st1.len() as int].fields_set == Some(
                match spec_existing_fields_set(store, Val::Instance(iid)) {
                    Some(e) => e,
                    None => ns,
                },
            )
        }),
{
    let (st1, r1) = sv(*mv.validator, slots, classes, store, Val::Instance(iid), extra, guard);
    let (dm, ns) = spec_split_pair(r1->Ok_0).unwrap();
    // case split on the body output's shape, so the split above
    // resolves to its components
    match r1->Ok_0 {
        Val::Pair(d, s) => {},
        _ => {},
    }
}

/// Strict mode rejects any input that is not an exact instance with
/// the class-mismatch condition naming the target class — whether or
/// not the input's data would otherwise validate.
pub proof fn lemma_strict_rejects(
    mv: ModelValM,
    slots: Seq<VTree>,
    classes: Seq<ClassDef>,
    store: Seq<ObjM>,
    input: Val,
    extra: Extra,
    guard: Seq<bool>,
)
    requires
        extra.self_instance is None,
        !spec_is_exact(store, input, mv.class),
        spec_effective_strict(extra, mv.strict),
    ensures
        sv(VTree::Model(mv), slots, classes, store, input, extra, guard) == (
            store,
            Err::<Val, ErrM>(spec_single_error(ErrorKind::ModelClassType { class_name: mv.name })),
        ),
{
}

/// Does the tree contain a model node anywhere? Only model nodes
/// materialize host objects.
pub open spec fn has_model(t: VTree) -> bool
    decreases t,
{
    match t {
        VTree::Model(_) => true,
        VTree::Fields(fs) => fields_have_model(fs),
        VTree::Nullable(b) => has_model(*b),
        _ => false,
    }
}

pub open spec fn fields_have_model(fs: Seq<FieldM>) -> bool
    decreases fs,
{
    if fs.len() == 0 {
        false
    } else {
        has_model(fs.last().validator) || fields_have_model(fs.drop_last())
    }
}

pub proof fn lemma_fields_have_model(fs: Seq<FieldM>)
    ensures
        fields_have_model(fs) <==> (exists|i: int|
            0 <= i < fs.len() && has_model(#[trigger] fs[i].validator)),
    decreases fs,
{
    if fs.len() > 0 {
        lemma_fields_have_model(fs.drop_last());
        assert(forall|i: int| 0 <= i < fs.len() - 1 ==> fs.drop_last()[i] == fs[i]);
        if fields_have_model(fs) {
            if has_model(fs.last().validator) {
                assert(has_model(fs[fs.len() - 1].validator));
            } else {
                let i = choose|i: int|
                    0 <= i < fs.drop_last().len() && has_model(
                        #[trigger] fs.drop_last()[i].validator,
                    );
                assert(has_model(fs[i].validator));
            }
        } else {
            if exists|i: int| 0 <= i < fs.len() && has_model(#[trigger] fs[i].validator) {
                let i = choose|i: int| 0 <= i < fs.len() && has_model(#[trigger] fs[i].validator);
                if i < fs.len() - 1 {
                    assert(has_model(fs.drop_last()[i].validator));
                }
            }
        }
    }
}

/// A tree without model nodes never changes how many host objects
/// exist: it only reads, or updates objects in place. Slot references
/// may point to arbitrary definitions, so they are excluded too.
pub proof fn lemma_no_model_no_alloc(
    t: VTree,
    slots: Seq<VTree>,
    classes: Seq<ClassDef>,
    store: Seq<ObjM>,
    input: Val,
    extra: Extra,
    guard: Seq<bool>,
)
    requires
        !has_model(t),
        !has_slot_ref(t),
    ensures
        sv(t, slots, classes, store, input, extra, guard).0.len() == store.len(),
    decreases free_count(guard), t, 1int,
{
    match t {
        VTree::Nullable(b) => {
            if !(input is Null) {
                lemma_no_model_no_alloc(*b, slots, classes, store, input, extra, guard);
            }
        },
        VTree::Fields(fs) => {
            lemma_fields_have_model(fs);
            lemma_fields_have_slot_ref(fs);
            match (extra.self_instance, extra.assignee_field) {
                (Some(tgt), Some(f)) => {
                    match crate::validator::spec_find_field(fs, f) {
                        Some(ix) => {
                            if 0 <= ix < fs.len() {
                                let cleared = Extra {
                                    self_instance: None,
                                    assignee_field: None,
                                    ..extra
                                };
                                lemma_no_model_no_alloc(
                                    fs[ix].validator,
                                    slots,
                                    classes,
                                    store,
                                    input,
                                    cleared,
                                    guard,
                                );
                            }
                        },
                        None => {},
                    }
                },
                _ => {
                    if input is Mapping || input is Instance {
                        lemma_fields_no_alloc(fs, slots, classes, store, input, extra, guard);
                    }
                },
            }
        },
        _ => {},
    }
}

pub proof fn lemma_fields_no_alloc(
    fs: Seq<FieldM>,
    slots: Seq<VTree>,
    classes: Seq<ClassDef>,
    store: Seq<ObjM>,
    input: Val,
    extra: Extra,
    guard: Seq<bool>,
)
    requires
        !fields_have_model(fs),
        !fields_have_slot_ref(fs),
    ensures
        sv_fields(fs, slots, classes, store, input, extra, guard).0.len() == store.len(),
    decreases free_count(guard), fs, 0int,
{
    lemma_fields_have_model(fs);
    lemma_fields_have_slot_ref(fs);
    if fs.len() > 0 {
        let head = fs[0];
        assert forall|i: int| 0 <= i < fs.drop_first().len() implies !has_model(
            (#[trigger] fs.drop_first()[i]).validator,
        ) && !has_slot_ref(fs.drop_first()[i].validator) by {
            assert(fs.drop_first()[i] == fs[i + 1]);
        }
        lemma_fields_have_model(fs.drop_first());
        lemma_fields_have_slot_ref(fs.drop_first());
        match crate::validator::spec_get_field(store, input, head.name) {
            None => {
                lemma_fields_no_alloc(fs.drop_first(), slots, classes, store, input, extra, guard);
            },
            Some(v) => {
                assert(!has_model(fs[0].validator) && !has_slot_ref(fs[0].validator));
                lemma_no_model_no_alloc(head.validator, slots, classes, store, v, extra, guard);
                let (st1, r1) = sv(head.validator, slots, classes, store, v, extra, guard);
                lemma_fields_no_alloc(fs.drop_first(), slots, classes, st1, input, extra, guard);
            },
        }
    }
}

/// Reassignment never allocates a new host object when the body is
/// free of model nodes and slot references: the store keeps its size,
/// and the validated field value itself is returned.
pub proof fn lemma_assignment_no_alloc(
    mv: ModelValM,
    slots: Seq<VTree>,
    classes: Seq<ClassDef>,
    store: Seq<ObjM>,
    input: Val,
    extra: Extra,
    guard: Seq<bool>,
)
    requires
        extra.self_instance is Some,
        extra.assignee_field is Some,
        !has_model(*mv.validator),
        !has_slot_ref(*mv.validator),
    ensures
        ({
            let out = sv(VTree::Model(mv), slots, classes, store, input, extra, guard);
            let (st1, r1) = sv(*mv.validator, slots, classes, store, input, extra, guard);
            &&& out.0.len() == store.len()
            &&& r1 is Ok ==> out.1 == Ok::<Val, ErrM>(r1->Ok_0)
        }),
{
    lemma_no_model_no_alloc(*mv.validator, slots, classes, store, input, extra, guard);
}

} // verus!
