//! The compiled validator tree: a closed, tagged family of validator
//! kinds, its specification-level image, and the specification
//! semantics of validation — one total function `sv` that pins down,
//! for every tree, input, call context and store, the resulting store
//! and the returned value or error report.

use vstd::prelude::*;

use crate::errors::{spec_single_error, spec_prefix_location, ErrM, ErrorKind, LineErrM};
use crate::guard::{free_count, lemma_free_count_enter};
use crate::schema::ClassDef;
use crate::errors::ValError;
use crate::values::{entries_view, spec_lookup, store_wf, val_wf, ObjM, Val, Value};

verus! {

/// A compiled model validator: the focus of the engine. Immutable
/// after build; owns its body sub-tree and the cached capability
/// answer of whether the body yields a fields-set.
#[derive(Debug)]
pub struct ModelValidator {
    pub strict: bool,
    pub revalidate: bool,
    pub validator: Box<CombinedValidator>,
    pub class: usize,
    pub post_init: Option<u64>,
    pub name: u64,
    pub expect_fields_set: bool,
}

/// One declared field of a fields validator.
#[derive(Debug)]
pub struct FieldValidator {
    pub name: u64,
    pub validator: CombinedValidator,
}

/// The closed family of validator kinds, dispatched by exhaustive
/// matching.
#[derive(Debug)]
pub enum CombinedValidator {
    Model(ModelValidator),
    Fields(Vec<FieldValidator>),
    Int,
    Str,
    Nullable(Box<CombinedValidator>),
    SlotRef(usize),
}

/// Build-time capability questions a parent may ask of a child.
#[derive(Clone, Copy, PartialEq, Eq, Structural, Debug)]
pub enum Question {
    /// Does this validator return an auxiliary fields-set alongside its
    /// value?
    ReturnFieldsSet,
}

/// Per-call, stack-scoped parameters threaded through the whole tree.
/// `assignee_field` is only meaningful when `self_instance` is present.
#[derive(Clone, Copy, Debug)]
pub struct Extra {
    pub strict: Option<bool>,
    pub self_instance: Option<usize>,
    pub assignee_field: Option<u64>,
    pub context: u64,
}

/// Specification-level image of a `ModelValidator`.
pub struct ModelValM {
    pub strict: bool,
    pub revalidate: bool,
    pub validator: Box<VTree>,
    pub class: int,
    pub post_init: Option<u64>,
    pub name: u64,
    pub expect_fields_set: bool,
}

/// Specification-level image of a `FieldValidator`.
pub struct FieldM {
    pub name: u64,
    pub validator: VTree,
}

/// Specification-level image of a `CombinedValidator`.
pub enum VTree {
    Model(ModelValM),
    Fields(Seq<FieldM>),
    Int,
    Str,
    Nullable(Box<VTree>),
    SlotRef(int),
}

pub open spec fn fields_vview(fs: Seq<FieldValidator>) -> Seq<FieldM>
    decreases fs,
{
    if fs.len() == 0 {
        Seq::empty()
    } else {
        fields_vview(fs.drop_last()).push(FieldM {
            name: fs.last().name,
            validator: fs.last().validator@,
        })
    }
}

impl View for ModelValidator {
    type V = ModelValM;

    open spec fn view(&self) -> ModelValM
        decreases self,
    {
        ModelValM {
            strict: self.strict,
            revalidate: self.revalidate,
            validator: Box::new((*self.validator)@),
            class: self.class as int,
            post_init: self.post_init,
            name: self.name,
            expect_fields_set: self.expect_fields_set,
        }
    }
}

impl View for CombinedValidator {
    type V = VTree;

    open spec fn view(&self) -> VTree
        decreases self,
    {
        match self {
            CombinedValidator::Model(mv) => VTree::Model(mv@),
            CombinedValidator::Fields(fs) => VTree::Fields(fields_vview(fs@)),
            CombinedValidator::Int => VTree::Int,
            CombinedValidator::Str => VTree::Str,
            CombinedValidator::Nullable(b) => VTree::Nullable(Box::new((**b)@)),
            CombinedValidator::SlotRef(i) => VTree::SlotRef(*i as int),
        }
    }
}

pub proof fn lemma_fields_vview(fs: Seq<FieldValidator>)
    ensures
        fields_vview(fs).len() == fs.len(),
        forall|i: int|
            0 <= i < fs.len() ==> fields_vview(fs)[i] == (FieldM {
                name: fs[i].name,
                validator: fs[i].validator@,
            }),
    decreases fs,
{
    if fs.len() > 0 {
        lemma_fields_vview(fs.drop_last());
        assert(forall|i: int| 0 <= i < fs.len() - 1 ==> fs.drop_last()[i] == fs[i]);
        assert(fields_vview(fs)[fs.len() - 1] == (FieldM {
            name: fs[fs.len() - 1].name,
            validator: fs[fs.len() - 1].validator@,
        }));
    }
}

/// Slot references and class identities inside the tree stay within
/// the definition table and the class table.
pub open spec fn vt_wf(t: VTree, nslots: int, nclasses: int) -> bool
    decreases t,
{
    match t {
        VTree::Model(mv) => 0 <= mv.class < nclasses && vt_wf(*mv.validator, nslots, nclasses),
        VTree::Fields(fs) => fields_wf(fs, nslots, nclasses),
        VTree::Nullable(b) => vt_wf(*b, nslots, nclasses),
        VTree::SlotRef(i) => 0 <= i < nslots,
        _ => true,
    }
}

pub open spec fn fields_wf(fs: Seq<FieldM>, nslots: int, nclasses: int) -> bool
    decreases fs,
{
    if fs.len() == 0 {
        true
    } else {
        vt_wf(fs.last().validator, nslots, nclasses) && fields_wf(fs.drop_last(), nslots, nclasses)
    }
}

pub proof fn lemma_fields_wf(fs: Seq<FieldM>, nslots: int, nclasses: int)
    ensures
        fields_wf(fs, nslots, nclasses) <==> (forall|i: int|
            0 <= i < fs.len() ==> vt_wf(#[trigger] fs[i].validator, nslots, nclasses)),
    decreases fs,
{
    if fs.len() > 0 {
        lemma_fields_wf(fs.drop_last(), nslots, nclasses);
        assert(forall|i: int| 0 <= i < fs.len() - 1 ==> fs.drop_last()[i] == fs[i]);
        assert(fs.last() == fs[fs.len() - 1]);
    }
}

/// All definition slots hold trees that stay within the tables.
pub open spec fn slots_wf(slots: Seq<VTree>, nclasses: int) -> bool {
    forall|i: int| 0 <= i < slots.len() ==> vt_wf(#[trigger] slots[i], slots.len() as int, nclasses)
}

/// The call context's self-instance, if present, points into the store.
pub open spec fn extra_wf(extra: Extra, nstore: int) -> bool {
    match extra.self_instance {
        Some(i) => 0 <= i < nstore,
        None => true,
    }
}

/// Is the input an exact instance of `class` — its runtime class is
/// precisely the target, not a subtype?
pub open spec fn spec_is_exact(store: Seq<ObjM>, input: Val, class: int) -> bool {
    match input {
        Val::Instance(i) => 0 <= i < store.len() && store[i].class == class,
        _ => false,
    }
}

/// Uniform read access to attribute- or key-based data: a mapping is
/// read by key, an instance through its backing attribute container.
pub open spec fn spec_get_field(store: Seq<ObjM>, input: Val, name: u64) -> Option<Val> {
    match input {
        Val::Mapping(m) => spec_lookup(m, name),
        Val::Instance(i) => if 0 <= i < store.len() {
            spec_lookup(store[i].dict, name)
        } else {
            None
        },
        _ => None,
    }
}

/// The call-level strictness override, falling back to the validator's
/// own flag.
pub open spec fn spec_effective_strict(extra: Extra, flag: bool) -> bool {
    match extra.strict {
        Some(s) => s,
        None => flag,
    }
}

/// Object materialization: allocate a fresh instance of the target
/// class — bypassing its normal initializer — and force-set its backing
/// attribute container and, if given, its fields-set.
pub open spec fn spec_create(store: Seq<ObjM>, class: int, dict: Seq<(u64, Val)>, fields_set: Option<Seq<u64>>) -> (Seq<ObjM>, Val) {
    (
        store.push(ObjM { class: class, dict: dict, fields_set: fields_set }),
        Val::Instance(store.len() as int),
    )
}

/// The post-construction hook, invoked with the call context's opaque
/// context value; a raise is reported as a validation error attributed
/// to the original input.
pub open spec fn spec_apply_hook(post_init: Option<u64>, class: int, classes: Seq<ClassDef>, inst: Val) -> Result<Val, ErrM> {
    match post_init {
        None => Ok(inst),
        Some(_) => if 0 <= class < classes.len() && classes[class].post_init_fails {
            Err(spec_single_error(ErrorKind::PostInitFailure))
        } else {
            Ok(inst)
        },
    }
}

/// A fields-set with `f` added; adding a present name changes nothing.
pub open spec fn spec_add_name(fs: Seq<u64>, f: u64) -> Seq<u64> {
    if fs.contains(f) {
        fs
    } else {
        fs.push(f)
    }
}

/// The entry list with the binding for `key` replaced in place, or
/// appended when absent.
pub open spec fn spec_dict_set(entries: Seq<(u64, Val)>, key: u64, v: Val) -> Seq<(u64, Val)>
    decreases entries,
{
    if entries.len() == 0 {
        seq![(key, v)]
    } else if entries[0].0 == key {
        entries.update(0, (key, v))
    } else {
        seq![entries[0]] + spec_dict_set(entries.drop_first(), key, v)
    }
}

/// The first declared field with this name, if any.
pub open spec fn spec_find_field(fs: Seq<FieldM>, name: u64) -> Option<int>
    decreases fs,
{
    if fs.len() == 0 {
        None
    } else if fs[0].name == name {
        Some(0)
    } else {
        match spec_find_field(fs.drop_first(), name) {
            Some(i) => Some(i + 1),
            None => None,
        }
    }
}

/// A model-body output carrying a fields-set: the attribute container
/// and the set, as produced by fields validators.
pub open spec fn spec_split_pair(out: Val) -> Option<(Seq<(u64, Val)>, Seq<u64>)> {
    match out {
        Val::Pair(d, s) => match *d {
            Val::Mapping(dm) => match *s {
                Val::NameSet(ns) => Some((dm, ns)),
                _ => None,
            },
            _ => None,
        },
        _ => None,
    }
}

/// A split body output inherits the output's well-formedness.
pub proof fn lemma_split_pair_wf(out: Val, n: int)
    requires
        val_wf(out, n),
        spec_split_pair(out) is Some,
    ensures
        crate::values::entries_wf(spec_split_pair(out).unwrap().0, n),
{
    match out {
        Val::Pair(d, s) => {
            assert(val_wf(*d, n));
        },
        _ => {},
    }
}

/// An output used as an attribute container inherits its
/// well-formedness.
pub proof fn lemma_as_mapping_wf(out: Val, n: int)
    requires
        val_wf(out, n),
        spec_as_mapping(out) is Some,
    ensures
        crate::values::entries_wf(spec_as_mapping(out).unwrap(), n),
{
}

/// An output used directly as an attribute container.
pub open spec fn spec_as_mapping(out: Val) -> Option<Seq<(u64, Val)>> {
    match out {
        Val::Mapping(dm) => Some(dm),
        _ => None,
    }
}

/// The specification semantics of validation: applying tree `t` to
/// `input` under call context `extra` yields this store and result.
///
/// Termination is by the recursion guard: every pass through a
/// definition slot consumes one free guard entry, and every other
/// step descends structurally into the tree.
pub open spec fn sv(
    t: VTree,
    slots: Seq<VTree>,
    classes: Seq<ClassDef>,
    store: Seq<ObjM>,
    input: Val,
    extra: Extra,
    guard: Seq<bool>,
) -> (Seq<ObjM>, Result<Val, ErrM>)
    decreases free_count(guard), t,
{
    match t {
        VTree::Int => (store, sv_int(input, extra)),
        VTree::Str => (store, sv_str(input)),
        VTree::Nullable(inner) => {
            if input is Null {
                (store, Ok(Val::Null))
            } else {
                sv(*inner, slots, classes, store, input, extra, guard)
            }
        },
        VTree::SlotRef(i) => {
            if 0 <= i < guard.len() && guard.len() == slots.len() {
                if guard[i] {
                    (store, Err(spec_single_error(ErrorKind::RecursionLoop)))
                } else {
                    proof {
                        lemma_free_count_enter(guard, i);
                    }
                    sv(slots[i], slots, classes, store, input, extra, guard.update(i, true))
                }
            } else {
                (store, Err(ErrM::InternalError))
            }
        },
        VTree::Fields(fs) => {
            match (extra.self_instance, extra.assignee_field) {
                (Some(tgt), Some(f)) => {
                    // single-field reassignment against the target's
                    // backing store
                    match spec_find_field(fs, f) {
                        None => (store, Err(spec_single_error(ErrorKind::NoSuchAttribute { field: f }))),
                        Some(ix) => {
                            if 0 <= ix < fs.len() {
                                let cleared = Extra {
                                    self_instance: None,
                                    assignee_field: None,
                                    ..extra
                                };
                                let (st1, r1) = sv(fs[ix].validator, slots, classes, store, input, cleared, guard);
                                finish_field_assignment(st1, r1, tgt as int, f)
                            } else {
                                (store, Err(ErrM::InternalError))
                            }
                        },
                    }
                },
                _ => {
                    // normal mode: read every declared field, validate
                    // it, aggregate sibling failures into one report
                    if input is Mapping || input is Instance {
                        let (st1, r1) = sv_fields(fs, slots, classes, store, input, extra, guard);
                        finish_fields_normal(st1, r1)
                    } else {
                        (store, Err(spec_single_error(ErrorKind::MappingType)))
                    }
                },
            }
        },
        VTree::Model(mv) => {
            match extra.self_instance {
                Some(si) => {
                    match extra.assignee_field {
                        Some(f) => {
                            // Reassignment: body validates against the
                            // target's backing store; no new object.
                            let (st1, r1) = sv(*mv.validator, slots, classes, store, input, extra, guard);
                            finish_assignment(mv, st1, r1, f, si as int)
                        },
                        None => {
                            // In-place initialization: nested validators
                            // must not treat themselves as the target.
                            let cleared = Extra { self_instance: None, ..extra };
                            let (st1, r1) = sv(*mv.validator, slots, classes, store, input, cleared, guard);
                            finish_init(mv, classes, st1, r1, si as int)
                        },
                    }
                },
                None => {
                    if spec_is_exact(store, input, mv.class) {
                        if mv.revalidate {
                            // Revalidation: keep the instance's own
                            // fields-set, rebuild from revalidated data.
                            let existing = spec_existing_fields_set(store, input);
                            let (st1, r1) = sv(*mv.validator, slots, classes, store, input, extra, guard);
                            finish_build(mv, classes, st1, r1, existing)
                        } else {
                            // Passthrough fast path: the very same
                            // object, unchanged, and no hook.
                            (store, Ok(input))
                        }
                    } else if spec_effective_strict(extra, mv.strict) {
                        (store, Err(spec_single_error(ErrorKind::ModelClassType { class_name: mv.name })))
                    } else {
                        // Coercive build from arbitrary input.
                        let (st1, r1) = sv(*mv.validator, slots, classes, store, input, extra, guard);
                        finish_build(mv, classes, st1, r1, None)
                    }
                },
            }
        },
    }
}

/// Field-by-field validation, front to back: the validated attribute
/// entries and the names seen, or the aggregated failures.
pub open spec fn sv_fields(
    fs: Seq<FieldM>,
    slots: Seq<VTree>,
    classes: Seq<ClassDef>,
    store: Seq<ObjM>,
    input: Val,
    extra: Extra,
    guard: Seq<bool>,
) -> (Seq<ObjM>, Result<(Seq<(u64, Val)>, Seq<u64>), ErrM>)
    decreases free_count(guard), fs,
{
    if fs.len() == 0 {
        (store, Ok((Seq::empty(), Seq::empty())))
    } else {
        let head = fs[0];
        match spec_get_field(store, input, head.name) {
            None => {
                let missing = seq![LineErrM {
                    kind: ErrorKind::MissingField,
                    location: seq![head.name],
                }];
                let (st2, r2) = sv_fields(fs.drop_first(), slots, classes, store, input, extra, guard);
                match r2 {
                    Ok(_) => (st2, Err(ErrM::LineErrors(missing))),
                    Err(ErrM::LineErrors(ls)) => (st2, Err(ErrM::LineErrors(missing + ls))),
                    Err(ErrM::InternalError) => (st2, Err(ErrM::InternalError)),
                }
            },
            Some(v) => {
                let (st1, r1) = sv(head.validator, slots, classes, store, v, extra, guard);
                match r1 {
                    Ok(out) => {
                        let (st2, r2) = sv_fields(fs.drop_first(), slots, classes, st1, input, extra, guard);
                        match r2 {
                            Ok((entries, names)) => (st2, Ok((
                                seq![(head.name, out)] + entries,
                                seq![head.name] + names,
                            ))),
                            Err(e) => (st2, Err(e)),
                        }
                    },
                    Err(ErrM::LineErrors(ls)) => {
                        let mine = spec_prefix_location(head.name, ls);
                        let (st2, r2) = sv_fields(fs.drop_first(), slots, classes, st1, input, extra, guard);
                        match r2 {
                            Ok(_) => (st2, Err(ErrM::LineErrors(mine))),
                            Err(ErrM::LineErrors(ls2)) => (st2, Err(ErrM::LineErrors(mine + ls2))),
                            Err(ErrM::InternalError) => (st2, Err(ErrM::InternalError)),
                        }
                    },
                    Err(ErrM::InternalError) => (st1, Err(ErrM::InternalError)),
                }
            },
        }
    }
}

/// The integer leaf: integers pass; in lax mode a digit string is
/// coerced; everything else is rejected.
pub open spec fn sv_int(input: Val, extra: Extra) -> Result<Val, ErrM> {
    match input {
        Val::Int(i) => Ok(Val::Int(i)),
        Val::Str(s) => {
            if spec_effective_strict(extra, false) {
                Err(spec_single_error(ErrorKind::IntType))
            } else {
                match spec_str_to_int(s) {
                    Some(v) => Ok(Val::Int(v)),
                    None => Err(spec_single_error(ErrorKind::IntParsing)),
                }
            }
        },
        _ => Err(spec_single_error(ErrorKind::IntType)),
    }
}

/// The string leaf: strings pass, everything else is rejected.
pub open spec fn sv_str(input: Val) -> Result<Val, ErrM> {
    match input {
        Val::Str(s) => Ok(Val::Str(s)),
        _ => Err(spec_single_error(ErrorKind::StrType)),
    }
}

/// Digit characters folded into a number, most significant first.
pub open spec fn spec_digits_value(s: Seq<char>) -> int
    decreases s,
{
    if s.len() == 0 {
        0
    } else {
        spec_digits_value(s.drop_last()) * 10 + (s.last() as int - '0' as int)
    }
}

pub open spec fn spec_all_digits(s: Seq<char>) -> bool {
    forall|i: int| 0 <= i < s.len() ==> '0' <= #[trigger] s[i] <= '9'
}

/// The lax string-to-integer coercion: an unsigned run of at most 18
/// digits (so the value always fits the integer type); anything else
/// does not coerce.
pub open spec fn spec_str_to_int(s: Seq<char>) -> Option<int> {
    if s.len() == 0 || s.len() > 18 || !spec_all_digits(s) {
        None
    } else {
        Some(spec_digits_value(s))
    }
}

/// The instance's own fields-set, if the input is a stored instance
/// that exposes one.
pub open spec fn spec_existing_fields_set(store: Seq<ObjM>, input: Val) -> Option<Seq<u64>> {
    match input {
        Val::Instance(i) => if 0 <= i < store.len() {
            store[i].fields_set
        } else {
            None
        },
        _ => None,
    }
}

/// Reassignment epilogue of a fields validator: on success, install
/// the validated value under `f` in the target's backing attribute
/// container and hand the value back.
pub open spec fn finish_field_assignment(
    st1: Seq<ObjM>,
    r1: Result<Val, ErrM>,
    tgt: int,
    f: u64,
) -> (Seq<ObjM>, Result<Val, ErrM>) {
    match r1 {
        Ok(v) => {
            if 0 <= tgt < st1.len() {
                let o = st1[tgt];
                (
                    st1.update(tgt, ObjM { dict: crate::values::spec_dict_set(o.dict, f, v), ..o }),
                    Ok(v),
                )
            } else {
                (st1, Err(ErrM::InternalError))
            }
        },
        Err(e) => (st1, Err(e)),
    }
}

/// Normal-mode epilogue of a fields validator: package the collected
/// attribute entries and names as a two-part output.
pub open spec fn finish_fields_normal(
    st1: Seq<ObjM>,
    r1: Result<(Seq<(u64, Val)>, Seq<u64>), ErrM>,
) -> (Seq<ObjM>, Result<Val, ErrM>) {
    match r1 {
        Ok(p) => (
            st1,
            Ok(Val::Pair(Box::new(Val::Mapping(p.0)), Box::new(Val::NameSet(p.1)))),
        ),
        Err(e) => (st1, Err(e)),
    }
}

/// Reassignment epilogue: on success, record the assignee in the
/// target's existing fields-set — silently a no-op if the target has
/// no fields-set facility — and return the validated field value
/// unchanged; no new object is built.
pub open spec fn finish_assignment(
    mv: ModelValM,
    st1: Seq<ObjM>,
    r1: Result<Val, ErrM>,
    f: u64,
    si: int,
) -> (Seq<ObjM>, Result<Val, ErrM>) {
    match r1 {
        Ok(out) => {
            let st2 = if mv.expect_fields_set && 0 <= si < st1.len() {
                let o = st1[si];
                match o.fields_set {
                    Some(fset) => st1.update(si, ObjM {
                        fields_set: Some(spec_add_name(fset, f)),
                        ..o
                    }),
                    None => st1,
                }
            } else {
                st1
            };
            (st2, Ok(out))
        },
        Err(e) => (st1, Err(e)),
    }
}

/// In-place initialization epilogue: force-set the validated attribute
/// container (and fields-set, if expected) directly onto the
/// pre-allocated target, bypassing its normal initializer, then run
/// the hook; the result is the target itself.
pub open spec fn finish_init(
    mv: ModelValM,
    classes: Seq<ClassDef>,
    st1: Seq<ObjM>,
    r1: Result<Val, ErrM>,
    si: int,
) -> (Seq<ObjM>, Result<Val, ErrM>) {
    match r1 {
        Ok(out) => {
            if 0 <= si < st1.len() {
                let o = st1[si];
                if mv.expect_fields_set {
                    match spec_split_pair(out) {
                        Some((dm, ns)) => {
                            let st2 = st1.update(si, ObjM { dict: dm, fields_set: Some(ns), ..o });
                            (st2, hook_result(mv, classes, Val::Instance(si)))
                        },
                        None => (st1, Err(ErrM::InternalError)),
                    }
                } else {
                    match spec_as_mapping(out) {
                        Some(dm) => {
                            let st2 = st1.update(si, ObjM { dict: dm, ..o });
                            (st2, hook_result(mv, classes, Val::Instance(si)))
                        },
                        None => (st1, Err(ErrM::InternalError)),
                    }
                }
            } else {
                (st1, Err(ErrM::InternalError))
            }
        },
        Err(e) => (st1, Err(e)),
    }
}

/// Fresh-build epilogue, shared by coercive build (no existing
/// fields-set) and revalidation (the instance's own fields-set, when
/// exposed, overrides the revalidated one): materialize a new instance
/// from the body's output, then run the hook.
pub open spec fn finish_build(
    mv: ModelValM,
    classes: Seq<ClassDef>,
    st1: Seq<ObjM>,
    r1: Result<Val, ErrM>,
    existing: Option<Seq<u64>>,
) -> (Seq<ObjM>, Result<Val, ErrM>) {
    match r1 {
        Ok(out) => {
            if mv.expect_fields_set {
                match spec_split_pair(out) {
                    Some((dm, ns)) => {
                        let fset = match existing {
                            Some(e) => e,
                            None => ns,
                        };
                        let (st2, inst) = spec_create(st1, mv.class, dm, Some(fset));
                        (st2, hook_result(mv, classes, inst))
                    },
                    None => (st1, Err(ErrM::InternalError)),
                }
            } else {
                match spec_as_mapping(out) {
                    Some(dm) => {
                        let (st2, inst) = spec_create(st1, mv.class, dm, existing);
                        (st2, hook_result(mv, classes, inst))
                    },
                    None => (st1, Err(ErrM::InternalError)),
                }
            }
        },
        Err(e) => (st1, Err(e)),
    }
}

/// Every success path that built or initialized an instance runs the
/// post-construction hook identically.
pub open spec fn hook_result(mv: ModelValM, classes: Seq<ClassDef>, inst: Val) -> Result<Val, ErrM> {
    spec_apply_hook(mv.post_init, mv.class, classes, inst)
}

/// Specification image of a whole-call result.
pub open spec fn res_view(r: Result<Value, ValError>) -> Result<Val, ErrM> {
    match r {
        Ok(v) => Ok(v@),
        Err(e) => Err(e@),
    }
}

/// Specification image of a fields-validation result.
pub open spec fn fres_view(r: Result<(Vec<(u64, Value)>, Vec<u64>), ValError>) -> Result<
    (Seq<(u64, Val)>, Seq<u64>),
    ErrM,
> {
    match r {
        Ok((es, ns)) => Ok((entries_view(es@), ns@)),
        Err(e) => Err(e@),
    }
}

pub open spec fn opt_names_view(o: Option<Vec<u64>>) -> Option<Seq<u64>> {
    match o {
        Some(fs) => Some(fs@),
        None => None,
    }
}

/// The build-time capability answers of each validator kind: only a
/// fields validator yields a fields-set alongside its value.
pub open spec fn spec_ask(t: VTree, q: Question) -> bool {
    match q {
        Question::ReturnFieldsSet => t is Fields,
    }
}

pub open spec fn slots_view(s: Seq<CombinedValidator>) -> Seq<VTree> {
    Seq::new(s.len(), |i: int| s[i]@)
}

/// What every validation entry point may assume.
pub open spec fn validate_pre(
    t: VTree,
    slots: Seq<VTree>,
    classes: Seq<ClassDef>,
    store: Seq<ObjM>,
    input: Val,
    extra: Extra,
    guard: Seq<bool>,
) -> bool {
    &&& vt_wf(t, slots.len() as int, classes.len() as int)
    &&& slots_wf(slots, classes.len() as int)
    &&& store_wf(store, classes.len() as int)
    &&& val_wf(input, store.len() as int)
    &&& extra_wf(extra, store.len() as int)
    &&& guard.len() == slots.len()
}

/// What every validation entry point guarantees: the semantics `sv`
/// pins the resulting store and result; the store only grows and stays
/// well formed; a returned value points only into the store.
pub open spec fn validate_post(
    t: VTree,
    slots: Seq<VTree>,
    classes: Seq<ClassDef>,
    store0: Seq<ObjM>,
    store1: Seq<ObjM>,
    input: Val,
    extra: Extra,
    guard: Seq<bool>,
    res: Result<Val, ErrM>,
) -> bool {
    &&& (store1, res) == sv(t, slots, classes, store0, input, extra, guard)
    &&& store0.len() <= store1.len()
    &&& store_wf(store1, classes.len() as int)
    &&& match res {
        Ok(v) => val_wf(v, store1.len() as int),
        Err(_) => true,
    }
}

pub proof fn lemma_find_field_found(fs: Seq<FieldM>, name: u64, j: int)
    requires
        0 <= j < fs.len(),
        fs[j].name == name,
        forall|k: int| 0 <= k < j ==> (#[trigger] fs[k]).name != name,
    ensures
        spec_find_field(fs, name) == Some(j),
    decreases j,
{
    if j > 0 {
        assert(fs[0].name != name);
        assert(fs.drop_first()[j - 1].name == name);
        assert forall|k: int| 0 <= k < j - 1 implies (#[trigger] fs.drop_first()[k]).name != name by {
            assert(fs.drop_first()[k] == fs[k + 1]);
        }
        lemma_find_field_found(fs.drop_first(), name, j - 1);
    }
}

pub proof fn lemma_find_field_absent(fs: Seq<FieldM>, name: u64)
    requires
        forall|k: int| 0 <= k < fs.len() ==> (#[trigger] fs[k]).name != name,
    ensures
        spec_find_field(fs, name) is None,
    decreases fs,
{
    if fs.len() > 0 {
        assert forall|k: int| 0 <= k < fs.drop_first().len() implies (#[trigger] fs.drop_first()[k]).name
            != name by {
            assert(fs.drop_first()[k] == fs[k + 1]);
        }
        lemma_find_field_absent(fs.drop_first(), name);
    }
}

pub open spec fn pow10(n: nat) -> int
    decreases n,
{
    if n == 0 {
        1
    } else {
        10 * pow10((n - 1) as nat)
    }
}

pub proof fn lemma_pow10_le(a: nat, b: nat)
    requires
        a <= b,
    ensures
        pow10(a) <= pow10(b),
        pow10(a) >= 1,
    decreases b,
{
    if b > 0 {
        if a == b {
            lemma_pow10_le((a - 1) as nat, (b - 1) as nat);
        } else {
            lemma_pow10_le(a, (b - 1) as nat);
        }
    }
}

/// A run of digits is a value below ten to the run's length.
pub proof fn lemma_digits_bound(s: Seq<char>)
    requires
        spec_all_digits(s),
    ensures
        0 <= spec_digits_value(s) < pow10(s.len()),
    decreases s,
{
    if s.len() > 0 {
        assert forall|i: int| 0 <= i < s.drop_last().len() implies '0' <= #[trigger] s.drop_last()[i]
            <= '9' by {
            assert(s.drop_last()[i] == s[i]);
        }
        lemma_digits_bound(s.drop_last());
        assert('0' <= s.last() <= '9');
    }
}

} // verus!
