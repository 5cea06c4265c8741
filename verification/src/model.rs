//! The model validator: dispatch among the four construction modes,
//! object materialization, and the host-adapter operations that
//! allocate and force-set host objects.

use vstd::prelude::*;

use crate::errors::{single_error, ErrorKind, ValError};
use crate::guard::{free_count, RecursionGuard};
use crate::input::{get_fields_set, is_exact_instance};
use crate::schema::Classes;
use crate::validator::{
    opt_names_view, res_view, slots_view, spec_as_mapping, spec_create, spec_split_pair,
    validate_post, validate_pre, CombinedValidator, Extra, ModelValidator, VTree,
};
use crate::values::{
    clone_fields_set, clone_names, entries_view, lemma_store_push_wf, lemma_store_update_wf,
    val_wf, Obj, ObjM, Store, Val, Value,
};

verus! {

/// Allocate a new, zero-initialized instance of `class` without
/// invoking its normal initializer; the new object's identity is the
/// returned index.
pub fn create_class(store: &mut Store, class: usize) -> (id: usize)
    ensures
        final(store)@ =~= old(store)@.push(
            ObjM { class: class as int, dict: Seq::empty(), fields_set: None },
        ),
        id == old(store)@.len(),
{
    let id = store.objects.len();
    store.objects.push(Obj { class, dict: Vec::new(), fields_set: None });
    proof {
        assert(entries_view(Seq::<(u64, Value)>::empty())
            =~= Seq::<(u64, crate::values::Val)>::empty());
    }
    id
}

/// One force-settable attribute slot of a host object.
#[derive(Debug)]
pub enum ModelAttr {
    /// The backing attribute container.
    Dict(Vec<(u64, Value)>),
    /// The fields-set facility.
    FieldsSet(Vec<u64>),
}

/// Force-set one attribute slot of object `id`, bypassing any
/// user-defined attribute-interception logic.
pub fn force_setattr(store: &mut Store, id: usize, attr: ModelAttr)
    requires
        id < old(store)@.len(),
    ensures
        final(store)@ =~= old(store)@.update(
            id as int,
            match attr {
                ModelAttr::Dict(d) => (ObjM {
                    dict: entries_view(d@),
                    ..old(store)@[id as int]
                }),
                ModelAttr::FieldsSet(fs) => (ObjM {
                    fields_set: Some(fs@),
                    ..old(store)@[id as int]
                }),
            },
        ),
{
    let cls = store.objects[id].class;
    match attr {
        ModelAttr::Dict(d) => {
            let fs = clone_fields_set(&store.objects[id].fields_set);
            store.objects.set(id, Obj { class: cls, dict: d, fields_set: fs });
        },
        ModelAttr::FieldsSet(fs) => {
            let d = crate::values::clone_entries(&store.objects[id].dict);
            store.objects.set(id, Obj { class: cls, dict: d, fields_set: Some(fs) });
        },
    }
}

/// Install the validated attribute container, and the fields-set when
/// given, onto object `id`.
pub fn set_model_attrs(
    store: &mut Store,
    id: usize,
    model_dict: Vec<(u64, Value)>,
    fields_set: Option<Vec<u64>>,
)
    requires
        id < old(store)@.len(),
    ensures
        final(store)@ =~= old(store)@.update(
            id as int,
            (ObjM {
                class: old(store)@[id as int].class,
                dict: entries_view(model_dict@),
                fields_set: match fields_set {
                    Some(fs) => Some(fs@),
                    None => old(store)@[id as int].fields_set,
                },
            }),
        ),
{
    force_setattr(store, id, ModelAttr::Dict(model_dict));
    match fields_set {
        Some(fs) => {
            force_setattr(store, id, ModelAttr::FieldsSet(fs));
        },
        None => {},
    }
}

/// Invoke the class's post-construction hook with the call context's
/// opaque context value; a raise becomes a validation error.
fn run_post_init(
    classes: &Classes,
    class: usize,
    post_init: Option<u64>,
    _context: u64,
) -> (r: Result<(), ValError>)
    requires
        class < classes@.len(),
    ensures
        match r {
            Ok(_) => post_init is None || !classes@[class as int].post_init_fails,
            Err(e) => post_init is Some && classes@[class as int].post_init_fails && e@
                == crate::errors::spec_single_error(ErrorKind::PostInitFailure),
        },
{
    match post_init {
        None => Ok(()),
        Some(_) => {
            if classes.defs[class].post_init_fails {
                Err(single_error(ErrorKind::PostInitFailure))
            } else {
                Ok(())
            }
        },
    }
}

/// Split a body output into its attribute container and fields-set.
fn split_pair(output: &Value) -> (r: Result<(Vec<(u64, Value)>, Vec<u64>), ValError>)
    ensures
        match r {
            Ok(p) => spec_split_pair(output@) == Some((entries_view(p.0@), p.1@)),
            Err(e) => spec_split_pair(output@) is None && e@ == crate::errors::ErrM::InternalError,
        },
{
    match output {
        Value::Pair(d, s) => {
            match mapping_of(&*d) {
                Some(dm) => {
                    match nameset_of(&*s) {
                        Some(ns) => Ok((dm, ns)),
                        None => Err(ValError::InternalError),
                    }
                },
                None => Err(ValError::InternalError),
            }
        },
        _ => Err(ValError::InternalError),
    }
}

/// The mapping inside `v`, as a fresh copy, if it is one.
fn mapping_of(v: &Value) -> (r: Option<Vec<(u64, Value)>>)
    ensures
        match r {
            Some(dm) => v@ == Val::Mapping(entries_view(dm@)),
            None => !(v@ matches Val::Mapping(_)),
        },
{
    match v {
        Value::Mapping(dm) => Some(crate::values::clone_entries(dm)),
        _ => None,
    }
}

/// The name-set inside `v`, as a fresh copy, if it is one.
fn nameset_of(v: &Value) -> (r: Option<Vec<u64>>)
    ensures
        match r {
            Some(ns) => v@ == Val::NameSet(ns@),
            None => !(v@ matches Val::NameSet(_)),
        },
{
    match v {
        Value::NameSet(ns) => Some(clone_names(ns)),
        _ => None,
    }
}

/// Use a body output directly as an attribute container.
fn as_mapping(output: &Value) -> (r: Result<Vec<(u64, Value)>, ValError>)
    ensures
        match r {
            Ok(dm) => spec_as_mapping(output@) == Some(entries_view(dm@)),
            Err(e) => spec_as_mapping(output@) is None && e@ == crate::errors::ErrM::InternalError,
        },
{
    match output {
        Value::Mapping(dm) => Ok(crate::values::clone_entries(dm)),
        _ => Err(ValError::InternalError),
    }
}

impl ModelValidator {
    /// The validator's display name: the target class's own name.
    pub fn get_name(&self) -> (r: u64)
        ensures
            r == self@.name,
    {
        self.name
    }

    /// Materialize a fresh instance: allocate, then force-set the
    /// attribute container and, when given, the fields-set.
    pub fn create_class(
        &self,
        store: &mut Store,
        model_dict: Vec<(u64, Value)>,
        fields_set: Option<Vec<u64>>,
    ) -> (id: usize)
        ensures
            ({
                let (st, inst) = spec_create(
                    old(store)@,
                    self@.class,
                    entries_view(model_dict@),
                    opt_names_view(fields_set),
                );
                final(store)@ == st && inst == crate::values::Val::Instance(id as int)
            }),
            id == old(store)@.len(),
    {
        let id = create_class(store, self.class);
        let ghost fsv = opt_names_view(fields_set);
        set_model_attrs(store, id, model_dict, fields_set);
        proof {
            assert(final(store)@ =~= old(store)@.push(
                ObjM {
                    class: self@.class,
                    dict: entries_view(model_dict@),
                    fields_set: fsv,
                },
            ));
        }
        id
    }

    /// Materialize and hook: the shared epilogue of the revalidation
    /// and coercive-build paths, from the body's successful output.
    fn build_instance(
        &self,
        store: &mut Store,
        classes: &Classes,
        out: Value,
        existing: Option<Vec<u64>>,
        context: u64,
    ) -> (r: Result<Value, ValError>)
        requires
            0 <= self@.class < classes@.len(),
            crate::values::store_wf(old(store)@, classes@.len() as int),
            val_wf(out@, old(store)@.len() as int),
        ensures
            ({
                let (st, res) = crate::validator::finish_build(
                    self@,
                    classes@,
                    old(store)@,
                    Ok(out@),
                    opt_names_view(existing),
                );
                final(store)@ == st && res_view(r) == res
            }),
            old(store)@.len() <= final(store)@.len(),
            crate::values::store_wf(final(store)@, classes@.len() as int),
            r matches Ok(v) ==> val_wf(v@, final(store)@.len() as int),
    {
        let ghost st0 = store@;
        let ghost outv = out@;
        if self.expect_fields_set {
            match split_pair(&out) {
                Ok(p) => {
                    let (dm, vfs) = p;
                    let ghost dmv = entries_view(dm@);
                    proof {
                        crate::validator::lemma_split_pair_wf(outv, st0.len() as int);
                    }
                    let fs: Vec<u64> = match existing {
                        Some(e) => e,
                        None => vfs,
                    };
                    let ghost fsv = fs@;
                    let id = self.create_class(store, dm, Some(fs));
                    proof {
                        crate::values::lemma_entries_wf_grow(dmv, st0.len() as int, st0.len() as int + 1);
                        lemma_store_push_wf(
                            st0,
                            (ObjM { class: self@.class, dict: dmv, fields_set: Some(fsv) }),
                            classes@.len() as int,
                        );
                    }
                    match run_post_init(classes, self.class, self.post_init, context) {
                        Ok(_) => Ok(Value::Instance(id)),
                        Err(e) => Err(e),
                    }
                },
                Err(e) => Err(e),
            }
        } else {
            match as_mapping(&out) {
                Ok(dm) => {
                    let ghost dmv = entries_view(dm@);
                    proof {
                        crate::validator::lemma_as_mapping_wf(outv, st0.len() as int);
                    }
                    let ghost fsv = opt_names_view(existing);
                    let id = self.create_class(store, dm, existing);
                    proof {
                        crate::values::lemma_entries_wf_grow(dmv, st0.len() as int, st0.len() as int + 1);
                        lemma_store_push_wf(
                            st0,
                            (ObjM { class: self@.class, dict: dmv, fields_set: fsv }),
                            classes@.len() as int,
                        );
                    }
                    match run_post_init(classes, self.class, self.post_init, context) {
                        Ok(_) => Ok(Value::Instance(id)),
                        Err(e) => Err(e),
                    }
                },
                Err(e) => Err(e),
            }
        }
    }

    /// Dispatch among the construction modes, per the call context and
    /// the input's runtime class, exactly as the semantics `sv` says
    /// for a model node.
    pub fn validate(
        &self,
        store: &mut Store,
        classes: &Classes,
        input: &Value,
        extra: &Extra,
        slots: &Vec<CombinedValidator>,
        guard: &mut RecursionGuard,
    ) -> (r: Result<Value, ValError>)
        requires
            validate_pre(
                VTree::Model(self@),
                slots_view(slots@),
                classes@,
                old(store)@,
                input@,
                *extra,
                old(guard)@,
            ),
        ensures
            final(guard)@ == old(guard)@,
            validate_post(
                VTree::Model(self@),
                slots_view(slots@),
                classes@,
                old(store)@,
                final(store)@,
                input@,
                *extra,
                old(guard)@,
                res_view(r),
            ),
        decreases free_count(guard@), *self, 2int,
    {
        match extra.self_instance {
            Some(si) => {
                match extra.assignee_field {
                    Some(f) => self.validate_assignment(
                        store,
                        classes,
                        si,
                        f,
                        input,
                        extra,
                        slots,
                        guard,
                    ),
                    None => self.validate_init(store, classes, si, input, extra, slots, guard),
                }
            },
            None => {
                let exact = is_exact_instance(&*store, input, self.class);
                if exact {
                    if !self.revalidate {
                        // fast path: the very same object, unchanged,
                        // and no hook
                        return Ok(crate::values::value_clone(input));
                    }
                    // revalidation: capture the instance's own
                    // fields-set before re-running the body
                    let fields_set = get_fields_set(&*store, input);
                    let output = self.validator.validate(store, classes, input, extra, slots, guard);
                    match output {
                        Ok(out) => self.build_instance(store, classes, out, fields_set, extra.context),
                        Err(e) => Err(e),
                    }
                } else {
                    let strict = match extra.strict {
                        Some(s) => s,
                        None => self.strict,
                    };
                    if strict {
                        return Err(
                            single_error(ErrorKind::ModelClassType { class_name: self.name }),
                        );
                    }
                    // coercive build from arbitrary input
                    let output = self.validator.validate(store, classes, input, extra, slots, guard);
                    match output {
                        Ok(out) => self.build_instance(store, classes, out, None, extra.context),
                        Err(e) => Err(e),
                    }
                }
            },
        }
    }

    /// In-place initialization: call the body with the self-instance
    /// cleared, then set the validated attributes directly on the
    /// pre-allocated target, and run the hook.
    pub fn validate_init(
        &self,
        store: &mut Store,
        classes: &Classes,
        self_instance: usize,
        input: &Value,
        extra: &Extra,
        slots: &Vec<CombinedValidator>,
        guard: &mut RecursionGuard,
    ) -> (r: Result<Value, ValError>)
        requires
            validate_pre(
                VTree::Model(self@),
                slots_view(slots@),
                classes@,
                old(store)@,
                input@,
                *extra,
                old(guard)@,
            ),
            extra.self_instance == Some(self_instance),
            extra.assignee_field is None,
        ensures
            final(guard)@ == old(guard)@,
            validate_post(
                VTree::Model(self@),
                slots_view(slots@),
                classes@,
                old(store)@,
                final(store)@,
                input@,
                *extra,
                old(guard)@,
                res_view(r),
            ),
        decreases free_count(guard@), *self, 1int,
    {
        // nested validators must not treat themselves as the target
        let new_extra = Extra {
            self_instance: None,
            strict: extra.strict,
            assignee_field: extra.assignee_field,
            context: extra.context,
        };
        let output = self.validator.validate(store, classes, input, &new_extra, slots, guard);
        match output {
            Ok(out) => {
                let ghost st1 = store@;
                let ghost outv = out@;
                if self.expect_fields_set {
                    match split_pair(&out) {
                        Ok(p) => {
                            let (dm, ns) = p;
                            let ghost dmv = entries_view(dm@);
                            let ghost nsv = ns@;
                            proof {
                                crate::validator::lemma_split_pair_wf(outv, st1.len() as int);
                            }
                            set_model_attrs(store, self_instance, dm, Some(ns));
                            proof {
                                lemma_store_update_wf(
                                    st1,
                                    self_instance as int,
                                    (ObjM {
                                        class: st1[self_instance as int].class,
                                        dict: dmv,
                                        fields_set: Some(nsv),
                                    }),
                                    classes@.len() as int,
                                );
                            }
                            match run_post_init(classes, self.class, self.post_init, extra.context) {
                                Ok(_) => Ok(Value::Instance(self_instance)),
                                Err(e) => Err(e),
                            }
                        },
                        Err(e) => Err(e),
                    }
                } else {
                    match as_mapping(&out) {
                        Ok(dm) => {
                            let ghost dmv = entries_view(dm@);
                            proof {
                                crate::validator::lemma_as_mapping_wf(outv, st1.len() as int);
                            }
                            set_model_attrs(store, self_instance, dm, None);
                            proof {
                                lemma_store_update_wf(
                                    st1,
                                    self_instance as int,
                                    (ObjM {
                                        class: st1[self_instance as int].class,
                                        dict: dmv,
                                        fields_set: st1[self_instance as int].fields_set,
                                    }),
                                    classes@.len() as int,
                                );
                            }
                            match run_post_init(classes, self.class, self.post_init, extra.context) {
                                Ok(_) => Ok(Value::Instance(self_instance)),
                                Err(e) => Err(e),
                            }
                        },
                        Err(e) => Err(e),
                    }
                }
            },
            Err(e) => Err(e),
        }
    }

    /// Reassignment: the body updates the target's backing store; here
    /// only the target's fields-set is brought up to date, and the
    /// validated field value is returned unchanged.
    pub fn validate_assignment(
        &self,
        store: &mut Store,
        classes: &Classes,
        self_instance: usize,
        assignee_field: u64,
        input: &Value,
        extra: &Extra,
        slots: &Vec<CombinedValidator>,
        guard: &mut RecursionGuard,
    ) -> (r: Result<Value, ValError>)
        requires
            validate_pre(
                VTree::Model(self@),
                slots_view(slots@),
                classes@,
                old(store)@,
                input@,
                *extra,
                old(guard)@,
            ),
            extra.self_instance == Some(self_instance),
            extra.assignee_field == Some(assignee_field),
        ensures
            final(guard)@ == old(guard)@,
            validate_post(
                VTree::Model(self@),
                slots_view(slots@),
                classes@,
                old(store)@,
                final(store)@,
                input@,
                *extra,
                old(guard)@,
                res_view(r),
            ),
        decreases free_count(guard@), *self, 1int,
    {
        let output = self.validator.validate(store, classes, input, extra, slots, guard);
        match output {
            Ok(out) => {
                if self.expect_fields_set {
                    // update the target's fields-set, if it has one
                    match clone_fields_set(&store.objects[self_instance].fields_set) {
                        Some(fs) => {
                            let fs2 = add_name(fs, assignee_field);
                            let cls = store.objects[self_instance].class;
                            let d = crate::values::clone_entries(
                                &store.objects[self_instance].dict,
                            );
                            let ghost st1 = store@;
                            store.objects.set(
                                self_instance,
                                Obj { class: cls, dict: d, fields_set: Some(fs2) },
                            );
                            proof {
                                let o2 = ObjM {
                                    fields_set: Some(
                                        crate::validator::spec_add_name(
                                            st1[self_instance as int].fields_set.unwrap(),
                                            assignee_field,
                                        ),
                                    ),
                                    ..st1[self_instance as int]
                                };
                                assert(store@ =~= st1.update(self_instance as int, o2));
                                lemma_store_update_wf(
                                    st1,
                                    self_instance as int,
                                    o2,
                                    classes@.len() as int,
                                );
                            }
                        },
                        None => {},
                    }
                }
                Ok(out)
            },
            Err(e) => Err(e),
        }
    }
}

/// A fields-set with one more name; adding a present name changes
/// nothing.
#[verifier::loop_isolation(false)]
fn add_name(fs: Vec<u64>, f: u64) -> (r: Vec<u64>)
    ensures
        r@ == crate::validator::spec_add_name(fs@, f),
{
    let mut i: usize = 0;
    while i < fs.len()
        invariant
            i <= fs@.len(),
            forall|k: int| 0 <= k < i ==> fs@[k] != f,
        decreases fs@.len() - i,
    {
        if fs[i] == f {
            proof {
                assert(fs@.contains(f));
            }
            return fs;
        }
        i = i + 1;
    }
    proof {
        assert(!fs@.contains(f));
    }
    let mut out = fs;
    out.push(f);
    out
}

} // verus!
