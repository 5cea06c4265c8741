//! Executable validation over the compiled tree, proved equal to the
//! specification semantics `sv` for every input, call context and
//! store.

use vstd::prelude::*;

use crate::errors::{concat_errors, prefix_location, single_error, ErrorKind, LineError, ValError};
use crate::guard::{free_count, lemma_free_count_enter, RecursionGuard};
use crate::input::get_field;
use crate::schema::Classes;
use crate::validator::{
    fres_view, lemma_digits_bound, lemma_fields_vview, lemma_fields_wf, lemma_find_field_absent,
    lemma_find_field_found, lemma_pow10_le, pow10, res_view, slots_view, spec_all_digits,
    spec_digits_value, spec_find_field, spec_str_to_int, sv, sv_fields, sv_int, sv_str,
    validate_post, validate_pre, CombinedValidator, Extra, FieldValidator, Question, VTree,
};
use crate::values::{
    clone_chars, clone_fields_set, dict_set_clone, entries_view, lemma_dict_set_wf,
    lemma_entries_view, lemma_val_wf_grow, store_wf, val_wf, Obj, Store, Value,
};

verus! {

/// The lax string-to-integer coercion.
#[verifier::loop_isolation(false)]
pub fn parse_int(s: &Vec<char>) -> (r: Option<i64>)
    ensures
        match r {
            Some(v) => spec_str_to_int(s@) == Some(v as int),
            None => spec_str_to_int(s@) is None,
        },
{
    if s.len() == 0 || s.len() > 18 {
        return None;
    }
    let mut acc: i64 = 0;
    let mut i: usize = 0;
    proof {
        assert(s@.take(0) =~= Seq::<char>::empty());
    }
    while i < s.len()
        invariant
            i <= s@.len(),
            s@.len() <= 18,
            spec_all_digits(s@.take(i as int)),
            acc == spec_digits_value(s@.take(i as int)),
            0 <= acc < pow10(i as nat),
        decreases s@.len() - i,
    {
        let c = s[i];
        if c < '0' || c > '9' {
            proof {
                assert(!spec_all_digits(s@));
            }
            return None;
        }
        let d = (c as u32 - '0' as u32) as i64;
        proof {
            lemma_pow10_le((i + 1) as nat, 18nat);
            assert(pow10(18) == 1000000000000000000) by {
                reveal_with_fuel(pow10, 20);
            }
            assert(s@.take(i + 1).drop_last() =~= s@.take(i as int));
            assert(s@.take(i + 1).last() == s@[i as int]);
            assert(spec_all_digits(s@.take(i + 1)));
        }
        acc = acc * 10 + d;
        i = i + 1;
    }
    proof {
        assert(s@.take(s@.len() as int) =~= s@);
        lemma_digits_bound(s@);
    }
    Some(acc)
}

/// The integer leaf validator.
pub fn validate_int(input: &Value, extra: &Extra) -> (r: Result<Value, ValError>)
    ensures
        res_view(r) == sv_int(input@, *extra),
        r matches Ok(v) ==> v@ is Int,
{
    match input {
        Value::Int(i) => Ok(Value::Int(*i)),
        Value::Str(s) => {
            let strict = match extra.strict {
                Some(b) => b,
                None => false,
            };
            if strict {
                Err(single_error(ErrorKind::IntType))
            } else {
                match parse_int(s) {
                    Some(v) => Ok(Value::Int(v)),
                    None => Err(single_error(ErrorKind::IntParsing)),
                }
            }
        },
        _ => Err(single_error(ErrorKind::IntType)),
    }
}

/// The string leaf validator.
pub fn validate_str(input: &Value) -> (r: Result<Value, ValError>)
    ensures
        res_view(r) == sv_str(input@),
        r matches Ok(v) ==> v@ is Str,
{
    match input {
        Value::Str(s) => Ok(Value::Str(clone_chars(s))),
        _ => Err(single_error(ErrorKind::StrType)),
    }
}

/// The first declared field with this name, if any.
#[verifier::loop_isolation(false)]
pub fn find_field(fields: &Vec<FieldValidator>, name: u64) -> (r: Option<usize>)
    ensures
        match r {
            Some(ix) => ix < fields@.len() && spec_find_field(fields_vview_of(fields), name)
                == Some(ix as int),
            None => spec_find_field(fields_vview_of(fields), name) is None,
        },
{
    proof {
        lemma_fields_vview(fields@);
    }
    let ghost fsv = fields_vview_of(fields);
    let mut i: usize = 0;
    while i < fields.len()
        invariant
            i <= fields@.len(),
            forall|k: int| 0 <= k < i ==> (#[trigger] fsv[k]).name != name,
        decreases fields@.len() - i,
    {
        if fields[i].name == name {
            proof {
                lemma_find_field_found(fsv, name, i as int);
            }
            return Some(i);
        }
        i = i + 1;
    }
    proof {
        lemma_find_field_absent(fsv, name);
    }
    None
}

/// The fields of a validator list, at specification level.
pub open spec fn fields_vview_of(fields: &Vec<FieldValidator>) -> Seq<crate::validator::FieldM> {
    crate::validator::fields_vview(fields@)
}

impl CombinedValidator {
    /// Build-time capability introspection.
    pub fn ask(&self, question: &Question) -> (r: bool)
        ensures
            r == crate::validator::spec_ask(self@, *question),
    {
        match question {
            Question::ReturnFieldsSet => match self {
                CombinedValidator::Fields(_) => true,
                _ => false,
            },
        }
    }

    /// Apply this validator to `input` under `extra`: produce a value
    /// or an error report, exactly as the semantics `sv` says.
    pub fn validate(
        &self,
        store: &mut Store,
        classes: &Classes,
        input: &Value,
        extra: &Extra,
        slots: &Vec<CombinedValidator>,
        guard: &mut RecursionGuard,
    ) -> (r: Result<Value, ValError>)
        requires
            validate_pre(
                self@,
                slots_view(slots@),
                classes@,
                old(store)@,
                input@,
                *extra,
                old(guard)@,
            ),
        ensures
            final(guard)@ == old(guard)@,
            validate_post(
                self@,
                slots_view(slots@),
                classes@,
                old(store)@,
                final(store)@,
                input@,
                *extra,
                old(guard)@,
                res_view(r),
            ),
        decreases free_count(guard@), *self, 0int,
    {
        proof {
            crate::values::lemma_view_shape(input);
        }
        let ghost svr = sv(
            self@,
            slots_view(slots@),
            classes@,
            old(store)@,
            input@,
            *extra,
            old(guard)@,
        );
        match self {
            CombinedValidator::Int => validate_int(input, extra),
            CombinedValidator::Str => validate_str(input),
            CombinedValidator::Nullable(inner) => {
                if let Value::Null = input {
                    Ok(Value::Null)
                } else {
                    inner.validate(store, classes, input, extra, slots, guard)
                }
            },
            CombinedValidator::SlotRef(slot) => {
                let slot = *slot;
                if guard.in_progress(slot) {
                    Err(single_error(ErrorKind::RecursionLoop))
                } else {
                    proof {
                        lemma_free_count_enter(guard@, slot as int);
                        assert(slots_view(slots@)[slot as int] == slots@[slot as int]@);
                        assert(crate::validator::vt_wf(
                            slots@[slot as int]@,
                            slots_view(slots@).len() as int,
                            classes@.len() as int,
                        ));
                    }
                    guard.enter(slot);
                    let r = slots[slot].validate(store, classes, input, extra, slots, guard);
                    guard.exit(slot);
                    proof {
                        assert(guard@ =~= old(guard)@);
                    }
                    r
                }
            },
            CombinedValidator::Fields(fields) => {
                proof {
                    lemma_fields_vview(fields@);
                }
                let in_assignment = match (extra.self_instance, extra.assignee_field) {
                    (Some(_), Some(_)) => true,
                    _ => false,
                };
                if in_assignment {
                    let tgt = extra.self_instance.unwrap();
                    let f = extra.assignee_field.unwrap();
                    match find_field(fields, f) {
                        None => Err(single_error(ErrorKind::NoSuchAttribute { field: f })),
                        Some(ix) => {
                            let cleared = Extra {
                                self_instance: None,
                                assignee_field: None,
                                strict: extra.strict,
                                context: extra.context,
                            };
                            proof {
                                lemma_fields_wf(
                                    fields_vview_of(fields),
                                    slots_view(slots@).len() as int,
                                    classes@.len() as int,
                                );
                                assert(fields_vview_of(fields)[ix as int].validator == fields@[ix as int].validator@);
                                assert(crate::validator::vt_wf(
                                    fields@[ix as int].validator@,
                                    slots_view(slots@).len() as int,
                                    classes@.len() as int,
                                ));
                            }
                            let r1 = fields[ix].validator.validate(
                                store,
                                classes,
                                input,
                                &cleared,
                                slots,
                                guard,
                            );
                            match r1 {
                                Ok(v) => {
                                    let new_dict = dict_set_clone(&store.objects[tgt].dict, f, &v);
                                    let fs_clone = clone_fields_set(
                                        &store.objects[tgt].fields_set,
                                    );
                                    let cls = store.objects[tgt].class;
                                    let ghost st1 = store@;
                                    store.objects.set(
                                        tgt,
                                        Obj { class: cls, dict: new_dict, fields_set: fs_clone },
                                    );
                                    proof {
                                        lemma_dict_set_wf(
                                            st1[tgt as int].dict,
                                            f,
                                            v@,
                                            st1.len() as int,
                                        );
                                        assert(store@ =~= st1.update(
                                            tgt as int,
                                            crate::values::ObjM {
                                                dict: crate::values::spec_dict_set(
                                                    st1[tgt as int].dict,
                                                    f,
                                                    v@,
                                                ),
                                                ..st1[tgt as int]
                                            },
                                        ));
                                    }
                                    let r = Ok::<Value, ValError>(v);
                                    proof {
                                        assert((store@, res_view(r)) == svr);
                                    }
                                    r
                                },
                                Err(e) => Err(e),
                            }
                        },
                    }
                } else {
                    let readable = match input {
                        Value::Mapping(_) => true,
                        Value::Instance(_) => true,
                        _ => false,
                    };
                    if !readable {
                        Err(single_error(ErrorKind::MappingType))
                    } else {
                        proof {
                            assert(fields_vview_of(fields).skip(0) =~= fields_vview_of(fields));
                        }
                        let r = validate_fields(
                            fields,
                            0,
                            store,
                            classes,
                            input,
                            extra,
                            slots,
                            guard,
                        );
                        match r {
                            Ok(p) => {
                                let (entries, names) = p;
                                let ghost ev = entries_view(entries@);
                                let ghost nv = names@;
                                let dpart = Value::Mapping(entries);
                                let spart = Value::NameSet(names);
                                proof {
                                    assert(dpart@ == crate::values::Val::Mapping(ev));
                                    assert(spart@ == crate::values::Val::NameSet(nv));
                                }
                                let retv = Value::Pair(Box::new(dpart), Box::new(spart));
                                let ret = Ok::<Value, ValError>(retv);
                                proof {
                                    let sf = crate::validator::sv_fields(
                                        fields_vview_of(fields),
                                        slots_view(slots@),
                                        classes@,
                                        old(store)@,
                                        input@,
                                        *extra,
                                        old(guard)@,
                                    );
                                    assert(store@ == sf.0);
                                    assert(sf.1 == Ok::<
                                        (Seq<(u64, crate::values::Val)>, Seq<u64>),
                                        crate::errors::ErrM,
                                    >((ev, nv)));
                                    assert(retv@ == crate::values::Val::Pair(
                                        Box::new(crate::values::Val::Mapping(ev)),
                                        Box::new(crate::values::Val::NameSet(nv)),
                                    ));
                                    assert(svr == crate::validator::finish_fields_normal(sf.0, sf.1));
                                    assert((store@, res_view(ret)) == svr);
                                    assert(val_wf(dpart@, store@.len() as int));
                                    assert(val_wf(spart@, store@.len() as int));
                                    assert(val_wf(retv@, store@.len() as int));
                                }
                                ret
                            },
                            Err(e) => Err(e),
                        }
                    }
                }
            },
            CombinedValidator::Model(mv) => mv.validate(store, classes, input, extra, slots, guard),
        }
    }
}

/// Field-by-field validation from `idx` on, front to back, exactly as
/// `sv_fields` says on the remaining suffix: the validated attribute
/// entries and the names seen, or the aggregated sibling failures.
pub fn validate_fields(
    fields: &Vec<FieldValidator>,
    idx: usize,
    store: &mut Store,
    classes: &Classes,
    input: &Value,
    extra: &Extra,
    slots: &Vec<CombinedValidator>,
    guard: &mut RecursionGuard,
) -> (r: Result<(Vec<(u64, Value)>, Vec<u64>), ValError>)
    requires
        idx <= fields@.len(),
        crate::validator::fields_wf(
            fields_vview_of(fields),
            slots@.len() as int,
            classes@.len() as int,
        ),
        crate::validator::slots_wf(slots_view(slots@), classes@.len() as int),
        store_wf(old(store)@, classes@.len() as int),
        val_wf(input@, old(store)@.len() as int),
        crate::validator::extra_wf(*extra, old(store)@.len() as int),
        old(guard)@.len() == slots@.len(),
    ensures
        final(guard)@ == old(guard)@,
        old(store)@.len() <= final(store)@.len(),
        store_wf(final(store)@, classes@.len() as int),
        ({
            let (st, res) = sv_fields(
                fields_vview_of(fields).skip(idx as int),
                slots_view(slots@),
                classes@,
                old(store)@,
                input@,
                *extra,
                old(guard)@,
            );
            final(store)@ == st && fres_view(r) == res
        }),
        r matches Ok(p) ==> crate::values::entries_wf(
            entries_view(p.0@),
            final(store)@.len() as int,
        ),
    decreases free_count(guard@), fields@, fields@.len() - idx,
{
    proof {
        lemma_fields_vview(fields@);
        lemma_fields_wf(fields_vview_of(fields), slots@.len() as int, classes@.len() as int);
    }
    let ghost fsv = fields_vview_of(fields);
    let ghost suffix = fsv.skip(idx as int);
    if idx == fields.len() {
        proof {
            assert(suffix.len() == 0);
            assert(entries_view(Seq::<(u64, Value)>::empty()) =~= Seq::<(u64, crate::values::Val)>::empty());
        }
        let es: Vec<(u64, Value)> = Vec::new();
        let ns: Vec<u64> = Vec::new();
        proof {
            lemma_entries_view(es@);
        }
        Ok((es, ns))
    } else {
        proof {
            assert(suffix[0] == fsv[idx as int]);
            assert(suffix.drop_first() =~= fsv.skip(idx + 1));
        }
        let name = fields[idx].name;
        match get_field(&*store, input, name) {
            None => {
                let rest = validate_fields(fields, idx + 1, store, classes, input, extra, slots, guard);
                let mut loc: Vec<u64> = Vec::new();
                loc.push(name);
                let line = LineError { kind: ErrorKind::MissingField, location: loc };
                let mut missing: Vec<LineError> = Vec::new();
                missing.push(line);
                proof {
                    assert(crate::errors::line_errors_view(missing@) =~= seq![crate::errors::LineErrM {
                        kind: ErrorKind::MissingField,
                        location: seq![name],
                    }]);
                }
                match rest {
                    Ok(_) => Err(ValError::LineErrors(missing)),
                    Err(ValError::LineErrors(ls2)) => Err(
                        ValError::LineErrors(concat_errors(missing, ls2)),
                    ),
                    Err(ValError::InternalError) => Err(ValError::InternalError),
                }
            },
            Some(v) => {
                let r1 = fields[idx].validator.validate(store, classes, &v, extra, slots, guard);
                match r1 {
                    Ok(out) => {
                        let ghost midlen = store@.len() as int;
                        proof {
                            lemma_val_wf_grow(input@, old(store)@.len() as int, midlen);
                        }
                        let rest = validate_fields(
                            fields,
                            idx + 1,
                            store,
                            classes,
                            input,
                            extra,
                            slots,
                            guard,
                        );
                        match rest {
                            Ok(p) => {
                                let (mut es, mut ns) = p;
                                let ghost es0 = es@;
                                let ghost ns0 = ns@;
                                proof {
                                    lemma_entries_view(es0);
                                }
                                es.insert(0, (name, out));
                                ns.insert(0, name);
                                proof {
                                    lemma_entries_view(es@);
                                    assert(entries_view(es@) =~= seq![(name, out@)]
                                        + entries_view(es0));
                                    assert(ns@ =~= seq![name] + ns0);
                                    lemma_val_wf_grow(out@, midlen, store@.len() as int);
                                    crate::values::lemma_entries_wf(
                                        entries_view(es0),
                                        store@.len() as int,
                                    );
                                    crate::values::lemma_entries_wf(
                                        entries_view(es@),
                                        store@.len() as int,
                                    );
                                    assert forall|i: int|
                                        0 <= i < entries_view(es@).len() implies val_wf(
                                        (#[trigger] entries_view(es@)[i]).1,
                                        store@.len() as int,
                                    ) by {
                                        if i > 0 {
                                            assert(entries_view(es@)[i] == entries_view(es0)[
                                                i - 1]);
                                        }
                                    }
                                }
                                Ok((es, ns))
                            },
                            Err(e) => Err(e),
                        }
                    },
                    Err(ValError::LineErrors(ls)) => {
                        let mine = prefix_location(name, &ls);
                        proof {
                            lemma_val_wf_grow(input@, old(store)@.len() as int, store@.len() as int);
                        }
                        let rest = validate_fields(
                            fields,
                            idx + 1,
                            store,
                            classes,
                            input,
                            extra,
                            slots,
                            guard,
                        );
                        match rest {
                            Ok(_) => Err(ValError::LineErrors(mine)),
                            Err(ValError::LineErrors(ls2)) => Err(
                                ValError::LineErrors(concat_errors(mine, ls2)),
                            ),
                            Err(ValError::InternalError) => Err(ValError::InternalError),
                        }
                    },
                    Err(ValError::InternalError) => Err(ValError::InternalError),
                }
            },
        }
    }
}

} // verus!
