//! The input abstraction: uniform read access to attribute- or
//! key-based data, and instance-type queries, independent of the
//! source representation.

use vstd::prelude::*;

use crate::validator::{spec_existing_fields_set, spec_get_field, spec_is_exact};
use crate::values::{
    clone_names, lemma_lookup_wf, lookup_entry, store_dicts_wf, val_wf, Store, Value,
};

verus! {

/// Is the input's runtime class precisely `class` (not a subtype)?
pub fn is_exact_instance(store: &Store, input: &Value, class: usize) -> (r: bool)
    requires
        val_wf(input@, store@.len() as int),
    ensures
        r == spec_is_exact(store@, input@, class as int),
{
    match input {
        Value::Instance(i) => store.objects[*i].class == class,
        _ => false,
    }
}

/// Read one named field: a mapping by key, an instance through its
/// backing attribute container. The value comes out as a fresh copy.
pub fn get_field(store: &Store, input: &Value, name: u64) -> (r: Option<Value>)
    requires
        val_wf(input@, store@.len() as int),
        store_dicts_wf(store@),
    ensures
        match r {
            Some(v) => spec_get_field(store@, input@, name) == Some(v@) && val_wf(
                v@,
                store@.len() as int,
            ),
            None => spec_get_field(store@, input@, name) is None,
        },
{
    match input {
        Value::Mapping(m) => {
            let r = lookup_entry(m, name);
            proof {
                if r is Some {
                    lemma_lookup_wf(
                        crate::values::entries_view(m@),
                        name,
                        store@.len() as int,
                    );
                }
            }
            r
        },
        Value::Instance(i) => {
            let obj = &store.objects[*i];
            let r = lookup_entry(&obj.dict, name);
            proof {
                if r is Some {
                    lemma_lookup_wf(store@[*i as int].dict, name, store@.len() as int);
                }
            }
            r
        },
        _ => None,
    }
}

/// The instance's own fields-set, if the input is an instance that
/// exposes one; a fresh copy.
pub fn get_fields_set(store: &Store, input: &Value) -> (r: Option<Vec<u64>>)
    requires
        val_wf(input@, store@.len() as int),
    ensures
        match r {
            Some(fs) => spec_existing_fields_set(store@, input@) == Some(fs@),
            None => spec_existing_fields_set(store@, input@) is None,
        },
{
    match input {
        Value::Instance(i) => match &store.objects[*i].fields_set {
            Some(fs) => Some(clone_names(fs)),
            None => None,
        },
        _ => None,
    }
}

} // verus!
