//! Declarative schemas and the class table.
//!
//! A schema is an immutable, externally-authored description of a
//! validator: a model node names a target class, carries a body
//! sub-schema, an optional local configuration, an optional strictness
//! override and an optional post-construction hook symbol. Definition
//! slots allow a schema to reference itself or an ancestor by index,
//! so the compiled tree's ownership graph stays acyclic.

use vstd::prelude::*;

use crate::config::Config;

verus! {

/// One host class the engine can target: its display-name symbol and
/// whether its post-construction hook raises when invoked.
#[derive(Clone, Copy, PartialEq, Eq, Structural, Debug)]
pub struct ClassDef {
    pub name: u64,
    pub post_init_fails: bool,
}

/// The table of host classes, addressed by class identity.
#[derive(Debug)]
pub struct Classes {
    pub defs: Vec<ClassDef>,
}

impl View for Classes {
    type V = Seq<ClassDef>;

    open spec fn view(&self) -> Seq<ClassDef> {
        self.defs@
    }
}

/// A model schema node: target class, body, local configuration,
/// strictness override and optional post-construction hook.
#[derive(Debug)]
pub struct ModelSchema {
    pub cls: usize,
    pub body: Box<Schema>,
    pub config: Option<Config>,
    pub strict: Option<bool>,
    pub post_init: Option<u64>,
}

/// One declared field of a fields node.
#[derive(Debug)]
pub struct FieldSchema {
    pub name: u64,
    pub schema: Schema,
}

/// The closed family of schema node kinds.
#[derive(Debug)]
pub enum Schema {
    Model(ModelSchema),
    Fields(Vec<FieldSchema>),
    Int,
    Str,
    Nullable(Box<Schema>),
    SlotRef(usize),
}

/// Every configuration inside the schema has unique keys.
pub open spec fn schema_wf(s: &Schema) -> bool
    decreases s,
{
    match s {
        Schema::Model(ms) => {
            &&& match ms.config {
                Some(ref c) => c.wf(),
                None => true,
            }
            &&& schema_wf(&*ms.body)
        },
        Schema::Fields(fs) => field_schemas_wf(fs@),
        Schema::Nullable(b) => schema_wf(&*b),
        _ => true,
    }
}

pub open spec fn field_schemas_wf(fs: Seq<FieldSchema>) -> bool
    decreases fs,
{
    if fs.len() == 0 {
        true
    } else {
        schema_wf(&fs.last().schema) && field_schemas_wf(fs.drop_last())
    }
}

pub proof fn lemma_field_schemas_wf(fs: Seq<FieldSchema>)
    ensures
        field_schemas_wf(fs) <==> (forall|i: int|
            0 <= i < fs.len() ==> schema_wf(&fs[i].schema)),
    decreases fs,
{
    if fs.len() > 0 {
        lemma_field_schemas_wf(fs.drop_last());
        assert(forall|i: int| 0 <= i < fs.len() - 1 ==> fs.drop_last()[i] == fs[i]);
        assert(fs.last() == fs[fs.len() - 1]);
    }
}

} // verus!
