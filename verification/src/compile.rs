//! Compiling schemas into validator trees: the schema compiler maps
//! each node kind to a builder that consumes the schema, the resolved
//! configuration and the class table, and produces one tree node.
//! Model nodes compose their configuration first — a model schema's
//! own configuration always participates — and cache the body's
//! fields-set capability.

use vstd::prelude::*;

use crate::config::{
    build_config, opt_view, spec_compose, Config, ConfigValue, CONFIG_REVALIDATE_MODELS,
};
use crate::errors::BuildError;
use crate::schema::{Classes, FieldSchema, ModelSchema, Schema};
use crate::validator::{
    fields_vview, lemma_fields_vview, lemma_fields_wf, spec_ask, vt_wf, CombinedValidator, FieldM,
    FieldValidator, ModelValM, ModelValidator, Question, VTree,
};

verus! {

/// Whether a composed configuration enables revalidation of
/// already-typed instances; anything but an explicit true reads as
/// disabled.
pub open spec fn spec_revalidate_flag(cfg: Option<Map<u64, ConfigValue>>) -> bool {
    match cfg {
        Some(m) => m.contains_key(CONFIG_REVALIDATE_MODELS) && m[CONFIG_REVALIDATE_MODELS]
            == ConfigValue::Bool(true),
        None => false,
    }
}

/// What compiling a schema yields: the tree node, or the first build
/// error, in evaluation order — a model's configuration is composed
/// before its class is resolved, and its class before its body.
pub open spec fn spec_build(
    s: &Schema,
    config: Option<Map<u64, ConfigValue>>,
    classes: Seq<crate::schema::ClassDef>,
    nslots: int,
) -> Result<VTree, BuildError>
    decreases s, 0int,
{
    match s {
        Schema::Int => Ok(VTree::Int),
        Schema::Str => Ok(VTree::Str),
        Schema::Nullable(b) => match spec_build(&*b, config, classes, nslots) {
            Ok(t) => Ok(VTree::Nullable(Box::new(t))),
            Err(e) => Err(e),
        },
        Schema::SlotRef(i) => {
            if 0 <= *i < nslots {
                Ok(VTree::SlotRef(*i as int))
            } else {
                Err(BuildError::UnknownSlot { slot: *i })
            }
        },
        Schema::Fields(fs) => match spec_build_fields(fs@, 0, config, classes, nslots) {
            Ok(fm) => Ok(VTree::Fields(fm)),
            Err(e) => Err(e),
        },
        Schema::Model(ms) => spec_build_model(ms, config, classes, nslots),
    }
}

pub open spec fn spec_build_fields(
    fs: Seq<FieldSchema>,
    idx: int,
    config: Option<Map<u64, ConfigValue>>,
    classes: Seq<crate::schema::ClassDef>,
    nslots: int,
) -> Result<Seq<FieldM>, BuildError>
    decreases fs, fs.len() - idx,
{
    if idx < 0 || idx >= fs.len() {
        Ok(Seq::empty())
    } else {
        match spec_build(&fs[idx].schema, config, classes, nslots) {
            Ok(t) => match spec_build_fields(fs, idx + 1, config, classes, nslots) {
                Ok(rest) => Ok(seq![FieldM { name: fs[idx].name, validator: t }] + rest),
                Err(e) => Err(e),
            },
            Err(e) => Err(e),
        }
    }
}

pub open spec fn spec_build_model(
    ms: &ModelSchema,
    config: Option<Map<u64, ConfigValue>>,
    classes: Seq<crate::schema::ClassDef>,
    nslots: int,
) -> Result<VTree, BuildError>
    decreases ms, 0int,
{
    let child = match ms.config {
        Some(ref c) => Some(c@),
        None => None,
    };
    match spec_compose(config, child) {
        Err(e) => Err(e),
        Ok(cfg) => {
            if 0 <= ms.cls < classes.len() {
                match spec_build(&*ms.body, cfg, classes, nslots) {
                    Ok(body) => Ok(VTree::Model(ModelValM {
                        strict: match ms.strict {
                            Some(b) => b,
                            None => false,
                        },
                        revalidate: spec_revalidate_flag(cfg),
                        validator: Box::new(body),
                        class: ms.cls as int,
                        post_init: ms.post_init,
                        name: classes[ms.cls as int].name,
                        expect_fields_set: spec_ask(body, Question::ReturnFieldsSet),
                    })),
                    Err(e) => Err(e),
                }
            } else {
                Err(BuildError::UnknownClass { class: ms.cls })
            }
        },
    }
}

/// Compile one schema node under an inherited configuration.
pub fn build_validator(
    s: &Schema,
    config: Option<&Config>,
    classes: &Classes,
    nslots: usize,
) -> (r: Result<CombinedValidator, BuildError>)
    requires
        crate::schema::schema_wf(s),
        config is Some ==> config.unwrap().wf(),
    ensures
        match r {
            Ok(v) => spec_build(s, opt_view(config), classes@, nslots as int) == Ok::<
                VTree,
                BuildError,
            >(v@) && vt_wf(v@, nslots as int, classes@.len() as int),
            Err(e) => spec_build(s, opt_view(config), classes@, nslots as int) == Err::<
                VTree,
                BuildError,
            >(e),
        },
    decreases *s, 0int,
{
    match s {
        Schema::Int => Ok(CombinedValidator::Int),
        Schema::Str => Ok(CombinedValidator::Str),
        Schema::Nullable(b) => {
            match build_validator(&*b, config, classes, nslots) {
                Ok(t) => Ok(CombinedValidator::Nullable(Box::new(t))),
                Err(e) => Err(e),
            }
        },
        Schema::SlotRef(i) => {
            if *i < nslots {
                Ok(CombinedValidator::SlotRef(*i))
            } else {
                Err(BuildError::UnknownSlot { slot: *i })
            }
        },
        Schema::Fields(fs) => {
            proof {
                crate::schema::lemma_field_schemas_wf(fs@);
            }
            match build_fields(fs, 0, config, classes, nslots) {
                Ok(built) => {
                    let r = Ok::<CombinedValidator, BuildError>(CombinedValidator::Fields(built));
                    r
                },
                Err(e) => Err(e),
            }
        },
        Schema::Model(ms) => {
            match ModelValidator::build(ms, config, classes, nslots) {
                Ok(mv) => Ok(CombinedValidator::Model(mv)),
                Err(e) => Err(e),
            }
        },
    }
}

/// Compile the declared fields from `idx` on.
fn build_fields(
    fs: &Vec<FieldSchema>,
    idx: usize,
    config: Option<&Config>,
    classes: &Classes,
    nslots: usize,
) -> (r: Result<Vec<FieldValidator>, BuildError>)
    requires
        idx <= fs@.len(),
        forall|i: int| 0 <= i < fs@.len() ==> crate::schema::schema_wf(&fs@[i].schema),
        config is Some ==> config.unwrap().wf(),
    ensures
        match r {
            Ok(built) => spec_build_fields(fs@, idx as int, opt_view(config), classes@, nslots as int)
                == Ok::<Seq<FieldM>, BuildError>(fields_vview(built@)) && crate::validator::fields_wf(
                fields_vview(built@),
                nslots as int,
                classes@.len() as int,
            ),
            Err(e) => spec_build_fields(fs@, idx as int, opt_view(config), classes@, nslots as int)
                == Err::<Seq<FieldM>, BuildError>(e),
        },
    decreases fs@, fs@.len() - idx,
{
    if idx == fs.len() {
        let built: Vec<FieldValidator> = Vec::new();
        proof {
            lemma_fields_vview(built@);
            assert(fields_vview(built@) =~= Seq::<FieldM>::empty());
        }
        Ok(built)
    } else {
        match build_validator(&fs[idx].schema, config, classes, nslots) {
            Ok(t) => {
                match build_fields(fs, idx + 1, config, classes, nslots) {
                    Ok(rest) => {
                        let mut built = rest;
                        let ghost rest0 = built@;
                        built.insert(0, FieldValidator { name: fs[idx].name, validator: t });
                        proof {
                            lemma_fields_vview(built@);
                            lemma_fields_vview(rest0);
                            assert(fields_vview(built@) =~= seq![FieldM {
                                name: fs@[idx as int].name,
                                validator: t@,
                            }] + fields_vview(rest0));
                            lemma_fields_wf(
                                fields_vview(built@),
                                nslots as int,
                                classes@.len() as int,
                            );
                            lemma_fields_wf(
                                fields_vview(rest0),
                                nslots as int,
                                classes@.len() as int,
                            );
                            assert forall|i: int|
                                0 <= i < fields_vview(built@).len() implies vt_wf(
                                (#[trigger] fields_vview(built@)[i]).validator,
                                nslots as int,
                                classes@.len() as int,
                            ) by {
                                if i > 0 {
                                    assert(fields_vview(built@)[i] == fields_vview(rest0)[i - 1]);
                                }
                            }
                        }
                        Ok(built)
                    },
                    Err(e) => Err(e),
                }
            },
            Err(e) => Err(e),
        }
    }
}

impl ModelValidator {
    /// Build a model validator: compose the configuration — the model
    /// schema's own `config` always participates — compile the body
    /// with it, ask the body for the fields-set capability, and read
    /// the local flags. Strictness comes from the schema alone, never
    /// from the configuration; revalidation from the configuration
    /// alone.
    pub fn build(
        ms: &ModelSchema,
        config: Option<&Config>,
        classes: &Classes,
        nslots: usize,
    ) -> (r: Result<ModelValidator, BuildError>)
        requires
            match ms.config {
                Some(ref c) => c.wf(),
                None => true,
            },
            crate::schema::schema_wf(&*ms.body),
            config is Some ==> config.unwrap().wf(),
        ensures
            match r {
                Ok(mv) => spec_build_model(ms, opt_view(config), classes@, nslots as int) == Ok::<
                    VTree,
                    BuildError,
                >(VTree::Model(mv@)) && vt_wf(
                    VTree::Model(mv@),
                    nslots as int,
                    classes@.len() as int,
                ),
                Err(e) => spec_build_model(ms, opt_view(config), classes@, nslots as int) == Err::<
                    VTree,
                    BuildError,
                >(e),
            },
        decreases *ms, 0int,
    {
        // models ignore the inherited configuration only when the
        // merge below says so: this schema's own config always
        // participates
        let child: Option<&Config> = match &ms.config {
            Some(c) => Some(c),
            None => None,
        };
        let cfg = match build_config(config, child) {
            Ok(c) => c,
            Err(e) => {
                return Err(e);
            },
        };
        if ms.cls >= classes.defs.len() {
            return Err(BuildError::UnknownClass { class: ms.cls });
        }
        let cfg_ref: Option<&Config> = match &cfg {
            Some(c) => Some(c),
            None => None,
        };
        let body = match build_validator(&*ms.body, cfg_ref, classes, nslots) {
            Ok(b) => b,
            Err(e) => {
                return Err(e);
            },
        };
        let expect_fields_set = body.ask(&Question::ReturnFieldsSet);
        let revalidate = match &cfg {
            Some(c) => match c.get(CONFIG_REVALIDATE_MODELS) {
                Some(ConfigValue::Bool(b)) => b,
                _ => false,
            },
            None => false,
        };
        let strict = match ms.strict {
            Some(b) => b,
            None => false,
        };
        Ok(ModelValidator {
            strict,
            revalidate,
            validator: Box::new(body),
            class: ms.cls,
            post_init: ms.post_init,
            name: classes.defs[ms.cls].name,
            expect_fields_set,
        })
    }
}

} // verus!
