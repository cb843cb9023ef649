//! The builder synthesizer: from a record schema to a `BuilderPlan`.
//!
//! Fields are processed once, in declaration order. Per field, the skip
//! directive is honoured first; otherwise the field's shape decides which
//! storage member, accessor methods and constructor entry are emitted. The
//! whole pass is deterministic, so the emitted plan is reproducible.

use vstd::prelude::*;

use crate::directives::{
    default_of, override_or, resolve, skip_of, Annotation, AnnotationV, SkipSpecV,
};
use crate::plan::{
    plan_wf, init_slot, BuilderPlan, BuilderPlanV, FieldInit, FieldInitV, InitKind, InitKindV,
    MethodSig, MethodSigV, MethodSpec, MethodSpecV, StorageField, StorageFieldV, StorageTy,
    StorageTyV,
};
use crate::schema::{is_vec, option_inner_type, shape_spec, ShapeV, TypeExpr, TypeExprV};
use crate::views::{lemma_dv_push, lemma_vec_dv};

verus! {

/// Mathematical view of a `FieldSchema`.
pub ghost struct FieldSchemaV {
    pub name: Seq<char>,
    pub ty: TypeExprV,
    pub attrs: Seq<AnnotationV>,
}

/// One field of the record schema: its name, declared type and annotations.
pub struct FieldSchema {
    pub name: String,
    pub ty: TypeExpr,
    pub attrs: Vec<Annotation>,
}

impl DeepView for FieldSchema {
    type V = FieldSchemaV;

    open spec fn deep_view(&self) -> FieldSchemaV {
        FieldSchemaV { name: self.name@, ty: self.ty@, attrs: self.attrs.deep_view() }
    }
}

/// The data carried by the record declaration handed to the generator.
pub enum RecordData {
    /// A struct with named fields: the only supported input.
    NamedStruct(Vec<FieldSchema>),
    /// A struct with unnamed (tuple) fields.
    UnnamedStruct,
    /// A struct with no fields at all.
    UnitStruct,
    /// An enum declaration.
    EnumItem,
    /// A union declaration.
    UnionItem,
}

/// The record schema handed to the generator: its name and its declaration
/// data.
pub struct RecordSchema {
    pub name: String,
    pub data: RecordData,
}

/// A generation-time failure: the input is not a struct-like type with
/// named fields. No partial generation is meaningful on such input.
#[derive(PartialEq, Eq, Structural, Clone, Copy, Debug)]
pub enum GenError {
    /// The declaration is not a struct at all.
    NotAStruct,
    /// The declaration is a struct without named fields.
    FieldsNotNamed,
}

impl GenError {
    /// The diagnostic for this failure, identifying the construct kind.
    pub fn message(&self) -> (r: String)
        ensures
            *self == GenError::NotAStruct ==> r@ == "AutoBuilder only supports structs"@,
            *self == GenError::FieldsNotNamed ==> r@ == "AutoBuilder only supports named fields"@,
    {
        match self {
            GenError::NotAStruct => "AutoBuilder only supports structs".to_owned(),
            GenError::FieldsNotNamed => "AutoBuilder only supports named fields".to_owned(),
        }
    }
}

/// What one field contributes to the plan, given the slot it would occupy.
pub ghost struct ContribV {
    pub storage: Option<StorageFieldV>,
    pub methods: Seq<MethodSpecV>,
    pub init: Option<FieldInitV>,
    pub skip_bare: bool,
}

/// The per-field policy, in precedence order: skip with a value, skip
/// without a value, then the shape of the declared type.
pub open spec fn field_contrib(f: FieldSchemaV, slot: int) -> ContribV {
    match skip_of(f.attrs) {
        SkipSpecV::WithValue(e) => ContribV {
            storage: None,
            methods: Seq::empty(),
            init: Some(FieldInitV { name: f.name, kind: InitKindV::Verbatim(e) }),
            skip_bare: false,
        },
        SkipSpecV::Bare => ContribV {
            storage: None,
            methods: Seq::empty(),
            init: None,
            skip_bare: true,
        },
        SkipSpecV::Absent => match shape_spec(f.ty) {
            ShapeV::Sequence(elem) => ContribV {
                storage: Some(
                    StorageFieldV { name: f.name, ty: StorageTyV::OptionVecOf(elem) },
                ),
                methods: seq![
                    MethodSpecV {
                        name: override_or(f.attrs, "setter_push"@, "add_item"@),
                        slot,
                        sig: MethodSigV::PushOne(elem),
                    },
                    MethodSpecV {
                        name: override_or(f.attrs, "setter_push_many"@, "add_items"@),
                        slot,
                        sig: MethodSigV::PushMany(elem),
                    },
                    MethodSpecV {
                        name: override_or(f.attrs, "setter_set"@, "items"@),
                        slot,
                        sig: MethodSigV::ReplaceAll(elem),
                    },
                ],
                init: Some(FieldInitV { name: f.name, kind: InitKindV::StoredOrEmpty(slot) }),
                skip_bare: false,
            },
            ShapeV::Optional(inner) => ContribV {
                storage: Some(StorageFieldV { name: f.name, ty: StorageTyV::OptionOf(f.ty.full) }),
                methods: seq![
                    MethodSpecV {
                        name: override_or(f.attrs, "setter"@, f.name),
                        slot,
                        sig: MethodSigV::SetOptional(inner),
                    },
                ],
                init: Some(FieldInitV { name: f.name, kind: InitKindV::StoredOrAbsent(slot) }),
                skip_bare: false,
            },
            ShapeV::Scalar(t) => ContribV {
                storage: Some(StorageFieldV { name: f.name, ty: StorageTyV::OptionOf(t.full) }),
                methods: seq![
                    MethodSpecV {
                        name: override_or(f.attrs, "setter"@, f.name),
                        slot,
                        sig: MethodSigV::SetScalar(t.full),
                    },
                ],
                init: Some(
                    FieldInitV {
                        name: f.name,
                        kind: match default_of(f.attrs) {
                            Some(e) => InitKindV::StoredOrDefault(slot, e),
                            None => InitKindV::Required(slot),
                        },
                    },
                ),
                skip_bare: false,
            },
        },
    }
}

/// The accumulated parts of a plan.
pub ghost struct PartsV {
    pub storage: Seq<StorageFieldV>,
    pub methods: Seq<MethodSpecV>,
    pub inits: Seq<FieldInitV>,
    pub needs_default: bool,
}

/// Fold the per-field contributions over the fields, in declaration order.
pub open spec fn synth_fields(fields: Seq<FieldSchemaV>) -> PartsV
    decreases fields.len(),
{
    if fields.len() == 0 {
        PartsV {
            storage: Seq::empty(),
            methods: Seq::empty(),
            inits: Seq::empty(),
            needs_default: false,
        }
    } else {
        let p = synth_fields(fields.drop_last());
        let c = field_contrib(fields.last(), p.storage.len() as int);
        PartsV {
            storage: match c.storage {
                Some(s) => p.storage.push(s),
                None => p.storage,
            },
            methods: p.methods + c.methods,
            inits: match c.init {
                Some(it) => p.inits.push(it),
                None => p.inits,
            },
            needs_default: p.needs_default || c.skip_bare,
        }
    }
}

/// The plan of a whole record: the folded parts, under the builder's name.
pub open spec fn synth_spec(record_name: Seq<char>, fields: Seq<FieldSchemaV>) -> BuilderPlanV {
    let p = synth_fields(fields);
    BuilderPlanV {
        record_name,
        builder_name: record_name + "Builder"@,
        storage: p.storage,
        methods: p.methods,
        inits: p.inits,
        requires_default_impl: p.needs_default,
    }
}

/// Every slot index a synthesized plan mentions lies below its storage
/// count.
pub proof fn lemma_synth_wf(fields: Seq<FieldSchemaV>)
    ensures
        ({
            let p = synth_fields(fields);
            &&& forall|j: int|
                0 <= j < p.methods.len() ==> 0 <= #[trigger] p.methods[j].slot < p.storage.len()
            &&& forall|j: int|
                0 <= j < p.inits.len() ==> (init_slot(#[trigger] p.inits[j].kind) matches Some(s)
                    ==> 0 <= s < p.storage.len())
        }),
    decreases fields.len(),
{
    if fields.len() > 0 {
        lemma_synth_wf(fields.drop_last());
    }
}

/// Assemble the builder plan of a record, consulting the shape of each
/// field and its resolved directives once, in declaration order.
pub fn synthesize(record_name: &String, fields: &Vec<FieldSchema>) -> (r: BuilderPlan)
    ensures
        r.deep_view() == synth_spec(record_name@, fields.deep_view()),
        plan_wf(r.deep_view()),
{
    broadcast use lemma_vec_dv, lemma_dv_push;

    let mut builder_name = record_name.clone();
    builder_name.append("Builder");
    let mut storage: Vec<StorageField> = Vec::new();
    let mut methods: Vec<MethodSpec> = Vec::new();
    let mut inits: Vec<FieldInit> = Vec::new();
    let mut needs_default: bool = false;
    let mut i: usize = 0;
    while i < fields.len()
        invariant
            i <= fields.len(),
            storage.deep_view() == synth_fields(fields.deep_view().take(i as int)).storage,
            methods.deep_view() == synth_fields(fields.deep_view().take(i as int)).methods,
            inits.deep_view() == synth_fields(fields.deep_view().take(i as int)).inits,
            needs_default == synth_fields(fields.deep_view().take(i as int)).needs_default,
        decreases fields.len() - i,
    {
        let f = &fields[i];
        let ghost fvs = fields.deep_view();
        let ghost p = synth_fields(fvs.take(i as int));
        let ghost c = field_contrib(fvs[i as int], p.storage.len() as int);
        let ds = resolve(&f.attrs);
        let slot = storage.len();
        match ds.skip {
            Some(Some(e)) => {
                let it = FieldInit { name: f.name.clone(), kind: InitKind::Verbatim(e) };
                let ghost itg = it;
                let ghost pre = inits@;
                inits.push(it);
                proof {
                    lemma_dv_push(pre, itg);
                }
            },
            Some(None) => {
                needs_default = true;
            },
            None => {
                if let Some(elem) = is_vec(&f.ty) {
                    let push_name = match ds.setter_push {
                        Some(s) => s,
                        None => "add_item".to_owned(),
                    };
                    let push_many_name = match ds.setter_push_many {
                        Some(s) => s,
                        None => "add_items".to_owned(),
                    };
                    let set_name = match ds.setter_set {
                        Some(s) => s,
                        None => "items".to_owned(),
                    };
                    let sf = StorageField {
                        name: f.name.clone(),
                        ty: StorageTy::OptionVecOf(elem.clone()),
                    };
                    let m1 = MethodSpec {
                        name: push_name,
                        slot,
                        sig: MethodSig::PushOne(elem.clone()),
                    };
                    let m2 = MethodSpec {
                        name: push_many_name,
                        slot,
                        sig: MethodSig::PushMany(elem.clone()),
                    };
                    let m3 = MethodSpec { name: set_name, slot, sig: MethodSig::ReplaceAll(elem) };
                    let it = FieldInit {
                        name: f.name.clone(),
                        kind: InitKind::StoredOrEmpty(slot),
                    };
                    let ghost (sfg, m1g, m2g, m3g, itg) = (sf, m1, m2, m3, it);
                    let ghost (pre_st, pre_ms, pre_in) = (storage@, methods@, inits@);
                    storage.push(sf);
                    methods.push(m1);
                    methods.push(m2);
                    methods.push(m3);
                    inits.push(it);
                    proof {
                        lemma_dv_push(pre_st, sfg);
                        lemma_dv_push(pre_ms, m1g);
                        lemma_dv_push(pre_ms.push(m1g), m2g);
                        lemma_dv_push(pre_ms.push(m1g).push(m2g), m3g);
                        lemma_dv_push(pre_in, itg);
                        assert(methods.deep_view() =~= p.methods + c.methods);
                    }
                } else if let Some(inner) = option_inner_type(&f.ty) {
                    let setter_name = match ds.setter {
                        Some(s) => s,
                        None => f.name.clone(),
                    };
                    let sf = StorageField {
                        name: f.name.clone(),
                        ty: StorageTy::OptionOf(f.ty.full.clone()),
                    };
                    let m1 = MethodSpec {
                        name: setter_name,
                        slot,
                        sig: MethodSig::SetOptional(inner),
                    };
                    let it = FieldInit {
                        name: f.name.clone(),
                        kind: InitKind::StoredOrAbsent(slot),
                    };
                    let ghost (sfg, m1g, itg) = (sf, m1, it);
                    let ghost (pre_st, pre_ms, pre_in) = (storage@, methods@, inits@);
                    storage.push(sf);
                    methods.push(m1);
                    inits.push(it);
                    proof {
                        lemma_dv_push(pre_st, sfg);
                        lemma_dv_push(pre_ms, m1g);
                        lemma_dv_push(pre_in, itg);
                        assert(methods.deep_view() =~= p.methods + c.methods);
                    }
                } else {
                    let setter_name = match ds.setter {
                        Some(s) => s,
                        None => f.name.clone(),
                    };
                    let sf = StorageField {
                        name: f.name.clone(),
                        ty: StorageTy::OptionOf(f.ty.full.clone()),
                    };
                    let m1 = MethodSpec {
                        name: setter_name,
                        slot,
                        sig: MethodSig::SetScalar(f.ty.full.clone()),
                    };
                    let it = FieldInit {
                        name: f.name.clone(),
                        kind: match ds.default_expr {
                            Some(e) => InitKind::StoredOrDefault(slot, e),
                            None => InitKind::Required(slot),
                        },
                    };
                    let ghost (sfg, m1g, itg) = (sf, m1, it);
                    let ghost (pre_st, pre_ms, pre_in) = (storage@, methods@, inits@);
                    storage.push(sf);
                    methods.push(m1);
                    inits.push(it);
                    proof {
                        lemma_dv_push(pre_st, sfg);
                        lemma_dv_push(pre_ms, m1g);
                        lemma_dv_push(pre_in, itg);
                        assert(methods.deep_view() =~= p.methods + c.methods);
                    }
                }
            },
        }
        proof {
            assert(fvs.take(i + 1).drop_last() =~= fvs.take(i as int));
            assert(fvs.take(i + 1).last() == fvs[i as int]);
        }
        i = i + 1;
    }
    proof {
        assert(fields.deep_view().take(fields@.len() as int) =~= fields.deep_view());
        lemma_synth_wf(fields.deep_view());
    }
    BuilderPlan {
        record_name: record_name.clone(),
        builder_name,
        storage_members: storage,
        methods,
        build_expr: inits,
        requires_default_impl: needs_default,
    }
}

/// Generate the builder plan of a record declaration, or reject it: only a
/// struct with named fields can carry a builder.
pub fn expand_autobuilder(input: &RecordSchema) -> (r: Result<BuilderPlan, GenError>)
    ensures
        (input.data matches RecordData::NamedStruct(fs) ==> r matches Ok(p) && p.deep_view()
            == synth_spec(input.name@, fs.deep_view()) && plan_wf(p.deep_view())),
        (input.data matches RecordData::UnnamedStruct ==> r == Err::<BuilderPlan, GenError>(
            GenError::FieldsNotNamed,
        )),
        (input.data matches RecordData::UnitStruct ==> r == Err::<BuilderPlan, GenError>(
            GenError::FieldsNotNamed,
        )),
        (input.data matches RecordData::EnumItem ==> r == Err::<BuilderPlan, GenError>(
            GenError::NotAStruct,
        )),
        (input.data matches RecordData::UnionItem ==> r == Err::<BuilderPlan, GenError>(
            GenError::NotAStruct,
        )),
{
    match &input.data {
        RecordData::NamedStruct(fields) => Ok(synthesize(&input.name, fields)),
        RecordData::UnnamedStruct => Err(GenError::FieldsNotNamed),
        RecordData::UnitStruct => Err(GenError::FieldsNotNamed),
        RecordData::EnumItem => Err(GenError::NotAStruct),
        RecordData::UnionItem => Err(GenError::NotAStruct),
    }
}

} // verus!
