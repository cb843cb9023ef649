//! The synthesis output: a structural description of the generated builder.
//!
//! A `BuilderPlan` lists the builder's storage members, its accessor
//! methods, and the constructor expression of its build operation, plus
//! whether the record type must support default construction. An external
//! renderer turns the plan into concrete syntax; nothing here is textual
//! beyond identifiers and opaque type and expression fragments.

use vstd::prelude::*;

verus! {

/// Mathematical view of a `StorageTy`.
pub ghost enum StorageTyV {
    OptionVecOf(Seq<char>),
    OptionOf(Seq<char>),
}

/// The type of one builder storage member: an optional sequence of an
/// element type (for sequence fields, absent until first write), or an
/// optional of a declared type (for every other stored field).
#[derive(Debug, PartialEq, Eq)]
pub enum StorageTy {
    OptionVecOf(String),
    OptionOf(String),
}

impl DeepView for StorageTy {
    type V = StorageTyV;

    open spec fn deep_view(&self) -> StorageTyV {
        match self {
            StorageTy::OptionVecOf(s) => StorageTyV::OptionVecOf(s@),
            StorageTy::OptionOf(s) => StorageTyV::OptionOf(s@),
        }
    }
}

/// Mathematical view of a `StorageField`.
pub ghost struct StorageFieldV {
    pub name: Seq<char>,
    pub ty: StorageTyV,
}

/// One storage member of the builder, named after its source field.
#[derive(Debug, PartialEq, Eq)]
pub struct StorageField {
    pub name: String,
    pub ty: StorageTy,
}

impl DeepView for StorageField {
    type V = StorageFieldV;

    open spec fn deep_view(&self) -> StorageFieldV {
        StorageFieldV { name: self.name@, ty: self.ty.deep_view() }
    }
}

/// Mathematical view of a `MethodSig`.
pub ghost enum MethodSigV {
    PushOne(Seq<char>),
    PushMany(Seq<char>),
    ReplaceAll(Seq<char>),
    SetOptional(Seq<char>),
    SetScalar(Seq<char>),
}

/// The behaviour and parameter type of one accessor method. Every accessor
/// mutates the builder in place and returns it for chaining; none can fail.
#[derive(Debug, PartialEq, Eq)]
pub enum MethodSig {
    /// Append one element (the parameter type) to the stored sequence,
    /// starting from empty when the storage is still absent.
    PushOne(String),
    /// Append a batch of elements, with the same lazy-init rule.
    PushMany(String),
    /// Unconditionally replace the stored sequence.
    ReplaceAll(String),
    /// Store a bare inner-type value wrapped as present.
    SetOptional(String),
    /// Store a raw value of the declared type.
    SetScalar(String),
}

impl DeepView for MethodSig {
    type V = MethodSigV;

    open spec fn deep_view(&self) -> MethodSigV {
        match self {
            MethodSig::PushOne(s) => MethodSigV::PushOne(s@),
            MethodSig::PushMany(s) => MethodSigV::PushMany(s@),
            MethodSig::ReplaceAll(s) => MethodSigV::ReplaceAll(s@),
            MethodSig::SetOptional(s) => MethodSigV::SetOptional(s@),
            MethodSig::SetScalar(s) => MethodSigV::SetScalar(s@),
        }
    }
}

/// Mathematical view of a `MethodSpec`.
pub ghost struct MethodSpecV {
    pub name: Seq<char>,
    pub slot: int,
    pub sig: MethodSigV,
}

/// One accessor method of the builder: its name, the storage slot it
/// writes, and its behaviour.
#[derive(Debug, PartialEq, Eq)]
pub struct MethodSpec {
    pub name: String,
    pub slot: usize,
    pub sig: MethodSig,
}

impl DeepView for MethodSpec {
    type V = MethodSpecV;

    open spec fn deep_view(&self) -> MethodSpecV {
        MethodSpecV { name: self.name@, slot: self.slot as int, sig: self.sig.deep_view() }
    }
}

/// Mathematical view of an `InitKind`.
pub ghost enum InitKindV {
    Verbatim(Seq<char>),
    StoredOrEmpty(int),
    StoredOrAbsent(int),
    StoredOrDefault(int, Seq<char>),
    Required(int),
}

/// How one constructor entry obtains its value at build time.
#[derive(Debug, PartialEq, Eq)]
pub enum InitKind {
    /// A skip-with-value field: the expression is spliced verbatim.
    Verbatim(String),
    /// A sequence field: the stored sequence, or empty if never set.
    StoredOrEmpty(usize),
    /// An optional field: the stored value, or absent if never set.
    StoredOrAbsent(usize),
    /// A defaulted scalar field: the stored value, or the expression,
    /// evaluated lazily only when needed.
    StoredOrDefault(usize, String),
    /// A required scalar field: the stored value, or a build failure naming
    /// the field.
    Required(usize),
}

impl DeepView for InitKind {
    type V = InitKindV;

    open spec fn deep_view(&self) -> InitKindV {
        match self {
            InitKind::Verbatim(e) => InitKindV::Verbatim(e@),
            InitKind::StoredOrEmpty(k) => InitKindV::StoredOrEmpty(*k as int),
            InitKind::StoredOrAbsent(k) => InitKindV::StoredOrAbsent(*k as int),
            InitKind::StoredOrDefault(k, e) => InitKindV::StoredOrDefault(*k as int, e@),
            InitKind::Required(k) => InitKindV::Required(*k as int),
        }
    }
}

/// Mathematical view of a `FieldInit`.
pub ghost struct FieldInitV {
    pub name: Seq<char>,
    pub kind: InitKindV,
}

/// One entry of the constructor expression, in field-declaration order.
#[derive(Debug, PartialEq, Eq)]
pub struct FieldInit {
    pub name: String,
    pub kind: InitKind,
}

impl DeepView for FieldInit {
    type V = FieldInitV;

    open spec fn deep_view(&self) -> FieldInitV {
        FieldInitV { name: self.name@, kind: self.kind.deep_view() }
    }
}

/// Mathematical view of a `BuilderPlan`.
pub ghost struct BuilderPlanV {
    pub record_name: Seq<char>,
    pub builder_name: Seq<char>,
    pub storage: Seq<StorageFieldV>,
    pub methods: Seq<MethodSpecV>,
    pub inits: Seq<FieldInitV>,
    pub requires_default_impl: bool,
}

/// The full builder description: storage members, accessor methods, the
/// constructor expression list, and whether the record type's default
/// construction is needed for fields skipped without a value.
#[derive(Debug, PartialEq, Eq)]
pub struct BuilderPlan {
    pub record_name: String,
    pub builder_name: String,
    pub storage_members: Vec<StorageField>,
    pub methods: Vec<MethodSpec>,
    pub build_expr: Vec<FieldInit>,
    pub requires_default_impl: bool,
}

impl DeepView for BuilderPlan {
    type V = BuilderPlanV;

    open spec fn deep_view(&self) -> BuilderPlanV {
        BuilderPlanV {
            record_name: self.record_name@,
            builder_name: self.builder_name@,
            storage: self.storage_members.deep_view(),
            methods: self.methods.deep_view(),
            inits: self.build_expr.deep_view(),
            requires_default_impl: self.requires_default_impl,
        }
    }
}

/// The slot written by an init entry, where it reads one.
pub open spec fn init_slot(k: InitKindV) -> Option<int> {
    match k {
        InitKindV::Verbatim(_) => None,
        InitKindV::StoredOrEmpty(s) => Some(s),
        InitKindV::StoredOrAbsent(s) => Some(s),
        InitKindV::StoredOrDefault(s, _) => Some(s),
        InitKindV::Required(s) => Some(s),
    }
}

/// Every slot index mentioned by a method or an init entry is a real
/// storage slot.
pub open spec fn plan_wf(p: BuilderPlanV) -> bool {
    &&& forall|j: int|
        0 <= j < p.methods.len() ==> 0 <= #[trigger] p.methods[j].slot < p.storage.len()
    &&& forall|j: int|
        0 <= j < p.inits.len() ==> (init_slot(#[trigger] p.inits[j].kind) matches Some(s) ==> 0
            <= s < p.storage.len())
}

} // verus!
