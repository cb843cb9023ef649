//! The meaning of a plan: a builder state that follows it.
//!
//! The generated builder's runtime behaviour is modelled here so that it can
//! be stated and proved. Host values are opaque atoms; the builder itself
//! only ever manipulates structure — it appends to sequences and wraps
//! optional values — so a value is an atom, a list of atoms, or a present or
//! absent atom. A `BuilderState` owns one slot per storage member, all empty
//! at first; accessor calls are dispatched by method name against the plan,
//! and the build operation assembles a record from the constructor entries,
//! an expression environment, and the record type's default value.

use vstd::prelude::*;
use vstd::pervasive::unreached;

use crate::plan::{init_slot, plan_wf, BuilderPlan, BuilderPlanV, FieldInitV, InitKind,
    InitKindV, MethodSig, MethodSigV, MethodSpecV};
use crate::views::{dv_seq, lemma_dv_push, lemma_dv_update, lemma_vec_dv};

verus! {

/// Mathematical view of a `Value`.
pub ghost enum ValueV {
    Atom(u64),
    List(Seq<u64>),
    Maybe(Option<u64>),
}

/// A runtime value of the modelled record: an opaque atom standing for any
/// host value, a sequence of atoms, or an optional atom.
#[derive(Debug, PartialEq, Eq)]
pub enum Value {
    Atom(u64),
    List(Vec<u64>),
    Maybe(Option<u64>),
}

impl DeepView for Value {
    type V = ValueV;

    open spec fn deep_view(&self) -> ValueV {
        match self {
            Value::Atom(a) => ValueV::Atom(*a),
            Value::List(v) => ValueV::List(v@),
            Value::Maybe(o) => ValueV::Maybe(*o),
        }
    }
}

impl Value {
    /// An equal copy of this value.
    pub fn dup(&self) -> (r: Value)
        ensures
            r.deep_view() == self.deep_view(),
    {
        match self {
            Value::Atom(a) => Value::Atom(*a),
            Value::List(v) => {
                let mut w: Vec<u64> = Vec::new();
                let mut i: usize = 0;
                while i < v.len()
                    invariant
                        i <= v.len(),
                        w@ == v@.take(i as int),
                    decreases v.len() - i,
                {
                    w.push(v[i]);
                    proof {
                        assert(w@ =~= v@.take(i + 1));
                    }
                    i = i + 1;
                }
                proof {
                    assert(w@ =~= v@);
                }
                Value::List(w)
            },
            Value::Maybe(o) => Value::Maybe(*o),
        }
    }
}

/// Mathematical view of an `EnvEntry`.
pub ghost struct EnvEntryV {
    pub expr: Seq<char>,
    pub value: ValueV,
}

/// One binding of an expression environment: an expression's opaque text and
/// the value it evaluates to in the host.
#[derive(Debug, PartialEq, Eq)]
pub struct EnvEntry {
    pub expr: String,
    pub value: Value,
}

impl DeepView for EnvEntry {
    type V = EnvEntryV;

    open spec fn deep_view(&self) -> EnvEntryV {
        EnvEntryV { expr: self.expr@, value: self.value.deep_view() }
    }
}

/// An expression environment: the values that the spliced constructor
/// expressions of a plan evaluate to.
#[derive(Debug, PartialEq, Eq)]
pub struct ExprEnv {
    pub entries: Vec<EnvEntry>,
}

impl DeepView for ExprEnv {
    type V = Seq<EnvEntryV>;

    open spec fn deep_view(&self) -> Seq<EnvEntryV> {
        self.entries.deep_view()
    }
}

/// The value of an expression in an environment: its first binding.
pub open spec fn env_lookup(env: Seq<EnvEntryV>, e: Seq<char>) -> Option<ValueV>
    decreases env.len(),
{
    if env.len() == 0 {
        None
    } else if env.first().expr == e {
        Some(env.first().value)
    } else {
        env_lookup(env.drop_first(), e)
    }
}

impl ExprEnv {
    /// The value bound to an expression, if any.
    pub fn get(&self, e: &String) -> (r: Option<&Value>)
        ensures
            match r {
                Some(v) => env_lookup(self.deep_view(), e@) == Some(v.deep_view()),
                None => env_lookup(self.deep_view(), e@) is None,
            },
    {
        let n = self.entries.len();
        let mut i: usize = 0;
        proof {
            assert(self.deep_view().skip(0) =~= self.deep_view());
        }
        while i < n
            invariant
                i <= n,
                n == self.entries@.len(),
                env_lookup(self.deep_view(), e@) == env_lookup(self.deep_view().skip(i as int), e@),
            decreases n - i,
        {
            proof {
                let dv = self.deep_view();
                assert(dv.skip(i as int).first() == dv[i as int]);
                assert(dv.skip(i as int).drop_first() =~= dv.skip(i + 1));
            }
            let entry = &self.entries[i];
            if entry.expr == *e {
                return Some(&entry.value);
            }
            i = i + 1;
        }
        None
    }
}

/// Mathematical view of a `RecField`.
pub ghost struct RecFieldV {
    pub name: Seq<char>,
    pub value: ValueV,
}

/// One field of a built record: its name and its value.
#[derive(Debug, PartialEq, Eq)]
pub struct RecField {
    pub name: String,
    pub value: Value,
}

impl DeepView for RecField {
    type V = RecFieldV;

    open spec fn deep_view(&self) -> RecFieldV {
        RecFieldV { name: self.name@, value: self.value.deep_view() }
    }
}

/// A record value: its fields in order.
#[derive(Debug, PartialEq, Eq)]
pub struct Record {
    pub fields: Vec<RecField>,
}

impl DeepView for Record {
    type V = Seq<RecFieldV>;

    open spec fn deep_view(&self) -> Seq<RecFieldV> {
        self.fields.deep_view()
    }
}

/// The value of a named field of a record: its first entry of that name.
pub open spec fn rec_lookup(fields: Seq<RecFieldV>, name: Seq<char>) -> Option<ValueV>
    decreases fields.len(),
{
    if fields.len() == 0 {
        None
    } else if fields.first().name == name {
        Some(fields.first().value)
    } else {
        rec_lookup(fields.drop_first(), name)
    }
}

/// Whether some entry carries the given name.
pub open spec fn rec_names_contain(fields: Seq<RecFieldV>, name: Seq<char>) -> bool {
    exists|i: int| 0 <= i < fields.len() && fields[i].name == name
}

impl Record {
    /// The value of the named field, if the record has one.
    pub fn value_of(&self, name: &str) -> (r: Option<&Value>)
        ensures
            match r {
                Some(v) => rec_lookup(self.deep_view(), name@) == Some(v.deep_view()),
                None => rec_lookup(self.deep_view(), name@) is None,
            },
    {
        let key: String = name.to_owned();
        let n = self.fields.len();
        let mut i: usize = 0;
        proof {
            assert(self.deep_view().skip(0) =~= self.deep_view());
        }
        while i < n
            invariant
                i <= n,
                n == self.fields@.len(),
                key@ == name@,
                rec_lookup(self.deep_view(), name@) == rec_lookup(
                    self.deep_view().skip(i as int),
                    name@,
                ),
            decreases n - i,
        {
            proof {
                let dv = self.deep_view();
                assert(dv.skip(i as int).first() == dv[i as int]);
                assert(dv.skip(i as int).drop_first() =~= dv.skip(i + 1));
            }
            let entry = &self.fields[i];
            if entry.name == key {
                return Some(&entry.value);
            }
            i = i + 1;
        }
        None
    }
}

/// Whether some field of the vector carries the given name.
fn contains_name(fields: &Vec<RecField>, name: &String) -> (r: bool)
    ensures
        r == rec_names_contain(fields.deep_view(), name@),
{
    let n = fields.len();
    let mut i: usize = 0;
    while i < n
        invariant
            i <= n,
            n == fields@.len(),
            forall|m: int| 0 <= m < i ==> #[trigger] fields.deep_view()[m].name != name@,
        decreases n - i,
    {
        let entry = &fields[i];
        if entry.name == *name {
            proof {
                assert(fields.deep_view()[i as int].name == name@);
            }
            return true;
        }
        i = i + 1;
    }
    false
}

/// A build-time failure: a required scalar field was never set.
#[derive(Debug, PartialEq, Eq)]
pub struct BuildError {
    /// The name of the first missing field, in declaration order.
    pub missing_field: String,
}

impl BuildError {
    /// The diagnostic text of this failure.
    pub fn message(&self) -> (r: String)
        ensures
            r@ == "Field '"@ + self.missing_field@ + "' is missing"@,
    {
        let mut t: String = "Field '".to_owned();
        t.append(self.missing_field.as_str());
        t.append("' is missing");
        proof {
            assert(t@ =~= "Field '"@ + self.missing_field@ + "' is missing"@);
        }
        t
    }
}

/// The first method of the plan with the given name, if any.
pub open spec fn first_method(methods: Seq<MethodSpecV>, name: Seq<char>) -> Option<MethodSpecV>
    decreases methods.len(),
{
    if methods.len() == 0 {
        None
    } else if methods.first().name == name {
        Some(methods.first())
    } else {
        first_method(methods.drop_first(), name)
    }
}

/// Whether an argument value has the shape the method expects: an element
/// for push-one and for an optional setter, a list for push-many and
/// replace-all, anything for a scalar setter.
pub open spec fn arg_fits(sig: MethodSigV, arg: ValueV) -> bool {
    match sig {
        MethodSigV::PushOne(_) => arg matches ValueV::Atom(_),
        MethodSigV::PushMany(_) => arg matches ValueV::List(_),
        MethodSigV::ReplaceAll(_) => arg matches ValueV::List(_),
        MethodSigV::SetOptional(_) => arg matches ValueV::Atom(_),
        MethodSigV::SetScalar(_) => true,
    }
}

/// The atom carried by a value (meaningful when it is an atom).
pub open spec fn arg_atom(v: ValueV) -> u64 {
    match v {
        ValueV::Atom(a) => a,
        _ => 0,
    }
}

/// The list carried by a value (meaningful when it is a list).
pub open spec fn arg_list(v: ValueV) -> Seq<u64> {
    match v {
        ValueV::List(es) => es,
        _ => Seq::empty(),
    }
}

/// The elements currently stored in a sequence slot: empty while the slot
/// was never written.
pub open spec fn cur_elems(slot: Option<ValueV>) -> Seq<u64> {
    match slot {
        Some(ValueV::List(es)) => es,
        _ => Seq::empty(),
    }
}

/// The new content of a slot after one accessor call.
pub open spec fn apply_sig(sig: MethodSigV, slot: Option<ValueV>, arg: ValueV) -> Option<ValueV> {
    match sig {
        MethodSigV::PushOne(_) => Some(ValueV::List(cur_elems(slot).push(arg_atom(arg)))),
        MethodSigV::PushMany(_) => Some(ValueV::List(cur_elems(slot) + arg_list(arg))),
        MethodSigV::ReplaceAll(_) => Some(arg),
        MethodSigV::SetOptional(_) => Some(ValueV::Maybe(Some(arg_atom(arg)))),
        MethodSigV::SetScalar(_) => Some(arg),
    }
}

/// One accessor call, dispatched by name: whether a method was found, and
/// the slots afterwards.
pub open spec fn invoke_spec(
    plan: BuilderPlanV,
    slots: Seq<Option<ValueV>>,
    name: Seq<char>,
    arg: ValueV,
) -> (bool, Seq<Option<ValueV>>) {
    match first_method(plan.methods, name) {
        None => (false, slots),
        Some(m) => (true, slots.update(m.slot, apply_sig(m.sig, slots[m.slot], arg))),
    }
}

/// Whether an argument fits the method the name dispatches to, if any.
pub open spec fn arg_ok(plan: BuilderPlanV, name: Seq<char>, arg: ValueV) -> bool {
    match first_method(plan.methods, name) {
        Some(m) => arg_fits(m.sig, arg),
        None => true,
    }
}

/// The value of one constructor entry at build time.
pub open spec fn init_value(
    k: InitKindV,
    slots: Seq<Option<ValueV>>,
    env: Seq<EnvEntryV>,
) -> ValueV {
    match k {
        InitKindV::Verbatim(e) => match env_lookup(env, e) {
            Some(v) => v,
            None => ValueV::Atom(0),
        },
        InitKindV::StoredOrEmpty(s) => match slots[s] {
            Some(v) => v,
            None => ValueV::List(Seq::empty()),
        },
        InitKindV::StoredOrAbsent(s) => match slots[s] {
            Some(v) => v,
            None => ValueV::Maybe(None),
        },
        InitKindV::StoredOrDefault(s, e) => match slots[s] {
            Some(v) => v,
            None => match env_lookup(env, e) {
                Some(v) => v,
                None => ValueV::Atom(0),
            },
        },
        InitKindV::Required(s) => match slots[s] {
            Some(v) => v,
            None => ValueV::Atom(0),
        },
    }
}

/// The first required constructor entry whose slot was never set, if any.
pub open spec fn first_missing(inits: Seq<FieldInitV>, slots: Seq<Option<ValueV>>) -> Option<
    Seq<char>,
>
    decreases inits.len(),
{
    if inits.len() == 0 {
        None
    } else {
        let it = inits.first();
        if it.kind matches InitKindV::Required(s) && slots[s] is None {
            Some(it.name)
        } else {
            first_missing(inits.drop_first(), slots)
        }
    }
}

/// The explicit record entries of a build, one per constructor entry, in
/// declaration order.
pub open spec fn built_entries(
    inits: Seq<FieldInitV>,
    slots: Seq<Option<ValueV>>,
    env: Seq<EnvEntryV>,
) -> Seq<RecFieldV> {
    Seq::new(
        inits.len(),
        |i: int| RecFieldV { name: inits[i].name, value: init_value(inits[i].kind, slots, env) },
    )
}

/// The explicit entries, then every default entry whose name is still
/// absent, in default order.
pub open spec fn merge_defaults(entries: Seq<RecFieldV>, dflt: Seq<RecFieldV>) -> Seq<RecFieldV>
    decreases dflt.len(),
{
    if dflt.len() == 0 {
        entries
    } else {
        let so_far = merge_defaults(entries, dflt.drop_last());
        if rec_names_contain(so_far, dflt.last().name) {
            so_far
        } else {
            so_far.push(dflt.last())
        }
    }
}

/// Whether the environment binds every expression the plan splices.
pub open spec fn env_covers(plan: BuilderPlanV, env: Seq<EnvEntryV>) -> bool {
    forall|i: int|
        0 <= i < plan.inits.len() ==> match #[trigger] plan.inits[i].kind {
            InitKindV::Verbatim(e) => env_lookup(env, e) is Some,
            InitKindV::StoredOrDefault(_, e) => env_lookup(env, e) is Some,
            _ => true,
        }
}

/// The outcome of the build operation: the record's fields, or the name of
/// the first missing required field. When the plan needs the record type's
/// default construction, the default value fills every remaining field.
pub open spec fn build_spec(
    plan: BuilderPlanV,
    slots: Seq<Option<ValueV>>,
    env: Seq<EnvEntryV>,
    dflt: Seq<RecFieldV>,
) -> Result<Seq<RecFieldV>, Seq<char>> {
    match first_missing(plan.inits, slots) {
        Some(n) => Err(n),
        None => Ok(
            if plan.requires_default_impl {
                merge_defaults(built_entries(plan.inits, slots, env), dflt)
            } else {
                built_entries(plan.inits, slots, env)
            },
        ),
    }
}

/// A builder instance that follows a plan: one slot per storage member,
/// exclusively owned by its caller; accessors mutate it in place and the
/// build operation reads it without consuming it.
pub struct BuilderState<'a> {
    pub plan: &'a BuilderPlan,
    pub slots: Vec<Option<Value>>,
}

/// The index of the first method of the plan with the given name, if any.
fn find_method(plan: &BuilderPlan, name: &str) -> (r: Option<usize>)
    ensures
        match r {
            Some(j) => 0 <= j < plan.methods@.len() && first_method(plan.deep_view().methods, name@)
                == Some(plan.deep_view().methods[j as int]),
            None => first_method(plan.deep_view().methods, name@) is None,
        },
{
    let key: String = name.to_owned();
    let n = plan.methods.len();
    let mut j: usize = 0;
    proof {
        assert(plan.deep_view().methods.skip(0) =~= plan.deep_view().methods);
    }
    while j < n
        invariant
            j <= n,
            n == plan.methods@.len(),
            key@ == name@,
            first_method(plan.deep_view().methods, name@) == first_method(
                plan.deep_view().methods.skip(j as int),
                name@,
            ),
        decreases n - j,
    {
        proof {
            let mv = plan.deep_view().methods;
            assert(mv.skip(j as int).first() == mv[j as int]);
            assert(mv.skip(j as int).drop_first() =~= mv.skip(j + 1));
        }
        let m = &plan.methods[j];
        if m.name == key {
            return Some(j);
        }
        j = j + 1;
    }
    None
}

impl<'a> BuilderState<'a> {
    /// The slots are in step with the plan, and the plan mentions no slot it
    /// does not have.
    pub open spec fn wf(&self) -> bool {
        &&& plan_wf(self.plan.deep_view())
        &&& self.slots.deep_view().len() == self.plan.deep_view().storage.len()
    }

    /// A fresh builder: every slot unset.
    pub fn new(plan: &'a BuilderPlan) -> (r: BuilderState<'a>)
        requires
            plan_wf(plan.deep_view()),
        ensures
            r.wf(),
            r.plan == plan,
            r.slots.deep_view().len() == plan.deep_view().storage.len(),
            forall|j: int|
                0 <= j < r.slots.deep_view().len() ==> #[trigger] r.slots.deep_view()[j] is None,
    {
        let n = plan.storage_members.len();
        let mut slots: Vec<Option<Value>> = Vec::new();
        let mut i: usize = 0;
        while i < n
            invariant
                i <= n,
                slots@.len() == i,
                forall|j: int| 0 <= j < i ==> #[trigger] slots@[j] is None,
            decreases n - i,
        {
            slots.push(None);
            i = i + 1;
        }
        BuilderState { plan, slots }
    }

    /// Call the accessor with the given name on this builder, if the plan
    /// has one; the first method of that name is the one dispatched to.
    /// Returns whether one was found; the builder is unchanged otherwise.
    pub fn invoke(&mut self, name: &str, arg: Value) -> (found: bool)
        requires
            old(self).wf(),
            arg_ok(old(self).plan.deep_view(), name@, arg.deep_view()),
        ensures
            final(self).wf(),
            final(self).plan == old(self).plan,
            ({
                let (fnd, sl) = invoke_spec(
                    old(self).plan.deep_view(),
                    old(self).slots.deep_view(),
                    name@,
                    arg.deep_view(),
                );
                found == fnd && final(self).slots.deep_view() == sl
            }),
    {
        broadcast use lemma_vec_dv, lemma_dv_push, lemma_dv_update;

        let plan = self.plan;
        let found = find_method(plan, name);
        match found {
            None => false,
            Some(j) => {
                let m = &plan.methods[j];
                let k = m.slot;
                let ghost pre = self.slots@;
                proof {
                    let mv = plan.deep_view().methods;
                    assert(mv[j as int] == m.deep_view());
                    assert(0 <= mv[j as int].slot < plan.deep_view().storage.len());
                    assert(self.slots@.len() == plan.deep_view().storage.len());
                }
                match &m.sig {
                    MethodSig::PushOne(_) => {
                        let a = match arg {
                            Value::Atom(a) => a,
                            _ => unreached(),
                        };
                        let mut es = copy_elems(&self.slots[k]);
                        es.push(a);
                        self.slots[k] = Some(Value::List(es));
                    },
                    MethodSig::PushMany(_) => {
                        let vs = match arg {
                            Value::List(vs) => vs,
                            _ => unreached(),
                        };
                        let mut es = copy_elems(&self.slots[k]);
                        let mut t: usize = 0;
                        let ghost base = es@;
                        while t < vs.len()
                            invariant
                                t <= vs.len(),
                                es@ == base + vs@.take(t as int),
                            decreases vs.len() - t,
                        {
                            es.push(vs[t]);
                            proof {
                                assert(es@ =~= base + vs@.take(t + 1));
                            }
                            t = t + 1;
                        }
                        proof {
                            assert(es@ =~= base + vs@);
                        }
                        self.slots[k] = Some(Value::List(es));
                    },
                    MethodSig::ReplaceAll(_) => {
                        self.slots[k] = Some(arg);
                    },
                    MethodSig::SetOptional(_) => {
                        let a = match arg {
                            Value::Atom(a) => a,
                            _ => unreached(),
                        };
                        self.slots[k] = Some(Value::Maybe(Some(a)));
                    },
                    MethodSig::SetScalar(_) => {
                        self.slots[k] = Some(arg);
                    },
                }
                proof {
                    let mv = plan.deep_view().methods;
                    assert(self.slots.deep_view() =~= invoke_spec(
                        plan.deep_view(),
                        dv_seq(pre),
                        name@,
                        arg.deep_view(),
                    ).1);
                }
                true
            },
        }
    }

    /// Build the record this builder describes: every constructor entry in
    /// declaration order, then — when the plan requires default
    /// construction — the default value of each remaining field. Fails,
    /// naming the field, when a required entry was never set; never fails
    /// otherwise. The builder itself is left untouched, so the operation
    /// can be repeated or followed by further mutation.
    pub fn build(&self, env: &ExprEnv, dflt: &Record) -> (r: Result<Record, BuildError>)
        requires
            self.wf(),
            env_covers(self.plan.deep_view(), env.deep_view()),
        ensures
            ({
                let m = build_spec(
                    self.plan.deep_view(),
                    self.slots.deep_view(),
                    env.deep_view(),
                    dflt.deep_view(),
                );
                match r {
                    Ok(rec) => m matches Ok(es) && rec.deep_view() == es,
                    Err(e) => m matches Err(nm) && e.missing_field@ == nm,
                }
            }),
    {
        broadcast use lemma_vec_dv, lemma_dv_push;

        let plan = self.plan;
        let ghost pv = plan.deep_view();
        let ghost sv = self.slots.deep_view();
        let ghost ev = env.deep_view();
        let n = plan.build_expr.len();
        let mut out: Vec<RecField> = Vec::new();
        let mut i: usize = 0;
        proof {
            assert(pv.inits.skip(0) =~= pv.inits);
        }
        while i < n
            invariant
                i <= n,
                n == plan.build_expr@.len(),
                plan == self.plan,
                self.wf(),
                env_covers(pv, ev),
                pv == plan.deep_view(),
                sv == self.slots.deep_view(),
                ev == env.deep_view(),
                first_missing(pv.inits, sv) == first_missing(pv.inits.skip(i as int), sv),
                out.deep_view() == built_entries(pv.inits, sv, ev).take(i as int),
            decreases n - i,
        {
            proof {
                assert(pv.inits.skip(i as int).first() == pv.inits[i as int]);
                assert(pv.inits.skip(i as int).drop_first() =~= pv.inits.skip(i + 1));
            }
            let it = &plan.build_expr[i];
            let ghost pre = out@;
            proof {
                assert(pv.inits[i as int] == it.deep_view());
                assert(pv.storage.len() == self.slots@.len());
                match init_slot(pv.inits[i as int].kind) {
                    Some(s) => {
                        assert(0 <= s < pv.storage.len());
                    },
                    None => {},
                }
            }
            match &it.kind {
                InitKind::Verbatim(e) => {
                    let v = match env.get(e) {
                        Some(v) => v.dup(),
                        None => unreached(),
                    };
                    let rf = RecField { name: it.name.clone(), value: v };
                    let ghost rfg = rf;
                    out.push(rf);
                    proof {
                        lemma_dv_push(pre, rfg);
                        assert(out.deep_view() =~= built_entries(pv.inits, sv, ev).take(i + 1));
                    }
                },
                InitKind::StoredOrEmpty(k) => {
                    let v = match &self.slots[*k] {
                        Some(v) => v.dup(),
                        None => Value::List(Vec::new()),
                    };
                    let rf = RecField { name: it.name.clone(), value: v };
                    let ghost rfg = rf;
                    out.push(rf);
                    proof {
                        lemma_dv_push(pre, rfg);
                        assert(out.deep_view() =~= built_entries(pv.inits, sv, ev).take(i + 1));
                    }
                },
                InitKind::StoredOrAbsent(k) => {
                    let v = match &self.slots[*k] {
                        Some(v) => v.dup(),
                        None => Value::Maybe(None),
                    };
                    let rf = RecField { name: it.name.clone(), value: v };
                    let ghost rfg = rf;
                    out.push(rf);
                    proof {
                        lemma_dv_push(pre, rfg);
                        assert(out.deep_view() =~= built_entries(pv.inits, sv, ev).take(i + 1));
                    }
                },
                InitKind::StoredOrDefault(k, e) => {
                    let v = match &self.slots[*k] {
                        Some(v) => v.dup(),
                        None => match env.get(e) {
                            Some(v) => v.dup(),
                            None => unreached(),
                        },
                    };
                    let rf = RecField { name: it.name.clone(), value: v };
                    let ghost rfg = rf;
                    out.push(rf);
                    proof {
                        lemma_dv_push(pre, rfg);
                        assert(out.deep_view() =~= built_entries(pv.inits, sv, ev).take(i + 1));
                    }
                },
                InitKind::Required(k) => {
                    match &self.slots[*k] {
                        Some(v) => {
                            let v = v.dup();
                            let rf = RecField { name: it.name.clone(), value: v };
                            let ghost rfg = rf;
                            out.push(rf);
                            proof {
                                lemma_dv_push(pre, rfg);
                                assert(out.deep_view() =~= built_entries(pv.inits, sv, ev).take(
                                    i + 1,
                                ));
                            }
                    proof {
                        assert(out.deep_view() =~= built_entries(pv.inits, sv, ev).take(i + 1));
                    }
                        },
                        None => {
                            return Err(BuildError { missing_field: it.name.clone() });
                        },
                    }
                },
            }
            proof {
                assert(out.deep_view() =~= built_entries(pv.inits, sv, ev).take(i + 1));
            }
            i = i + 1;
        }
        proof {
            assert(pv.inits.skip(n as int) =~= Seq::<FieldInitV>::empty());
            assert(out.deep_view() =~= built_entries(pv.inits, sv, ev));
        }
        if !plan.requires_default_impl {
            return Ok(Record { fields: out });
        }
        let ghost base = built_entries(pv.inits, sv, ev);
        let dn = dflt.fields.len();
        let mut j: usize = 0;
        proof {
            assert(dflt.deep_view().take(0) =~= Seq::<RecFieldV>::empty());
        }
        while j < dn
            invariant
                j <= dn,
                dn == dflt.fields@.len(),
                out.deep_view() == merge_defaults(base, dflt.deep_view().take(j as int)),
            decreases dn - j,
        {
            let d = &dflt.fields[j];
            let ghost pre = out@;
            if !contains_name(&out, &d.name) {
                let rf = RecField { name: d.name.clone(), value: d.value.dup() };
                let ghost rfg = rf;
                out.push(rf);
                proof {
                    lemma_dv_push(pre, rfg);
                }
            }
            proof {
                let dv = dflt.deep_view();
                assert(dv.take(j + 1).drop_last() =~= dv.take(j as int));
                assert(dv.take(j + 1).last() == dv[j as int]);
                assert(out.deep_view() =~= merge_defaults(base, dv.take(j + 1)));
            }
            j = j + 1;
        }
        proof {
            assert(dflt.deep_view().take(dn as int) =~= dflt.deep_view());
        }
        Ok(Record { fields: out })
    }
}

/// A copy of the elements stored in a sequence slot; empty while the slot
/// was never written.
fn copy_elems(slot: &Option<Value>) -> (r: Vec<u64>)
    ensures
        r@ == cur_elems(slot.deep_view()),
{
    match slot {
        Some(Value::List(es)) => {
            let mut w: Vec<u64> = Vec::new();
            let mut i: usize = 0;
            while i < es.len()
                invariant
                    i <= es.len(),
                    w@ == es@.take(i as int),
                decreases es.len() - i,
            {
                w.push(es[i]);
                proof {
                    assert(w@ =~= es@.take(i + 1));
                }
                i = i + 1;
            }
            proof {
                assert(w@ =~= es@);
            }
            w
        },
        _ => Vec::new(),
    }
}

} // verus!
