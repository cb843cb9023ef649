//! The laws of the generation engine, stated and proved against the plan
//! synthesis and the builder semantics.

use vstd::prelude::*;

use crate::directives::{default_of, find_str, directive_items, override_or, skip_of, SkipSpecV};
use crate::interp::{
    arg_list, build_spec, built_entries, cur_elems, env_lookup, first_method, first_missing,
    init_value, invoke_spec, merge_defaults, rec_lookup, rec_names_contain, EnvEntryV, RecFieldV,
    ValueV,
};
use crate::plan::{BuilderPlanV, FieldInitV, InitKindV, MethodSigV, MethodSpecV};
use crate::schema::{shape_spec, ShapeV};
use crate::synth::{field_contrib, synth_fields, synth_spec, FieldSchemaV};

verus! {

/// A field that ends up required: not skipped, scalar, and without a
/// default expression.
pub open spec fn scalar_required(f: FieldSchemaV) -> bool {
    &&& skip_of(f.attrs) matches SkipSpecV::Absent
    &&& shape_spec(f.ty) matches ShapeV::Scalar(_)
    &&& default_of(f.attrs) is None
}

/// The slots of a fresh builder: all unset.
pub open spec fn fresh_slots(n: nat) -> Seq<Option<ValueV>> {
    Seq::new(n, |i: int| None)
}

/// The value inside an optional (meaningful when it is present).
pub open spec fn some_val(o: Option<ValueV>) -> ValueV {
    match o {
        Some(v) => v,
        None => ValueV::Atom(0),
    }
}

/// On a record whose fields are all required scalars, the plan is one
/// storage member, one scalar setter and one required constructor entry per
/// field, in order.
pub proof fn lemma_scalar_plan(fields: Seq<FieldSchemaV>)
    requires
        forall|i: int| 0 <= i < fields.len() ==> scalar_required(#[trigger] fields[i]),
    ensures
        ({
            let p = synth_fields(fields);
            &&& p.storage.len() == fields.len()
            &&& p.methods.len() == fields.len()
            &&& p.inits.len() == fields.len()
            &&& !p.needs_default
            &&& forall|i: int|
                0 <= i < fields.len() ==> #[trigger] p.inits[i] == (FieldInitV {
                    name: fields[i].name,
                    kind: InitKindV::Required(i),
                })
            &&& forall|i: int|
                0 <= i < fields.len() ==> (#[trigger] p.methods[i]).name == override_or(
                    fields[i].attrs,
                    "setter"@,
                    fields[i].name,
                ) && p.methods[i].slot == i && p.methods[i].sig matches MethodSigV::SetScalar(_)
        }),
    decreases fields.len(),
{
    if fields.len() > 0 {
        let prefix = fields.drop_last();
        assert(forall|i: int| 0 <= i < prefix.len() ==> prefix[i] == fields[i]);
        lemma_scalar_plan(prefix);
    }
}

/// A record of required scalar fields, none of them set: the build
/// operation fails, naming the first field.
pub proof fn lemma_build_unset_scalars_fails(
    record_name: Seq<char>,
    fields: Seq<FieldSchemaV>,
    env: Seq<EnvEntryV>,
    dflt: Seq<RecFieldV>,
)
    requires
        fields.len() > 0,
        forall|i: int| 0 <= i < fields.len() ==> scalar_required(#[trigger] fields[i]),
    ensures
        ({
            let plan = synth_spec(record_name, fields);
            build_spec(plan, fresh_slots(plan.storage.len()), env, dflt) matches Err(n)
                && n == fields[0].name
        }),
{
    lemma_scalar_plan(fields);
    let plan = synth_spec(record_name, fields);
    let slots = fresh_slots(plan.storage.len());
    assert(plan.inits.first() == plan.inits[0]);
    assert(slots[0] is None);
}

/// A record of required scalar fields, all of them set: the build operation
/// succeeds and hands every stored value back unchanged, in declaration
/// order.
pub proof fn lemma_build_set_scalars_round_trip(
    record_name: Seq<char>,
    fields: Seq<FieldSchemaV>,
    slots: Seq<Option<ValueV>>,
    env: Seq<EnvEntryV>,
    dflt: Seq<RecFieldV>,
)
    requires
        forall|i: int| 0 <= i < fields.len() ==> scalar_required(#[trigger] fields[i]),
        slots.len() == fields.len(),
        forall|i: int| 0 <= i < slots.len() ==> (#[trigger] slots[i]) matches Some(_),
    ensures
        ({
            let plan = synth_spec(record_name, fields);
            build_spec(plan, slots, env, dflt) matches Ok(es) && es.len() == fields.len()
                && (forall|i: int|
                0 <= i < fields.len() ==> #[trigger] es[i] == (RecFieldV {
                    name: fields[i].name,
                    value: some_val(slots[i]),
                }))
        }),
{
    lemma_scalar_plan(fields);
    let plan = synth_spec(record_name, fields);
    lemma_no_missing(plan.inits, slots);
    let es = built_entries(plan.inits, slots, env);
    assert forall|i: int| 0 <= i < fields.len() implies #[trigger] es[i] == (RecFieldV {
        name: fields[i].name,
        value: some_val(slots[i]),
    }) by {
        assert(plan.inits[i].kind == InitKindV::Required(i));
    }
}

/// When every required constructor entry has a set slot, nothing is
/// missing.
pub proof fn lemma_no_missing(inits: Seq<FieldInitV>, slots: Seq<Option<ValueV>>)
    requires
        forall|j: int|
            0 <= j < inits.len() ==> ((#[trigger] inits[j].kind) matches InitKindV::Required(s)
                ==> 0 <= s < slots.len() && slots[s] matches Some(_)),
    ensures
        first_missing(inits, slots) is None,
    decreases inits.len(),
{
    if inits.len() > 0 {
        let rest = inits.drop_first();
        assert(forall|j: int| 0 <= j < rest.len() ==> rest[j] == inits[j + 1]);
        lemma_no_missing(rest, slots);
    }
}

/// The slots after repeatedly dispatching one accessor name with a sequence
/// of element arguments.
pub open spec fn pushes(
    plan: BuilderPlanV,
    slots: Seq<Option<ValueV>>,
    name: Seq<char>,
    atoms: Seq<u64>,
) -> Seq<Option<ValueV>>
    decreases atoms.len(),
{
    if atoms.len() == 0 {
        slots
    } else {
        pushes(
            plan,
            invoke_spec(plan, slots, name, ValueV::Atom(atoms.first())).1,
            name,
            atoms.drop_first(),
        )
    }
}

/// Calling the push-one accessor once per element appends exactly those
/// elements, in call order, starting from empty storage; every other slot
/// is untouched. In particular, `n` calls on a fresh builder store a
/// sequence of length `n`.
pub proof fn lemma_push_one_repeated(
    plan: BuilderPlanV,
    slots: Seq<Option<ValueV>>,
    name: Seq<char>,
    atoms: Seq<u64>,
)
    requires
        first_method(plan.methods, name) matches Some(m) && m.sig matches MethodSigV::PushOne(_)
            && 0 <= m.slot < slots.len(),
    ensures
        ({
            let m = first_method(plan.methods, name)->Some_0;
            let after = pushes(plan, slots, name, atoms);
            &&& after.len() == slots.len()
            &&& cur_elems(after[m.slot]) == cur_elems(slots[m.slot]) + atoms
            &&& atoms.len() > 0 ==> after[m.slot] == Some(
                ValueV::List(cur_elems(slots[m.slot]) + atoms),
            )
            &&& forall|k: int| 0 <= k < slots.len() && k != m.slot ==> #[trigger] after[k]
                == slots[k]
        }),
    decreases atoms.len(),
{
    let m = first_method(plan.methods, name)->Some_0;
    if atoms.len() == 0 {
        assert(cur_elems(slots[m.slot]) + atoms =~= cur_elems(slots[m.slot]));
    } else {
        let s1 = invoke_spec(plan, slots, name, ValueV::Atom(atoms.first())).1;
        assert(s1[m.slot] == Some(ValueV::List(cur_elems(slots[m.slot]).push(atoms.first()))));
        lemma_push_one_repeated(plan, s1, name, atoms.drop_first());
        assert(cur_elems(slots[m.slot]).push(atoms.first()) + atoms.drop_first() =~= cur_elems(
            slots[m.slot],
        ) + atoms);
    }
}

/// One push-many call with a batch stores the same sequence as one
/// push-one call per batch element, in order; every other slot agrees.
/// (An empty batch leaves an untouched slot unset where push-many
/// initializes it to an empty sequence; the built record shows an empty
/// sequence either way.)
pub proof fn lemma_push_many_equiv(
    plan: BuilderPlanV,
    slots: Seq<Option<ValueV>>,
    many_name: Seq<char>,
    one_name: Seq<char>,
    vs: Seq<u64>,
)
    requires
        first_method(plan.methods, many_name) matches Some(m2) && m2.sig matches
            MethodSigV::PushMany(_) && 0 <= m2.slot < slots.len(),
        first_method(plan.methods, one_name) matches Some(m1) && m1.sig matches
            MethodSigV::PushOne(_) && m1.slot == first_method(plan.methods, many_name)->Some_0.slot,
    ensures
        ({
            let m2 = first_method(plan.methods, many_name)->Some_0;
            let after_many = invoke_spec(plan, slots, many_name, ValueV::List(vs)).1;
            let after_ones = pushes(plan, slots, one_name, vs);
            &&& after_many.len() == after_ones.len()
            &&& cur_elems(after_many[m2.slot]) == cur_elems(after_ones[m2.slot])
            &&& forall|k: int| 0 <= k < slots.len() && k != m2.slot ==> #[trigger] after_many[k]
                == after_ones[k]
        }),
{
    lemma_push_one_repeated(plan, slots, one_name, vs);
    let m2 = first_method(plan.methods, many_name)->Some_0;
    assert(arg_list(ValueV::List(vs)) == vs);
    assert(cur_elems(invoke_spec(plan, slots, many_name, ValueV::List(vs)).1[m2.slot])
        == cur_elems(slots[m2.slot]) + vs);
}

/// The replace-all accessor discards whatever was stored before: the slot
/// holds exactly the given sequence afterwards.
pub proof fn lemma_replace_all_discards(
    plan: BuilderPlanV,
    slots: Seq<Option<ValueV>>,
    name: Seq<char>,
    vs: Seq<u64>,
)
    requires
        first_method(plan.methods, name) matches Some(m) && m.sig matches MethodSigV::ReplaceAll(_)
            && 0 <= m.slot < slots.len(),
    ensures
        ({
            let m = first_method(plan.methods, name)->Some_0;
            invoke_spec(plan, slots, name, ValueV::List(vs)).1[m.slot] == Some(ValueV::List(vs))
        }),
{
}

/// A sequence field never written builds to an empty sequence; one written
/// builds to its stored value. Never an error.
pub proof fn lemma_sequence_build_value(s: int, slots: Seq<Option<ValueV>>, env: Seq<EnvEntryV>)
    ensures
        slots[s] is None ==> init_value(InitKindV::StoredOrEmpty(s), slots, env) == ValueV::List(
            Seq::<u64>::empty(),
        ),
        slots[s] matches Some(v) ==> init_value(InitKindV::StoredOrEmpty(s), slots, env) == v,
{
}

/// An optional field never set builds to an absent value; setting it to
/// `v` once builds to `v` wrapped as present.
pub proof fn lemma_optional_build_value(
    plan: BuilderPlanV,
    slots: Seq<Option<ValueV>>,
    name: Seq<char>,
    v: u64,
    s: int,
    env: Seq<EnvEntryV>,
)
    requires
        first_method(plan.methods, name) matches Some(m) && m.sig matches
            MethodSigV::SetOptional(_) && m.slot == s && 0 <= s < slots.len(),
    ensures
        slots[s] is None ==> init_value(InitKindV::StoredOrAbsent(s), slots, env) == ValueV::Maybe(
            None,
        ),
        ({
            let after = invoke_spec(plan, slots, name, ValueV::Atom(v)).1;
            init_value(InitKindV::StoredOrAbsent(s), after, env) == ValueV::Maybe(Some(v))
        }),
{
}

/// A defaulted scalar field builds to its default expression's value while
/// unset, and to the stored value once set.
pub proof fn lemma_scalar_default_value(
    s: int,
    e: Seq<char>,
    d: ValueV,
    slots: Seq<Option<ValueV>>,
    env: Seq<EnvEntryV>,
)
    requires
        env_lookup(env, e) == Some(d),
    ensures
        slots[s] is None ==> init_value(InitKindV::StoredOrDefault(s, e), slots, env) == d,
        slots[s] matches Some(v) ==> init_value(InitKindV::StoredOrDefault(s, e), slots, env) == v,
{
}

/// A skip-with-value entry builds to its expression's value whatever the
/// slots hold: no accessor call can influence it.
pub proof fn lemma_skip_value_constant(
    e: Seq<char>,
    d: ValueV,
    slots: Seq<Option<ValueV>>,
    env: Seq<EnvEntryV>,
)
    requires
        env_lookup(env, e) == Some(d),
    ensures
        init_value(InitKindV::Verbatim(e), slots, env) == d,
{
}

/// The build operation reads the builder without consuming or changing it,
/// and its outcome is a function of the plan, the slots, the environment
/// and the default record alone: two builds without intervening mutation
/// yield equal outcomes.
pub proof fn lemma_build_idempotent(
    plan: BuilderPlanV,
    slots: Seq<Option<ValueV>>,
    env: Seq<EnvEntryV>,
    dflt: Seq<RecFieldV>,
    r1: Result<Seq<RecFieldV>, Seq<char>>,
    r2: Result<Seq<RecFieldV>, Seq<char>>,
)
    requires
        r1 == build_spec(plan, slots, env, dflt),
        r2 == build_spec(plan, slots, env, dflt),
    ensures
        r1 == r2,
{
}


/// Whether a field's contribution can carry an accessor of the given name:
/// a skipped field offers none; a sequence field offers its three resolved
/// accessor names; any other field offers its resolved setter name.
pub open spec fn offers_name(f: FieldSchemaV, d: Seq<char>) -> bool {
    match skip_of(f.attrs) {
        SkipSpecV::Bare => false,
        SkipSpecV::WithValue(_) => false,
        SkipSpecV::Absent => match shape_spec(f.ty) {
            ShapeV::Sequence(_) => override_or(f.attrs, "setter_push"@, "add_item"@) == d
                || override_or(f.attrs, "setter_push_many"@, "add_items"@) == d || override_or(
                f.attrs,
                "setter_set"@,
                "items"@,
            ) == d,
            ShapeV::Optional(_) => override_or(f.attrs, "setter"@, f.name) == d,
            ShapeV::Scalar(_) => override_or(f.attrs, "setter"@, f.name) == d,
        },
    }
}

/// Where everything in a synthesized plan comes from: every constructor
/// entry and every storage member is named after a non-skipped (or
/// skip-with-value) field, every method name is one a field offers, default
/// construction is required exactly when some field is skipped bare, and a
/// sequence field's push-one accessor exists under its resolved name.
pub proof fn lemma_synth_sources(fields: Seq<FieldSchemaV>)
    ensures
        ({
            let p = synth_fields(fields);
            &&& forall|j: int|
                0 <= j < p.inits.len() ==> exists|i: int|
                    0 <= i < fields.len() && (#[trigger] p.inits[j]).name == fields[i].name && !(
                    skip_of(fields[i].attrs) matches SkipSpecV::Bare)
            &&& forall|j: int|
                0 <= j < p.storage.len() ==> exists|i: int|
                    0 <= i < fields.len() && (#[trigger] p.storage[j]).name == fields[i].name && (
                    skip_of(fields[i].attrs) matches SkipSpecV::Absent)
            &&& forall|j: int|
                0 <= j < p.methods.len() ==> exists|i: int|
                    0 <= i < fields.len() && offers_name(fields[i], (#[trigger] p.methods[j]).name)
            &&& (p.needs_default <==> (exists|i: int|
                0 <= i < fields.len() && (skip_of((#[trigger] fields[i]).attrs) matches
                    SkipSpecV::Bare)))
            &&& forall|i: int|
                0 <= i < fields.len() && (skip_of((#[trigger] fields[i]).attrs) matches
                    SkipSpecV::Absent) && (shape_spec(fields[i].ty) matches ShapeV::Sequence(_))
                    ==> exists|j: int|
                    0 <= j < p.methods.len() && (#[trigger] p.methods[j]).name == override_or(
                        fields[i].attrs,
                        "setter_push"@,
                        "add_item"@,
                    ) && p.methods[j].sig == MethodSigV::PushOne(
                        shape_spec(fields[i].ty)->Sequence_0,
                    )
        }),
    decreases fields.len(),
{
    if fields.len() > 0 {
        let prefix = fields.drop_last();
        assert(forall|i: int| 0 <= i < prefix.len() ==> prefix[i] == fields[i]);
        lemma_synth_sources(prefix);
        let p0 = synth_fields(prefix);
        let p = synth_fields(fields);
        let f = fields.last();
        let c = field_contrib(f, p0.storage.len() as int);
        let last: int = fields.len() - 1;
        assert forall|j: int| 0 <= j < p.inits.len() implies exists|i: int|
            0 <= i < fields.len() && (#[trigger] p.inits[j]).name == fields[i].name && !(skip_of(
            fields[i].attrs,
        ) matches SkipSpecV::Bare) by {
            if j < p0.inits.len() {
                let i = choose|i: int|
                    0 <= i < prefix.len() && p0.inits[j].name == prefix[i].name && !(skip_of(
                        prefix[i].attrs,
                    ) matches SkipSpecV::Bare);
                assert(0 <= i < fields.len() && p.inits[j].name == fields[i].name && !(skip_of(
                    fields[i].attrs,
                ) matches SkipSpecV::Bare));
            } else {
                assert(p.inits[j].name == fields[last].name && !(skip_of(fields[last].attrs)
                    matches SkipSpecV::Bare));
            }
        }
        assert forall|j: int| 0 <= j < p.storage.len() implies exists|i: int|
            0 <= i < fields.len() && (#[trigger] p.storage[j]).name == fields[i].name && (skip_of(
            fields[i].attrs,
        ) matches SkipSpecV::Absent) by {
            if j < p0.storage.len() {
                let i = choose|i: int|
                    0 <= i < prefix.len() && p0.storage[j].name == prefix[i].name && (skip_of(
                        prefix[i].attrs,
                    ) matches SkipSpecV::Absent);
                assert(0 <= i < fields.len() && p.storage[j].name == fields[i].name && (skip_of(
                    fields[i].attrs,
                ) matches SkipSpecV::Absent));
            } else {
                assert(p.storage[j].name == fields[last].name && (skip_of(fields[last].attrs)
                    matches SkipSpecV::Absent));
            }
        }
        assert forall|j: int| 0 <= j < p.methods.len() implies exists|i: int|
            0 <= i < fields.len() && offers_name(fields[i], (#[trigger] p.methods[j]).name) by {
            if j < p0.methods.len() {
                assert(p.methods[j] == p0.methods[j]);
                let i = choose|i: int|
                    0 <= i < prefix.len() && offers_name(prefix[i], p0.methods[j].name);
                assert(0 <= i < fields.len() && offers_name(fields[i], p.methods[j].name));
            } else {
                assert(p.methods[j] == c.methods[j - p0.methods.len()]);
                assert(offers_name(fields[last], p.methods[j].name));
            }
        }
        if p.needs_default {
            if p0.needs_default {
                let i = choose|i: int|
                    0 <= i < prefix.len() && (skip_of((#[trigger] prefix[i]).attrs) matches
                        SkipSpecV::Bare);
                assert(0 <= i < fields.len() && skip_of(fields[i].attrs) matches SkipSpecV::Bare);
            } else {
                assert(skip_of(fields[last].attrs) matches SkipSpecV::Bare);
            }
        }
        if (exists|i: int|
            0 <= i < fields.len() && (skip_of((#[trigger] fields[i]).attrs) matches
                SkipSpecV::Bare)) {
            let i = choose|i: int|
                0 <= i < fields.len() && (skip_of((#[trigger] fields[i]).attrs) matches
                    SkipSpecV::Bare);
            if i < last {
                assert(skip_of(prefix[i].attrs) matches SkipSpecV::Bare);
                assert(p0.needs_default);
            } else {
                assert(c.skip_bare);
            }
            assert(p.needs_default);
        }
        assert forall|i: int|
            0 <= i < fields.len() && (skip_of((#[trigger] fields[i]).attrs) matches
                SkipSpecV::Absent) && (shape_spec(fields[i].ty) matches ShapeV::Sequence(_))
            implies exists|j: int|
            0 <= j < p.methods.len() && (#[trigger] p.methods[j]).name == override_or(
                fields[i].attrs,
                "setter_push"@,
                "add_item"@,
            ) && p.methods[j].sig == MethodSigV::PushOne(
                shape_spec(fields[i].ty)->Sequence_0,
            ) by {
            if i < last {
                let j = choose|j: int|
                    0 <= j < p0.methods.len() && p0.methods[j].name == override_or(
                        prefix[i].attrs,
                        "setter_push"@,
                        "add_item"@,
                    ) && p0.methods[j].sig == MethodSigV::PushOne(
                        shape_spec(prefix[i].ty)->Sequence_0,
                    );
                assert(p.methods[j] == p0.methods[j]);
            } else {
                let j: int = p0.methods.len() as int;
                assert(p.methods[j] == c.methods[0]);
            }
        }
    }
}

/// A record with no entry of a name has no value for it.
pub proof fn lemma_lookup_absent(entries: Seq<RecFieldV>, n: Seq<char>)
    requires
        !rec_names_contain(entries, n),
    ensures
        rec_lookup(entries, n) is None,
    decreases entries.len(),
{
    if entries.len() > 0 {
        let rest = entries.drop_first();
        assert(forall|j: int| 0 <= j < rest.len() ==> rest[j] == entries[j + 1]);
        assert(entries[0].name != n);
        lemma_lookup_absent(rest, n);
    }
}

/// Looking a name up after appending one entry: the earlier entries still
/// win; the new entry answers only a name they lack.
pub proof fn lemma_lookup_push(s: Seq<RecFieldV>, x: RecFieldV, n: Seq<char>)
    ensures
        rec_lookup(s.push(x), n) == (match rec_lookup(s, n) {
            Some(v) => Some(v),
            None => if x.name == n {
                Some(x.value)
            } else {
                None
            },
        }),
    decreases s.len(),
{
    if s.len() == 0 {
        assert(s.push(x).len() == 1);
        assert(s.push(x).first() == x);
        assert(s.push(x).drop_first() =~= Seq::<RecFieldV>::empty());
        assert(rec_lookup(s.push(x).drop_first(), n) is None);
        assert(rec_lookup(s, n) is None);
        if x.name == n {
            assert(rec_lookup(s.push(x), n) == Some(x.value));
        } else {
            assert(rec_lookup(s.push(x), n) is None);
        }
    } else {
        assert(s.push(x).first() == s.first());
        assert(s.push(x).drop_first() =~= s.drop_first().push(x));
        lemma_lookup_push(s.drop_first(), x, n);
        if s.first().name == n {
            assert(rec_lookup(s.push(x), n) == Some(s.first().value));
            assert(rec_lookup(s, n) == Some(s.first().value));
        } else {
            assert(rec_lookup(s.push(x), n) == rec_lookup(s.drop_first().push(x), n));
            assert(rec_lookup(s, n) == rec_lookup(s.drop_first(), n));
        }
    }
}

/// A record has a value for a name exactly when it has an entry of it.
pub proof fn lemma_lookup_some_iff_contains(s: Seq<RecFieldV>, n: Seq<char>)
    ensures
        (rec_lookup(s, n) matches Some(_)) <==> rec_names_contain(s, n),
    decreases s.len(),
{
    if s.len() > 0 {
        let rest = s.drop_first();
        assert(forall|j: int| 0 <= j < rest.len() ==> rest[j] == s[j + 1]);
        lemma_lookup_some_iff_contains(rest, n);
        if s.first().name == n {
            assert(s[0].name == n);
        } else if rec_names_contain(rest, n) {
            let j = choose|j: int| 0 <= j < rest.len() && rest[j].name == n;
            assert(s[j + 1].name == n);
        } else if rec_names_contain(s, n) {
            let j = choose|j: int| 0 <= j < s.len() && s[j].name == n;
            assert(j > 0);
            assert(rest[j - 1].name == n);
        }
    }
}

/// Merging never invents and never hides a name: the merged record has a
/// name exactly when the explicit entries or the default record has it.
pub proof fn lemma_merge_contains(entries: Seq<RecFieldV>, dflt: Seq<RecFieldV>, n: Seq<char>)
    ensures
        rec_names_contain(merge_defaults(entries, dflt), n) <==> (rec_names_contain(entries, n)
            || rec_names_contain(dflt, n)),
    decreases dflt.len(),
{
    if dflt.len() == 0 {
        if rec_names_contain(dflt, n) {
            let j = choose|j: int| 0 <= j < dflt.len() && dflt[j].name == n;
            assert(false);
        }
    } else {
        let dp = dflt.drop_last();
        lemma_merge_contains(entries, dp, n);
        let so_far = merge_defaults(entries, dp);
        let x = dflt.last();
        // relate contains over dflt and its prefix
        if rec_names_contain(dp, n) {
            let j = choose|j: int| 0 <= j < dp.len() && dp[j].name == n;
            assert(dflt[j].name == n);
        }
        if rec_names_contain(merge_defaults(entries, dflt), n) {
            let j = choose|j: int|
                0 <= j < merge_defaults(entries, dflt).len() && merge_defaults(
                    entries,
                    dflt,
                )[j].name == n;
            if j < so_far.len() {
                assert(so_far[j].name == n);
            } else {
                assert(merge_defaults(entries, dflt)[j] == x);
                assert(dflt[dflt.len() - 1].name == n);
            }
        }
        if rec_names_contain(entries, n) || rec_names_contain(dflt, n) {
            if rec_names_contain(entries, n) || rec_names_contain(dp, n) {
                let j = choose|j: int| 0 <= j < so_far.len() && so_far[j].name == n;
                if rec_names_contain(so_far, x.name) {
                    assert(merge_defaults(entries, dflt)[j].name == n);
                } else {
                    assert(so_far.push(x)[j].name == n);
                }
            } else {
                let j = choose|j: int| 0 <= j < dflt.len() && dflt[j].name == n;
                if j < dp.len() {
                    assert(dp[j].name == n);
                    assert(false);
                }
                assert(x.name == n);
                if rec_names_contain(so_far, x.name) {
                } else {
                    let w: int = so_far.len() as int;
                    assert(so_far.push(x)[w].name == n);
                }
            }
        }
    }
}

/// For a name the explicit entries lack, the merged record answers exactly
/// as the default record does.
pub proof fn lemma_merge_lookup(entries: Seq<RecFieldV>, dflt: Seq<RecFieldV>, n: Seq<char>)
    requires
        !rec_names_contain(entries, n),
    ensures
        rec_lookup(merge_defaults(entries, dflt), n) == rec_lookup(dflt, n),
    decreases dflt.len(),
{
    if dflt.len() == 0 {
        lemma_lookup_absent(entries, n);
    } else {
        let dp = dflt.drop_last();
        let so_far = merge_defaults(entries, dp);
        let x = dflt.last();
        lemma_merge_lookup(entries, dp, n);
        lemma_lookup_push(dp, x, n);
        assert(dp.push(x) =~= dflt);
        if rec_names_contain(so_far, x.name) {
            // the default entry is dropped; show it could not have answered
            lemma_merge_contains(entries, dp, x.name);
            lemma_lookup_some_iff_contains(dp, x.name);
            if x.name == n {
                assert(rec_names_contain(dp, n));
            }
        } else {
            lemma_lookup_push(so_far, x, n);
            lemma_merge_contains(entries, dp, x.name);
            lemma_lookup_some_iff_contains(dp, x.name);
            lemma_lookup_absent(dp, x.name);
        }
    }
}

/// A field skipped with no value: the plan needs default construction, the
/// field has no storage member and no constructor entry of its own — so no
/// accessor can reach it — and, whenever the build succeeds, the built
/// record answers for that field exactly as the record type's default value
/// does, whatever the other slots hold.
pub proof fn lemma_skip_bare_default(
    record_name: Seq<char>,
    fields: Seq<FieldSchemaV>,
    i: int,
    slots: Seq<Option<ValueV>>,
    env: Seq<EnvEntryV>,
    dflt: Seq<RecFieldV>,
)
    requires
        0 <= i < fields.len(),
        skip_of(fields[i].attrs) matches SkipSpecV::Bare,
        forall|j: int| 0 <= j < fields.len() && j != i ==> (#[trigger] fields[j]).name
            != fields[i].name,
        first_missing(synth_spec(record_name, fields).inits, slots) is None,
    ensures
        ({
            let plan = synth_spec(record_name, fields);
            &&& plan.requires_default_impl
            &&& forall|j: int| 0 <= j < plan.storage.len() ==> (#[trigger] plan.storage[j]).name
                != fields[i].name
            &&& build_spec(plan, slots, env, dflt) matches Ok(es) && rec_lookup(
                es,
                fields[i].name,
            ) == rec_lookup(dflt, fields[i].name)
        }),
{
    lemma_synth_sources(fields);
    let plan = synth_spec(record_name, fields);
    let n = fields[i].name;
    assert forall|j: int| 0 <= j < plan.storage.len() implies (#[trigger] plan.storage[j]).name
        != n by {
        if plan.storage[j].name == n {
            let w = choose|w: int|
                0 <= w < fields.len() && plan.storage[j].name == fields[w].name && (skip_of(
                    fields[w].attrs,
                ) matches SkipSpecV::Absent);
            assert(w == i);
        }
    }
    let built = built_entries(plan.inits, slots, env);
    assert forall|j: int| 0 <= j < built.len() implies (#[trigger] built[j]).name != n by {
        if built[j].name == n {
            assert(plan.inits[j].name == n);
            let w = choose|w: int|
                0 <= w < fields.len() && plan.inits[j].name == fields[w].name && !(skip_of(
                    fields[w].attrs,
                ) matches SkipSpecV::Bare);
            assert(w == i);
        }
    }
    if rec_names_contain(built, n) {
        let j = choose|j: int| 0 <= j < built.len() && built[j].name == n;
        assert(false);
    }
    lemma_merge_lookup(built, dflt, n);
}

/// Renaming the push-one accessor: a non-skipped sequence field whose
/// `setter_push` directive resolves to a name exposes a push-one accessor
/// under that name; and when no field of the record offers a given name at
/// all, the builder has no method of that name.
pub proof fn lemma_setter_push_rename(
    record_name: Seq<char>,
    fields: Seq<FieldSchemaV>,
    i: int,
    n: Seq<char>,
    d: Seq<char>,
)
    requires
        0 <= i < fields.len(),
        skip_of(fields[i].attrs) matches SkipSpecV::Absent,
        shape_spec(fields[i].ty) matches ShapeV::Sequence(_),
        find_str(directive_items(fields[i].attrs), "setter_push"@) == Some(n),
        forall|w: int| 0 <= w < fields.len() ==> !offers_name(#[trigger] fields[w], d),
    ensures
        ({
            let plan = synth_spec(record_name, fields);
            &&& exists|j: int|
                0 <= j < plan.methods.len() && (#[trigger] plan.methods[j]).name == n
                    && plan.methods[j].sig == MethodSigV::PushOne(
                    shape_spec(fields[i].ty)->Sequence_0,
                )
            &&& forall|j: int| 0 <= j < plan.methods.len() ==> (#[trigger] plan.methods[j]).name
                != d
        }),
{
    lemma_synth_sources(fields);
    let plan = synth_spec(record_name, fields);
    assert(override_or(fields[i].attrs, "setter_push"@, "add_item"@) == n);
    assert forall|j: int| 0 <= j < plan.methods.len() implies (#[trigger] plan.methods[j]).name
        != d by {
        if plan.methods[j].name == d {
            let w = choose|w: int| 0 <= w < fields.len() && offers_name(fields[w], d);
            assert(!offers_name(fields[w], d));
        }
    }
}


/// An optional field of a record: never calling its accessor builds an
/// absent value; calling it once with `v` builds `v` wrapped as present.
pub proof fn lemma_optional_record(
    record_name: Seq<char>,
    f: FieldSchemaV,
    inner: Seq<char>,
    env: Seq<EnvEntryV>,
    dflt: Seq<RecFieldV>,
    v: u64,
)
    requires
        skip_of(f.attrs) matches SkipSpecV::Absent,
        shape_spec(f.ty) == ShapeV::Optional(inner),
    ensures
        ({
            let plan = synth_spec(record_name, seq![f]);
            let fresh = fresh_slots(plan.storage.len());
            let name = override_or(f.attrs, "setter"@, f.name);
            &&& build_spec(plan, fresh, env, dflt) matches Ok(es) && rec_lookup(es, f.name)
                == Some(ValueV::Maybe(None))
            &&& build_spec(plan, invoke_spec(plan, fresh, name, ValueV::Atom(v)).1, env, dflt)
                matches Ok(es) && rec_lookup(es, f.name) == Some(ValueV::Maybe(Some(v)))
        }),
{
    reveal_with_fuel(first_missing, 3);
    let fields = seq![f];
    assert(fields.len() == 1);
    assert(fields.last() == f);
    assert(fields.drop_last() =~= Seq::<FieldSchemaV>::empty());
    let p0 = synth_fields(fields.drop_last());
    assert(p0.storage.len() == 0);
    let c = field_contrib(f, 0);
    let plan = synth_spec(record_name, fields);
    assert(plan.methods =~= c.methods);
    assert(plan.inits =~= Seq::<FieldInitV>::empty().push(c.init->Some_0));
    assert(plan.methods[0].name == override_or(f.attrs, "setter"@, f.name));
    assert(plan.inits.first() == plan.inits[0]);
    assert(plan.inits.drop_first() =~= Seq::<FieldInitV>::empty());
    let fresh = fresh_slots(plan.storage.len());
    let b1 = built_entries(plan.inits, fresh, env);
    assert(b1.first() == b1[0]);
    let after = invoke_spec(
        plan,
        fresh,
        override_or(f.attrs, "setter"@, f.name),
        ValueV::Atom(v),
    ).1;
    assert(plan.methods.first() == plan.methods[0]);
    assert(after[0] == Some(ValueV::Maybe(Some(v))));
    let b2 = built_entries(plan.inits, after, env);
    assert(b2.first() == b2[0]);
}

/// A scalar field with a default expression: never setting it builds the
/// default expression's value; setting it builds the stored value.
pub proof fn lemma_default_record(
    record_name: Seq<char>,
    f: FieldSchemaV,
    e: Seq<char>,
    d: ValueV,
    env: Seq<EnvEntryV>,
    dflt: Seq<RecFieldV>,
    v: ValueV,
)
    requires
        skip_of(f.attrs) matches SkipSpecV::Absent,
        shape_spec(f.ty) matches ShapeV::Scalar(_),
        default_of(f.attrs) == Some(e),
        env_lookup(env, e) == Some(d),
    ensures
        ({
            let plan = synth_spec(record_name, seq![f]);
            let fresh = fresh_slots(plan.storage.len());
            let name = override_or(f.attrs, "setter"@, f.name);
            &&& build_spec(plan, fresh, env, dflt) matches Ok(es) && rec_lookup(es, f.name)
                == Some(d)
            &&& build_spec(plan, invoke_spec(plan, fresh, name, v).1, env, dflt) matches Ok(es)
                && rec_lookup(es, f.name) == Some(v)
        }),
{
    reveal_with_fuel(first_missing, 3);
    let fields = seq![f];
    assert(fields.len() == 1);
    assert(fields.last() == f);
    assert(fields.drop_last() =~= Seq::<FieldSchemaV>::empty());
    let p0 = synth_fields(fields.drop_last());
    assert(p0.storage.len() == 0);
    let c = field_contrib(f, 0);
    let plan = synth_spec(record_name, fields);
    assert(plan.methods =~= c.methods);
    assert(plan.inits =~= Seq::<FieldInitV>::empty().push(c.init->Some_0));
    assert(plan.inits.first() == plan.inits[0]);
    assert(plan.inits.drop_first() =~= Seq::<FieldInitV>::empty());
    let fresh = fresh_slots(plan.storage.len());
    let b1 = built_entries(plan.inits, fresh, env);
    assert(b1.first() == b1[0]);
    let after = invoke_spec(
        plan,
        fresh,
        override_or(f.attrs, "setter"@, f.name),
        v,
    ).1;
    assert(plan.methods.first() == plan.methods[0]);
    assert(after[0] == Some(v));
    let b2 = built_entries(plan.inits, after, env);
    assert(b2.first() == b2[0]);
}

/// A field skipped with a value: the builder offers no accessor at all for
/// a record of that one field, and the build always yields the expression's
/// value, whatever was invoked before.
pub proof fn lemma_skip_value_record(
    record_name: Seq<char>,
    f: FieldSchemaV,
    e: Seq<char>,
    d: ValueV,
    env: Seq<EnvEntryV>,
    dflt: Seq<RecFieldV>,
    slots: Seq<Option<ValueV>>,
)
    requires
        skip_of(f.attrs) == SkipSpecV::WithValue(e),
        env_lookup(env, e) == Some(d),
    ensures
        ({
            let plan = synth_spec(record_name, seq![f]);
            &&& plan.methods.len() == 0
            &&& plan.storage.len() == 0
            &&& !plan.requires_default_impl
            &&& build_spec(plan, slots, env, dflt) matches Ok(es) && rec_lookup(es, f.name)
                == Some(d)
        }),
{
    reveal_with_fuel(first_missing, 3);
    let fields = seq![f];
    assert(fields.len() == 1);
    assert(fields.last() == f);
    assert(fields.drop_last() =~= Seq::<FieldSchemaV>::empty());
    let p0 = synth_fields(fields.drop_last());
    assert(p0.storage.len() == 0);
    let c = field_contrib(f, 0);
    let plan = synth_spec(record_name, fields);
    assert(plan.methods =~= c.methods);
    assert(plan.inits =~= Seq::<FieldInitV>::empty().push(c.init->Some_0));
    assert(plan.methods =~= Seq::<MethodSpecV>::empty());
    assert(plan.inits.first() == plan.inits[0]);
    assert(plan.inits.drop_first() =~= Seq::<FieldInitV>::empty());
    let b1 = built_entries(plan.inits, slots, env);
    assert(b1.first() == b1[0]);
}


/// A sequence field of a record: never calling any of its accessors still
/// builds successfully, with an empty sequence for the field.
pub proof fn lemma_sequence_record(
    record_name: Seq<char>,
    f: FieldSchemaV,
    elem: Seq<char>,
    env: Seq<EnvEntryV>,
    dflt: Seq<RecFieldV>,
)
    requires
        skip_of(f.attrs) matches SkipSpecV::Absent,
        shape_spec(f.ty) == ShapeV::Sequence(elem),
    ensures
        ({
            let plan = synth_spec(record_name, seq![f]);
            build_spec(plan, fresh_slots(plan.storage.len()), env, dflt) matches Ok(es)
                && rec_lookup(es, f.name) == Some(ValueV::List(Seq::<u64>::empty()))
        }),
{
    reveal_with_fuel(first_missing, 3);
    let fields = seq![f];
    assert(fields.len() == 1);
    assert(fields.last() == f);
    assert(fields.drop_last() =~= Seq::<FieldSchemaV>::empty());
    let p0 = synth_fields(fields.drop_last());
    assert(p0.storage.len() == 0);
    let c = field_contrib(f, 0);
    let plan = synth_spec(record_name, fields);
    assert(plan.inits =~= Seq::<FieldInitV>::empty().push(c.init->Some_0));
    assert(plan.inits.first() == plan.inits[0]);
    let fresh = fresh_slots(plan.storage.len());
    let b1 = built_entries(plan.inits, fresh, env);
    assert(b1.first() == b1[0]);
}


/// A field skipped with a value owns no storage member in any record, so no
/// accessor of the builder can reach it.
pub proof fn lemma_skip_value_no_storage(
    record_name: Seq<char>,
    fields: Seq<FieldSchemaV>,
    i: int,
)
    requires
        0 <= i < fields.len(),
        skip_of(fields[i].attrs) matches SkipSpecV::WithValue(_),
        forall|j: int| 0 <= j < fields.len() && j != i ==> (#[trigger] fields[j]).name
            != fields[i].name,
    ensures
        ({
            let plan = synth_spec(record_name, fields);
            forall|j: int| 0 <= j < plan.storage.len() ==> (#[trigger] plan.storage[j]).name
                != fields[i].name
        }),
{
    lemma_synth_sources(fields);
    let plan = synth_spec(record_name, fields);
    let n = fields[i].name;
    assert forall|j: int| 0 <= j < plan.storage.len() implies (#[trigger] plan.storage[j]).name
        != n by {
        if plan.storage[j].name == n {
            let w = choose|w: int|
                0 <= w < fields.len() && plan.storage[j].name == fields[w].name && (skip_of(
                    fields[w].attrs,
                ) matches SkipSpecV::Absent);
            assert(w == i);
        }
    }
}

} // verus!
