use auto_builder::directives::{
    get_default_expr, get_setter_push_many_name, get_setter_push_name, get_setter_set_name,
    get_skip_expr, named_override, resolve, Annotation, MetaItem, MetaValue,
};
use auto_builder::interp::{BuilderState, EnvEntry, ExprEnv, RecField, Record, Value};
use auto_builder::plan::{InitKind, MethodSig, StorageTy};
use auto_builder::schema::{classify, is_option, is_vec, option_inner_type, TypeExpr, TypeShape};
use auto_builder::synth::{expand_autobuilder, synthesize, FieldSchema, GenError, RecordData,
    RecordSchema};

fn ty(head: &str, args: &[&str], full: &str) -> TypeExpr {
    TypeExpr {
        head: head.to_string(),
        args: args.iter().map(|a| a.to_string()).collect(),
        full: full.to_string(),
    }
}

fn scalar(name: &str) -> TypeExpr {
    ty(name, &[], name)
}

fn ann(items: Vec<(&str, MetaValue)>) -> Annotation {
    Annotation {
        tag: "builder".to_string(),
        items: items
            .into_iter()
            .map(|(k, v)| MetaItem { key: k.to_string(), value: v })
            .collect(),
    }
}

fn field(name: &str, t: TypeExpr, attrs: Vec<Annotation>) -> FieldSchema {
    FieldSchema { name: name.to_string(), ty: t, attrs }
}

fn empty_env() -> ExprEnv {
    ExprEnv { entries: vec![] }
}

fn env(bindings: Vec<(&str, Value)>) -> ExprEnv {
    ExprEnv {
        entries: bindings
            .into_iter()
            .map(|(e, v)| EnvEntry { expr: e.to_string(), value: v })
            .collect(),
    }
}

fn empty_record() -> Record {
    Record { fields: vec![] }
}

#[test]
fn classify_vec_option_scalar() {
    let v = ty("Vec", &["String"], "Vec<String>");
    assert!(is_vec(&v) == Some("String".to_string()));
    assert!(!is_option(&v));
    assert_eq!(classify(&v), TypeShape::Sequence("String".to_string()));

    let o = ty("Option", &["u32"], "Option<u32>");
    assert!(is_option(&o));
    assert_eq!(option_inner_type(&o), Some("u32".to_string()));
    assert_eq!(classify(&o), TypeShape::Optional("u32".to_string()));

    let s = scalar("u64");
    assert!(!is_option(&s));
    assert!(is_vec(&s).is_none());
    assert_eq!(classify(&s), TypeShape::Scalar(scalar("u64")));

    // a bare head with no generic argument degrades to a scalar
    let bare = ty("Vec", &[], "Vec");
    assert!(is_vec(&bare).is_none());
    assert_eq!(classify(&bare), TypeShape::Scalar(ty("Vec", &[], "Vec")));

    // nesting is not unwrapped: the outermost head decides
    let nested = ty("Option", &["Vec<u8>"], "Option<Vec<u8>>");
    assert_eq!(classify(&nested), TypeShape::Optional("Vec<u8>".to_string()));
}

#[test]
fn skip_directive_forms() {
    let none = vec![ann(vec![("setter", MetaValue::Str("x".to_string()))])];
    assert_eq!(get_skip_expr(&none), None);

    let bare = vec![ann(vec![("skip", MetaValue::Bare)])];
    assert_eq!(get_skip_expr(&bare), Some(None));

    let with = vec![ann(vec![("skip", MetaValue::Expr("1 + 2".to_string()))])];
    assert_eq!(get_skip_expr(&with), Some(Some("1 + 2".to_string())));

    // a string-literal value is an expression too, quotes included
    let lit = vec![ann(vec![("skip", MetaValue::Str("abc".to_string()))])];
    assert_eq!(get_skip_expr(&lit), Some(Some("\"abc\"".to_string())));

    // annotations under another tag pass through untouched
    let other = vec![Annotation {
        tag: "serde".to_string(),
        items: vec![MetaItem { key: "skip".to_string(), value: MetaValue::Bare }],
    }];
    assert_eq!(get_skip_expr(&other), None);
}

#[test]
fn rename_lookup_first_wins_and_ignores_malformed() {
    let attrs = vec![ann(vec![
        ("setter_push", MetaValue::Expr("not_a_string".to_string())),
        ("setter_push", MetaValue::Str("insert".to_string())),
        ("setter_push", MetaValue::Str("late".to_string())),
    ])];
    // the malformed occurrence is ignored; the first well-formed one wins
    assert_eq!(get_setter_push_name(&attrs, "add_item"), "insert".to_string());
    assert_eq!(get_setter_push_many_name(&attrs, "add_items"), "add_items".to_string());
    assert_eq!(get_setter_set_name(&attrs, "items"), "items".to_string());
    assert_eq!(named_override(&attrs, "setter", "fallback"), "fallback".to_string());
}

#[test]
fn default_directive_needs_a_value() {
    let with = vec![ann(vec![("default", MetaValue::Expr("42".to_string()))])];
    assert_eq!(get_default_expr(&with), Some("42".to_string()));
    let bare = vec![ann(vec![("default", MetaValue::Bare)])];
    assert_eq!(get_default_expr(&bare), None);
}

#[test]
fn resolve_collects_every_key() {
    let attrs = vec![ann(vec![
        ("setter", MetaValue::Str("named".to_string())),
        ("default", MetaValue::Expr("7".to_string())),
        ("unknown_key", MetaValue::Bare),
    ])];
    let ds = resolve(&attrs);
    assert_eq!(ds.skip, None);
    assert_eq!(ds.setter, Some("named".to_string()));
    assert_eq!(ds.default_expr, Some("7".to_string()));
    assert_eq!(ds.setter_set, None);
    assert_eq!(ds.setter_push, None);
    assert_eq!(ds.setter_push_many, None);
}

#[test]
fn scalar_plan_shape() {
    let fields = vec![field("host", scalar("String"), vec![]), field("port", scalar("u16"), vec![])];
    let plan = synthesize(&"Config".to_string(), &fields);
    assert_eq!(plan.record_name, "Config".to_string());
    assert_eq!(plan.builder_name, "ConfigBuilder".to_string());
    assert!(!plan.requires_default_impl);
    assert_eq!(plan.storage_members.len(), 2);
    assert_eq!(plan.storage_members[0].name, "host".to_string());
    assert_eq!(plan.storage_members[0].ty, StorageTy::OptionOf("String".to_string()));
    assert_eq!(plan.methods.len(), 2);
    assert_eq!(plan.methods[0].name, "host".to_string());
    assert_eq!(plan.methods[0].sig, MethodSig::SetScalar("String".to_string()));
    assert_eq!(plan.methods[1].slot, 1);
    assert_eq!(plan.build_expr.len(), 2);
    assert_eq!(plan.build_expr[0].kind, InitKind::Required(0));
    assert_eq!(plan.build_expr[1].name, "port".to_string());
}

#[test]
fn required_scalars_fail_then_round_trip() {
    let fields = vec![field("host", scalar("String"), vec![]), field("port", scalar("u16"), vec![])];
    let plan = synthesize(&"Config".to_string(), &fields);
    let mut b = BuilderState::new(&plan);
    let err = b.build(&empty_env(), &empty_record()).unwrap_err();
    assert_eq!(err.missing_field, "host".to_string());
    assert_eq!(err.message(), "Field 'host' is missing".to_string());

    assert!(b.invoke("host", Value::Atom(11)));
    // one field set, the other still missing: the failure names it
    let err = b.build(&empty_env(), &empty_record()).unwrap_err();
    assert_eq!(err.missing_field, "port".to_string());

    assert!(b.invoke("port", Value::Atom(8080)));
    let rec = b.build(&empty_env(), &empty_record()).unwrap();
    assert_eq!(rec.fields.len(), 2);
    assert_eq!(rec.value_of("host"), Some(&Value::Atom(11)));
    assert_eq!(rec.value_of("port"), Some(&Value::Atom(8080)));
}

#[test]
fn sequence_accessors() {
    let fields = vec![field("tags", ty("Vec", &["String"], "Vec<String>"), vec![])];
    let plan = synthesize(&"Post".to_string(), &fields);
    assert_eq!(plan.storage_members[0].ty, StorageTy::OptionVecOf("String".to_string()));
    assert_eq!(plan.methods.len(), 3);
    assert_eq!(plan.methods[0].name, "add_item".to_string());
    assert_eq!(plan.methods[1].name, "add_items".to_string());
    assert_eq!(plan.methods[2].name, "items".to_string());
    assert_eq!(plan.build_expr[0].kind, InitKind::StoredOrEmpty(0));

    // never calling any accessor yields an empty sequence, not a failure
    let b = BuilderState::new(&plan);
    let rec = b.build(&empty_env(), &empty_record()).unwrap();
    assert_eq!(rec.value_of("tags"), Some(&Value::List(vec![])));

    // three push-one calls yield a sequence of length three, in call order
    let mut b = BuilderState::new(&plan);
    assert!(b.invoke("add_item", Value::Atom(1)));
    assert!(b.invoke("add_item", Value::Atom(2)));
    assert!(b.invoke("add_item", Value::Atom(3)));
    let rec = b.build(&empty_env(), &empty_record()).unwrap();
    assert_eq!(rec.value_of("tags"), Some(&Value::List(vec![1, 2, 3])));

    // push-many of a batch equals that many sequential push-one calls
    let mut b2 = BuilderState::new(&plan);
    assert!(b2.invoke("add_item", Value::Atom(1)));
    assert!(b2.invoke("add_items", Value::List(vec![2, 3])));
    let rec2 = b2.build(&empty_env(), &empty_record()).unwrap();
    assert_eq!(rec2.value_of("tags"), Some(&Value::List(vec![1, 2, 3])));

    // replace-all discards all prior pushes
    assert!(b2.invoke("items", Value::List(vec![9])));
    let rec3 = b2.build(&empty_env(), &empty_record()).unwrap();
    assert_eq!(rec3.value_of("tags"), Some(&Value::List(vec![9])));
}

#[test]
fn optional_field_absent_or_present() {
    let fields = vec![field("nick", ty("Option", &["String"], "Option<String>"), vec![])];
    let plan = synthesize(&"User".to_string(), &fields);
    assert_eq!(plan.methods.len(), 1);
    assert_eq!(plan.methods[0].name, "nick".to_string());
    assert_eq!(plan.methods[0].sig, MethodSig::SetOptional("String".to_string()));
    assert_eq!(plan.build_expr[0].kind, InitKind::StoredOrAbsent(0));

    let b = BuilderState::new(&plan);
    let rec = b.build(&empty_env(), &empty_record()).unwrap();
    assert_eq!(rec.value_of("nick"), Some(&Value::Maybe(None)));

    let mut b = BuilderState::new(&plan);
    assert!(b.invoke("nick", Value::Atom(5)));
    let rec = b.build(&empty_env(), &empty_record()).unwrap();
    assert_eq!(rec.value_of("nick"), Some(&Value::Maybe(Some(5))));
}

#[test]
fn scalar_default_directive() {
    let attrs = vec![ann(vec![("default", MetaValue::Expr("42".to_string()))])];
    let fields = vec![field("answer", scalar("u64"), attrs)];
    let plan = synthesize(&"Quiz".to_string(), &fields);
    assert_eq!(plan.build_expr[0].kind, InitKind::StoredOrDefault(0, "42".to_string()));

    let e = env(vec![("42", Value::Atom(42))]);
    // never set: builds to the default expression's value
    let b = BuilderState::new(&plan);
    let rec = b.build(&e, &empty_record()).unwrap();
    assert_eq!(rec.value_of("answer"), Some(&Value::Atom(42)));

    // set to seven: builds to seven
    let mut b = BuilderState::new(&plan);
    assert!(b.invoke("answer", Value::Atom(7)));
    let rec = b.build(&e, &empty_record()).unwrap();
    assert_eq!(rec.value_of("answer"), Some(&Value::Atom(7)));
}

#[test]
fn skip_without_value_uses_type_default() {
    let attrs = vec![ann(vec![("skip", MetaValue::Bare)])];
    let fields = vec![
        field("kept", scalar("u8"), vec![]),
        field("cached", scalar("u64"), attrs),
    ];
    let plan = synthesize(&"Entry".to_string(), &fields);
    assert!(plan.requires_default_impl);
    // the skipped field has no storage, no accessor, no constructor entry
    assert_eq!(plan.storage_members.len(), 1);
    assert_eq!(plan.methods.len(), 1);
    assert_eq!(plan.build_expr.len(), 1);

    let dflt = Record {
        fields: vec![
            RecField { name: "kept".to_string(), value: Value::Atom(0) },
            RecField { name: "cached".to_string(), value: Value::Atom(77) },
        ],
    };
    let mut b = BuilderState::new(&plan);
    assert!(!b.invoke("cached", Value::Atom(1)));
    assert!(b.invoke("kept", Value::Atom(3)));
    let rec = b.build(&empty_env(), &dflt).unwrap();
    assert_eq!(rec.value_of("kept"), Some(&Value::Atom(3)));
    // the skipped field equals the record type's default value
    assert_eq!(rec.value_of("cached"), Some(&Value::Atom(77)));
}

#[test]
fn skip_with_value_is_constant() {
    let attrs = vec![ann(vec![("skip", MetaValue::Expr("compute()".to_string()))])];
    let fields = vec![
        field("fixed", scalar("u64"), attrs),
        field("kept", scalar("u8"), vec![]),
    ];
    let plan = synthesize(&"Entry".to_string(), &fields);
    assert!(!plan.requires_default_impl);
    assert_eq!(plan.build_expr[0].kind, InitKind::Verbatim("compute()".to_string()));
    // no accessor exists for the skipped field
    assert_eq!(plan.methods.len(), 1);
    assert_eq!(plan.methods[0].name, "kept".to_string());

    let e = env(vec![("compute()", Value::Atom(9))]);
    let mut b = BuilderState::new(&plan);
    assert!(!b.invoke("fixed", Value::Atom(1)));
    assert!(b.invoke("kept", Value::Atom(2)));
    let rec = b.build(&e, &empty_record()).unwrap();
    assert_eq!(rec.value_of("fixed"), Some(&Value::Atom(9)));
}

#[test]
fn setter_push_rename_drops_default_name() {
    let attrs = vec![ann(vec![("setter_push", MetaValue::Str("insert".to_string()))])];
    let fields = vec![field("tags", ty("Vec", &["u8"], "Vec<u8>"), attrs)];
    let plan = synthesize(&"Post".to_string(), &fields);

    let mut b = BuilderState::new(&plan);
    // the renamed accessor performs the push-one behaviour
    assert!(b.invoke("insert", Value::Atom(4)));
    // the default name does not exist on this builder
    assert!(!b.invoke("add_item", Value::Atom(5)));
    let rec = b.build(&empty_env(), &empty_record()).unwrap();
    assert_eq!(rec.value_of("tags"), Some(&Value::List(vec![4])));
}

#[test]
fn setter_rename_on_scalar_and_optional() {
    let fields = vec![
        field(
            "a",
            scalar("u8"),
            vec![ann(vec![("setter", MetaValue::Str("with_a".to_string()))])],
        ),
        field(
            "b",
            ty("Option", &["u8"], "Option<u8>"),
            vec![ann(vec![("setter", MetaValue::Str("with_b".to_string()))])],
        ),
    ];
    let plan = synthesize(&"Pair".to_string(), &fields);
    assert_eq!(plan.methods[0].name, "with_a".to_string());
    assert_eq!(plan.methods[1].name, "with_b".to_string());

    let mut b = BuilderState::new(&plan);
    assert!(!b.invoke("a", Value::Atom(1)));
    assert!(b.invoke("with_a", Value::Atom(1)));
    assert!(b.invoke("with_b", Value::Atom(2)));
    let rec = b.build(&empty_env(), &empty_record()).unwrap();
    assert_eq!(rec.value_of("a"), Some(&Value::Atom(1)));
    assert_eq!(rec.value_of("b"), Some(&Value::Maybe(Some(2))));
}

#[test]
fn build_twice_yields_equal_records() {
    let fields = vec![
        field("x", scalar("u8"), vec![]),
        field("tags", ty("Vec", &["u8"], "Vec<u8>"), vec![]),
    ];
    let plan = synthesize(&"Snap".to_string(), &fields);
    let mut b = BuilderState::new(&plan);
    assert!(b.invoke("x", Value::Atom(1)));
    assert!(b.invoke("add_item", Value::Atom(2)));
    let r1 = b.build(&empty_env(), &empty_record()).unwrap();
    let r2 = b.build(&empty_env(), &empty_record()).unwrap();
    assert_eq!(r1, r2);

    // the builder stays usable after a build: mutate, then build again
    assert!(b.invoke("add_item", Value::Atom(3)));
    let r3 = b.build(&empty_env(), &empty_record()).unwrap();
    assert_eq!(r3.value_of("tags"), Some(&Value::List(vec![2, 3])));
}

#[test]
fn expand_rejects_non_structs() {
    let named = RecordSchema {
        name: "Ok".to_string(),
        data: RecordData::NamedStruct(vec![field("x", scalar("u8"), vec![])]),
    };
    let plan = expand_autobuilder(&named).unwrap();
    assert_eq!(plan.builder_name, "OkBuilder".to_string());

    let tuple = RecordSchema { name: "T".to_string(), data: RecordData::UnnamedStruct };
    assert_eq!(expand_autobuilder(&tuple), Err(GenError::FieldsNotNamed));
    let unit = RecordSchema { name: "U".to_string(), data: RecordData::UnitStruct };
    assert_eq!(expand_autobuilder(&unit), Err(GenError::FieldsNotNamed));
    let en = RecordSchema { name: "E".to_string(), data: RecordData::EnumItem };
    assert_eq!(expand_autobuilder(&en), Err(GenError::NotAStruct));
    let un = RecordSchema { name: "W".to_string(), data: RecordData::UnionItem };
    assert_eq!(expand_autobuilder(&un), Err(GenError::NotAStruct));

    assert_eq!(GenError::NotAStruct.message(), "AutoBuilder only supports structs".to_string());
    assert_eq!(
        GenError::FieldsNotNamed.message(),
        "AutoBuilder only supports named fields".to_string()
    );
}

#[test]
fn skip_precedence_over_other_directives() {
    // on a skipped field, setter and default directives are not applied
    let attrs = vec![ann(vec![
        ("skip", MetaValue::Bare),
        ("setter", MetaValue::Str("never".to_string())),
        ("default", MetaValue::Expr("1".to_string())),
    ])];
    let fields = vec![field("gone", scalar("u8"), attrs)];
    let plan = synthesize(&"R".to_string(), &fields);
    assert!(plan.requires_default_impl);
    assert!(plan.methods.is_empty());
    assert!(plan.build_expr.is_empty());
    assert!(plan.storage_members.is_empty());
}

#[test]
fn directives_flatten_across_annotations_in_order() {
    // two separate annotations: their items are read in order, first
    // well-formed occurrence per key wins
    let attrs = vec![
        ann(vec![("setter", MetaValue::Str("early".to_string()))]),
        ann(vec![
            ("setter", MetaValue::Str("late".to_string())),
            ("skip", MetaValue::Bare),
        ]),
    ];
    assert_eq!(named_override(&attrs, "setter", "fb"), "early".to_string());
    assert_eq!(get_skip_expr(&attrs), Some(None));
}
