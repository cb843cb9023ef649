//! The directive resolver: annotations and their normalized directive set.
//!
//! A field carries a list of annotations; each annotation has a tag and a
//! list of key/value items. Only annotations tagged with the designated
//! directive tag are inspected. For each recognized key, the first matching
//! well-formed occurrence wins; later duplicates and malformed values are
//! silently ignored, falling back to default behaviour.

use vstd::prelude::*;

verus! {

/// Mathematical view of a `MetaValue`.
pub ghost enum MetaValueV {
    Bare,
    Str(Seq<char>),
    Expr(Seq<char>),
}

/// The value attached to an annotation item: nothing (a bare key), a string
/// literal (its content, without quotes), or any other expression kept as
/// opaque text.
pub enum MetaValue {
    Bare,
    Str(String),
    Expr(String),
}

impl DeepView for MetaValue {
    type V = MetaValueV;

    open spec fn deep_view(&self) -> MetaValueV {
        match self {
            MetaValue::Bare => MetaValueV::Bare,
            MetaValue::Str(s) => MetaValueV::Str(s@),
            MetaValue::Expr(e) => MetaValueV::Expr(e@),
        }
    }
}

/// Mathematical view of a `MetaItem`.
pub ghost struct MetaItemV {
    pub key: Seq<char>,
    pub value: MetaValueV,
}

/// One key/value item inside an annotation.
pub struct MetaItem {
    pub key: String,
    pub value: MetaValue,
}

impl DeepView for MetaItem {
    type V = MetaItemV;

    open spec fn deep_view(&self) -> MetaItemV {
        MetaItemV { key: self.key@, value: self.value.deep_view() }
    }
}

/// Mathematical view of an `Annotation`.
pub ghost struct AnnotationV {
    pub tag: Seq<char>,
    pub items: Seq<MetaItemV>,
}

/// An annotation attached to a field: a namespace tag and its items.
pub struct Annotation {
    pub tag: String,
    pub items: Vec<MetaItem>,
}

impl DeepView for Annotation {
    type V = AnnotationV;

    open spec fn deep_view(&self) -> AnnotationV {
        AnnotationV { tag: self.tag@, items: self.items.deep_view() }
    }
}

/// The annotation tag whose items are directives; all other annotations pass
/// through untouched.
pub open spec fn builder_tag() -> Seq<char> {
    "builder"@
}

/// All directive items of a field, in order: the concatenation of the items
/// of every annotation that carries the directive tag.
pub open spec fn directive_items(attrs: Seq<AnnotationV>) -> Seq<MetaItemV>
    decreases attrs.len(),
{
    if attrs.len() == 0 {
        Seq::empty()
    } else {
        directive_items(attrs.drop_last()) + (if attrs.last().tag == builder_tag() {
            attrs.last().items
        } else {
            Seq::empty()
        })
    }
}

/// The value of the first item with the given key whose value is a string
/// literal; items with that key but another value kind are ignored.
pub open spec fn find_str(items: Seq<MetaItemV>, key: Seq<char>) -> Option<Seq<char>>
    decreases items.len(),
{
    if items.len() == 0 {
        None
    } else {
        let it = items.first();
        if it.key == key {
            match it.value {
                MetaValueV::Str(s) => Some(s),
                _ => find_str(items.drop_first(), key),
            }
        } else {
            find_str(items.drop_first(), key)
        }
    }
}

/// A directive value read back as expression text: a string literal is the
/// literal itself, quotes included; other expressions are their own text.
pub open spec fn expr_text(v: MetaValueV) -> Seq<char> {
    match v {
        MetaValueV::Bare => Seq::empty(),
        MetaValueV::Str(s) => "\""@ + s + "\""@,
        MetaValueV::Expr(e) => e,
    }
}

/// The expression of the first item with the given key that carries a value;
/// bare occurrences of the key are ignored.
pub open spec fn find_expr(items: Seq<MetaItemV>, key: Seq<char>) -> Option<Seq<char>>
    decreases items.len(),
{
    if items.len() == 0 {
        None
    } else {
        let it = items.first();
        if it.key == key {
            match it.value {
                MetaValueV::Bare => find_expr(items.drop_first(), key),
                v => Some(expr_text(v)),
            }
        } else {
            find_expr(items.drop_first(), key)
        }
    }
}

/// Mathematical view of a resolved skip directive.
pub ghost enum SkipSpecV {
    /// The directive is absent.
    Absent,
    /// Skip with no value: the field falls back to the record type's default.
    Bare,
    /// Skip with a value: the expression is spliced into the constructor.
    WithValue(Seq<char>),
}

/// The first item keyed `skip` decides: bare means skip to the type default,
/// a value means skip with that expression.
pub open spec fn find_skip(items: Seq<MetaItemV>) -> SkipSpecV
    decreases items.len(),
{
    if items.len() == 0 {
        SkipSpecV::Absent
    } else {
        let it = items.first();
        if it.key == "skip"@ {
            match it.value {
                MetaValueV::Bare => SkipSpecV::Bare,
                v => SkipSpecV::WithValue(expr_text(v)),
            }
        } else {
            find_skip(items.drop_first())
        }
    }
}

/// The skip directive of a field's annotations.
pub open spec fn skip_of(attrs: Seq<AnnotationV>) -> SkipSpecV {
    find_skip(directive_items(attrs))
}

/// The default expression of a field's annotations, if any.
pub open spec fn default_of(attrs: Seq<AnnotationV>) -> Option<Seq<char>> {
    find_expr(directive_items(attrs), "default"@)
}

/// The accessor name for the given rename key: the first string-literal
/// occurrence of the key, or the fallback name.
pub open spec fn override_or(attrs: Seq<AnnotationV>, key: Seq<char>, fallback: Seq<char>) -> Seq<
    char,
> {
    match find_str(directive_items(attrs), key) {
        Some(s) => s,
        None => fallback,
    }
}

/// View of an optional owned string.
pub open spec fn opt_str_view(r: Option<String>) -> Option<Seq<char>> {
    match r {
        Some(s) => Some(s@),
        None => None,
    }
}

/// View of the public skip result: absent, bare, or with an expression.
pub open spec fn skip_view(r: Option<Option<String>>) -> SkipSpecV {
    match r {
        None => SkipSpecV::Absent,
        Some(None) => SkipSpecV::Bare,
        Some(Some(e)) => SkipSpecV::WithValue(e@),
    }
}

/// An equal copy of a directive value.
fn clone_meta_value(v: &MetaValue) -> (r: MetaValue)
    ensures
        r.deep_view() == v.deep_view(),
{
    match v {
        MetaValue::Bare => MetaValue::Bare,
        MetaValue::Str(s) => MetaValue::Str(s.clone()),
        MetaValue::Expr(e) => MetaValue::Expr(e.clone()),
    }
}

/// An equal copy of an annotation item.
fn clone_meta_item(it: &MetaItem) -> (r: MetaItem)
    ensures
        r.deep_view() == it.deep_view(),
{
    MetaItem { key: it.key.clone(), value: clone_meta_value(&it.value) }
}

/// Flatten the items of every directive-tagged annotation, in order.
fn collect_directive_items(attrs: &Vec<Annotation>) -> (r: Vec<MetaItem>)
    ensures
        r.deep_view() == directive_items(attrs.deep_view()),
{
    let tag: String = "builder".to_owned();
    let mut r: Vec<MetaItem> = Vec::new();
    let mut i: usize = 0;
    while i < attrs.len()
        invariant
            i <= attrs.len(),
            tag@ == builder_tag(),
            r.deep_view() == directive_items(attrs.deep_view().take(i as int)),
        decreases attrs.len() - i,
    {
        let a = &attrs[i];
        if a.tag == tag {
            let ghost before = r.deep_view();
            let mut j: usize = 0;
            while j < a.items.len()
                invariant
                    j <= a.items.len(),
                    r.deep_view() == before + a.items.deep_view().take(j as int),
                decreases a.items.len() - j,
            {
                let item_ref: &MetaItem = &a.items[j];
                let ghost pre = r.deep_view();
                r.push(clone_meta_item(item_ref));
                proof {
                    let target = before + a.items.deep_view().take(j + 1);
                    assert forall|m: int| 0 <= m < r@.len() implies #[trigger] r.deep_view()[m]
                        == target[m] by {
                        assert(r.deep_view()[m] == r@[m].deep_view());
                        if m < pre.len() {
                            assert(pre[m] == target[m]);
                        }
                    }
                    assert(a.items.deep_view().take(j + 1).len() == j + 1);
                    assert(pre.len() == before.len() + j);
                    assert(r.deep_view().len() == r@.len());
                    assert(r.deep_view().len() == target.len());
                    assert(r.deep_view() =~= target);
                }
                j = j + 1;
            }
            proof {
                assert(a.items.deep_view().take(a.items@.len() as int) =~= a.items.deep_view());
            }
        }
        proof {
            let av = attrs.deep_view();
            assert(av.take(i + 1).drop_last() =~= av.take(i as int));
            assert(av.take(i + 1).last() == av[i as int]);
            assert(r.deep_view() =~= directive_items(av.take(i + 1)));
        }
        i = i + 1;
    }
    proof {
        assert(attrs.deep_view().take(attrs@.len() as int) =~= attrs.deep_view());
    }
    r
}

/// First string-literal value of the given key among the directive items.
fn lookup_str(items: &Vec<MetaItem>, key: &str) -> (r: Option<String>)
    ensures
        opt_str_view(r) == find_str(items.deep_view(), key@),
{
    let k: String = key.to_owned();
    let n = items.len();
    let mut i: usize = 0;
    proof {
        assert(items.deep_view().skip(0) =~= items.deep_view());
    }
    while i < n
        invariant
            i <= n,
            n == items@.len(),
            k@ == key@,
            find_str(items.deep_view(), key@) == find_str(
                items.deep_view().skip(i as int),
                key@,
            ),
        decreases n - i,
    {
        let it = &items[i];
        proof {
            let dv = items.deep_view();
            assert(dv.skip(i as int).first() == dv[i as int]);
            assert(dv.skip(i as int).drop_first() =~= dv.skip(i + 1));
        }
        if it.key == k {
            if let MetaValue::Str(s) = &it.value {
                return Some(s.clone());
            }
        }
        i = i + 1;
    }
    None
}

/// Expression text of a directive value.
fn expr_text_of(v: &MetaValue) -> (r: String)
    ensures
        r@ == expr_text(v.deep_view()),
{
    match v {
        MetaValue::Bare => String::new(),
        MetaValue::Str(s) => {
            let mut t: String = "\"".to_owned();
            t.append(s.as_str());
            t.append("\"");
            proof {
                assert(t@ =~= "\""@ + s@ + "\""@);
            }
            t
        },
        MetaValue::Expr(e) => e.clone(),
    }
}

/// First expression value of the given key among the directive items.
fn lookup_expr(items: &Vec<MetaItem>, key: &str) -> (r: Option<String>)
    ensures
        opt_str_view(r) == find_expr(items.deep_view(), key@),
{
    let k: String = key.to_owned();
    let n = items.len();
    let mut i: usize = 0;
    proof {
        assert(items.deep_view().skip(0) =~= items.deep_view());
    }
    while i < n
        invariant
            i <= n,
            n == items@.len(),
            k@ == key@,
            find_expr(items.deep_view(), key@) == find_expr(
                items.deep_view().skip(i as int),
                key@,
            ),
        decreases n - i,
    {
        let it = &items[i];
        proof {
            let dv = items.deep_view();
            assert(dv.skip(i as int).first() == dv[i as int]);
            assert(dv.skip(i as int).drop_first() =~= dv.skip(i + 1));
        }
        if it.key == k {
            match &it.value {
                MetaValue::Bare => {},
                v => {
                    return Some(expr_text_of(v));
                },
            }
        }
        i = i + 1;
    }
    None
}

/// First `skip` item among the directive items.
fn lookup_skip(items: &Vec<MetaItem>) -> (r: Option<Option<String>>)
    ensures
        skip_view(r) == find_skip(items.deep_view()),
{
    let k: String = "skip".to_owned();
    let n = items.len();
    let mut i: usize = 0;
    proof {
        assert(items.deep_view().skip(0) =~= items.deep_view());
    }
    while i < n
        invariant
            i <= n,
            n == items@.len(),
            k@ == "skip"@,
            find_skip(items.deep_view()) == find_skip(items.deep_view().skip(i as int)),
        decreases n - i,
    {
        let it = &items[i];
        proof {
            let dv = items.deep_view();
            assert(dv.skip(i as int).first() == dv[i as int]);
            assert(dv.skip(i as int).drop_first() =~= dv.skip(i + 1));
        }
        if it.key == k {
            match &it.value {
                MetaValue::Bare => {
                    return Some(None);
                },
                v => {
                    return Some(Some(expr_text_of(v)));
                },
            }
        }
        i = i + 1;
    }
    None
}

/// The skip directive of a field, from its annotations: absent, bare
/// (skip to the record type's default), or with a constructor expression.
pub fn get_skip_expr(attrs: &Vec<Annotation>) -> (r: Option<Option<String>>)
    ensures
        skip_view(r) == skip_of(attrs.deep_view()),
{
    let items = collect_directive_items(attrs);
    lookup_skip(&items)
}

/// The accessor name chosen by a rename directive, or the fallback: the
/// first string-literal occurrence of the key wins, anything else is ignored.
pub fn named_override(attrs: &Vec<Annotation>, key: &str, fallback: &str) -> (r: String)
    ensures
        r@ == override_or(attrs.deep_view(), key@, fallback@),
{
    let items = collect_directive_items(attrs);
    match lookup_str(&items, key) {
        Some(s) => s,
        None => fallback.to_owned(),
    }
}

/// The replace-all accessor name of a sequence field, or the fallback.
pub fn get_setter_set_name(attrs: &Vec<Annotation>, default: &str) -> (r: String)
    ensures
        r@ == override_or(attrs.deep_view(), "setter_set"@, default@),
{
    named_override(attrs, "setter_set", default)
}

/// The push-one accessor name of a sequence field, or the fallback.
pub fn get_setter_push_name(attrs: &Vec<Annotation>, default: &str) -> (r: String)
    ensures
        r@ == override_or(attrs.deep_view(), "setter_push"@, default@),
{
    named_override(attrs, "setter_push", default)
}

/// The push-many accessor name of a sequence field, or the fallback.
pub fn get_setter_push_many_name(attrs: &Vec<Annotation>, default: &str) -> (r: String)
    ensures
        r@ == override_or(attrs.deep_view(), "setter_push_many"@, default@),
{
    named_override(attrs, "setter_push_many", default)
}

/// The default expression of a scalar field, if a `default` directive
/// supplies one.
pub fn get_default_expr(attrs: &Vec<Annotation>) -> (r: Option<String>)
    ensures
        opt_str_view(r) == default_of(attrs.deep_view()),
{
    let items = collect_directive_items(attrs);
    lookup_expr(&items, "default")
}

/// The normalized directive set of one field, resolved in a single pass;
/// downstream logic never re-reads the raw annotations.
pub struct DirectiveSet {
    /// `skip`: absent, bare, or with a constructor expression.
    pub skip: Option<Option<String>>,
    /// `setter`: rename of the single accessor of a scalar or optional field.
    pub setter: Option<String>,
    /// `default`: fallback expression of a scalar field.
    pub default_expr: Option<String>,
    /// `setter_set`: rename of the replace-all accessor of a sequence field.
    pub setter_set: Option<String>,
    /// `setter_push`: rename of the push-one accessor of a sequence field.
    pub setter_push: Option<String>,
    /// `setter_push_many`: rename of the push-many accessor.
    pub setter_push_many: Option<String>,
}

/// Resolve every recognized directive of a field at once. Unrecognized keys
/// are inert; malformed values fall back as the per-key rules say.
pub fn resolve(attrs: &Vec<Annotation>) -> (r: DirectiveSet)
    ensures
        skip_view(r.skip) == skip_of(attrs.deep_view()),
        opt_str_view(r.setter) == find_str(directive_items(attrs.deep_view()), "setter"@),
        opt_str_view(r.default_expr) == default_of(attrs.deep_view()),
        opt_str_view(r.setter_set) == find_str(directive_items(attrs.deep_view()), "setter_set"@),
        opt_str_view(r.setter_push) == find_str(directive_items(attrs.deep_view()), "setter_push"@),
        opt_str_view(r.setter_push_many) == find_str(
            directive_items(attrs.deep_view()),
            "setter_push_many"@,
        ),
{
    let items = collect_directive_items(attrs);
    DirectiveSet {
        skip: lookup_skip(&items),
        setter: lookup_str(&items, "setter"),
        default_expr: lookup_expr(&items, "default"),
        setter_set: lookup_str(&items, "setter_set"),
        setter_push: lookup_str(&items, "setter_push"),
        setter_push_many: lookup_str(&items, "setter_push_many"),
    }
}

} // verus!
