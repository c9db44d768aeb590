//! Index settings: the sub-resources the server knows, and the model of the
//! interactive settings editor (resource list, per-resource editors, pending
//! changes).
use vstd::prelude::*;

use crate::json::{
    distinct_names, json_eq, json_same, lookup, member_lookup, number_text_u64, parse_u64,
    remove_member, set_member, str_items, Json,
};
use crate::keys::{Key, KeyCode};
use crate::text::{decimal, join, lex_lt, sort_strings, sorted_texts, str_eq, texts};

verus! {

/// The settings sub-resources the server accepts, in the order they are listed.
pub open spec fn sub_resource_names() -> Seq<Seq<char>> {
    seq![
        "chat"@,
        "dictionary"@,
        "displayed-attributes"@,
        "distinct-attribute"@,
        "embedders"@,
        "facet-search"@,
        "faceting"@,
        "filterable-attributes"@,
        "localized-attributes"@,
        "non-separator-tokens"@,
        "pagination"@,
        "prefix-search"@,
        "proximity-precision"@,
        "ranking-rules"@,
        "search-cutoff-ms"@,
        "searchable-attributes"@,
        "separator-tokens"@,
        "sortable-attributes"@,
        "stop-words"@,
        "synonyms"@,
        "typo-tolerance"@,
    ]
}

/// Appends a copy of `s`.
pub fn push_text(v: &mut Vec<String>, s: &str)
    ensures
        texts(final(v)@) == texts(old(v)@).push(s@),
{
    v.push(String::from_str(s));
    assert(texts(final(v)@) =~= texts(old(v)@).push(s@));
}

/// The settings sub-resources, as `sub_resource_names` lists them.
pub fn valid_sub_resources() -> (r: Vec<String>)
    ensures
        texts(r@) == sub_resource_names(),
{
    let mut v: Vec<String> = Vec::new();
    assert(texts(v@) =~= Seq::<Seq<char>>::empty());
    push_text(&mut v, "chat");
    push_text(&mut v, "dictionary");
    push_text(&mut v, "displayed-attributes");
    push_text(&mut v, "distinct-attribute");
    push_text(&mut v, "embedders");
    push_text(&mut v, "facet-search");
    push_text(&mut v, "faceting");
    push_text(&mut v, "filterable-attributes");
    push_text(&mut v, "localized-attributes");
    push_text(&mut v, "non-separator-tokens");
    push_text(&mut v, "pagination");
    push_text(&mut v, "prefix-search");
    push_text(&mut v, "proximity-precision");
    push_text(&mut v, "ranking-rules");
    push_text(&mut v, "search-cutoff-ms");
    push_text(&mut v, "searchable-attributes");
    push_text(&mut v, "separator-tokens");
    push_text(&mut v, "sortable-attributes");
    push_text(&mut v, "stop-words");
    push_text(&mut v, "synonyms");
    push_text(&mut v, "typo-tolerance");
    assert(texts(v@) =~= sub_resource_names());
    v
}

/// Whether `s` occurs in `v`.
pub fn contains_text(v: &Vec<String>, s: &str) -> (r: bool)
    ensures
        r == texts(v@).contains(s@),
{
    let mut i: usize = 0;
    while i < v.len()
        invariant
            i <= v@.len(),
            forall|j: int| 0 <= j < i ==> #[trigger] v@[j]@ != s@,
        decreases v@.len() - i,
    {
        if crate::text::str_eq(v[i].as_str(), s) {
            assert(texts(v@)[i as int] == s@);
            return true;
        }
        i = i + 1;
    }
    proof {
        if texts(v@).contains(s@) {
            let j = choose|j: int| 0 <= j < texts(v@).len() && texts(v@)[j] == s@;
            assert(v@[j]@ == s@);
        }
    }
    false
}

/// The message for an unknown sub-resource.
pub open spec fn unknown_sub_resource_message(sub: Seq<char>) -> Seq<char> {
    "Unknown settings sub-resource: '"@ + sub + "'\nValid sub-resources: "@ + join(
        sub_resource_names(),
        ", "@,
    )
}

/// Accepts a known sub-resource; refuses any other with a message that
/// lists the known ones.
pub fn validate_sub_resource(sub: &str) -> (r: Result<(), String>)
    ensures
        r is Ok <==> sub_resource_names().contains(sub@),
        r matches Err(m) ==> m@ == unknown_sub_resource_message(sub@),
{
    let names = valid_sub_resources();
    if contains_text(&names, sub) {
        Ok(())
    } else {
        let mut m = String::from_str("Unknown settings sub-resource: '");
        m.append(sub);
        m.append("'\nValid sub-resources: ");
        let listed = crate::text::join_strings(&names, ", ");
        m.append(listed.as_str());
        Err(m)
    }
}

/// How a setting is edited.
pub enum EditorKind {
    /// Fields with check marks, listed alphabetically.
    FieldCheckbox,
    /// Fields with check marks, the checked ones first and in order.
    FieldOrdered,
    /// A free list of strings.
    StringList,
    /// One field, or none.
    SingleSelect,
    /// One of a fixed set of values.
    EnumSelect(Vec<&'static str>),
    /// A non-negative integer, or none.
    NumberInput,
    /// Edited as JSON text outside the view.
    JsonEditor,
}

/// What an `EditorKind` is, with its choices as texts.
pub enum KindView {
    FieldCheckbox,
    FieldOrdered,
    StringList,
    SingleSelect,
    EnumSelect(Seq<Seq<char>>),
    NumberInput,
    JsonEditor,
}

impl View for EditorKind {
    type V = KindView;

    open spec fn view(&self) -> KindView {
        match self {
            EditorKind::FieldCheckbox => KindView::FieldCheckbox,
            EditorKind::FieldOrdered => KindView::FieldOrdered,
            EditorKind::StringList => KindView::StringList,
            EditorKind::SingleSelect => KindView::SingleSelect,
            EditorKind::EnumSelect(v) => KindView::EnumSelect(v@.map_values(|o: &str| o@)),
            EditorKind::NumberInput => KindView::NumberInput,
            EditorKind::JsonEditor => KindView::JsonEditor,
        }
    }
}

/// A setting of an index: its sub-resource name, its key in the settings
/// object, how it is edited, and the group it is listed under.
pub struct ResourceDef {
    pub slug: &'static str,
    pub key: &'static str,
    pub kind: EditorKind,
    pub group: &'static str,
}

impl View for ResourceDef {
    type V = (Seq<char>, Seq<char>, KindView, Seq<char>);

    open spec fn view(&self) -> (Seq<char>, Seq<char>, KindView, Seq<char>) {
        (self.slug@, self.key@, self.kind@, self.group@)
    }
}

/// The settings the editor offers, in display order.
pub open spec fn resource_table() -> Seq<(Seq<char>, Seq<char>, KindView, Seq<char>)> {
    seq![
        ("displayed-attributes"@, "displayedAttributes"@, KindView::FieldOrdered, "Field Attributes"@),
        ("searchable-attributes"@, "searchableAttributes"@, KindView::FieldOrdered, "Field Attributes"@),
        ("filterable-attributes"@, "filterableAttributes"@, KindView::FieldCheckbox, "Field Attributes"@),
        ("sortable-attributes"@, "sortableAttributes"@, KindView::FieldCheckbox, "Field Attributes"@),
        ("ranking-rules"@, "rankingRules"@, KindView::StringList, "Ranking"@),
        ("proximity-precision"@, "proximityPrecision"@, KindView::EnumSelect(seq!["byWord"@, "byAttribute"@]), "Ranking"@),
        ("search-cutoff-ms"@, "searchCutoffMs"@, KindView::NumberInput, "Ranking"@),
        ("prefix-search"@, "prefixSearch"@, KindView::EnumSelect(seq!["indexingTime"@, "disabled"@]), "Ranking"@),
        ("stop-words"@, "stopWords"@, KindView::StringList, "Tokens"@),
        ("dictionary"@, "dictionary"@, KindView::StringList, "Tokens"@),
        ("non-separator-tokens"@, "nonSeparatorTokens"@, KindView::StringList, "Tokens"@),
        ("separator-tokens"@, "separatorTokens"@, KindView::StringList, "Tokens"@),
        ("distinct-attribute"@, "distinctAttribute"@, KindView::SingleSelect, "Other"@),
        ("typo-tolerance"@, "typoTolerance"@, KindView::JsonEditor, "Other"@),
        ("faceting"@, "faceting"@, KindView::JsonEditor, "Other"@),
        ("pagination"@, "pagination"@, KindView::JsonEditor, "Other"@),
        ("synonyms"@, "synonyms"@, KindView::JsonEditor, "Other"@),
        ("embedders"@, "embedders"@, KindView::JsonEditor, "Other"@),
        ("localized-attributes"@, "localizedAttributes"@, KindView::JsonEditor, "Other"@),
        ("facet-search"@, "facetSearch"@, KindView::JsonEditor, "Other"@),
        ("chat"@, "chat"@, KindView::JsonEditor, "Other"@),
    ]
}

/// Every settings sub-resource that `settings edit` takes is a setting the
/// interactive editor lists, and it lists no other: the slugs of
/// `resource_table` are exactly `sub_resource_names`, as many of them.
pub proof fn law_every_sub_resource_is_editable()
    ensures
        resource_table().map_values(|d: (Seq<char>, Seq<char>, KindView, Seq<char>)| d.0).to_set()
            == sub_resource_names().to_set(),
        resource_table().len() == sub_resource_names().len(),
{
    let slugs = resource_table().map_values(|d: (Seq<char>, Seq<char>, KindView, Seq<char>)| d.0);
    let names = sub_resource_names();
    assert(names[0] == slugs[20]);
    assert(names[1] == slugs[9]);
    assert(names[2] == slugs[0]);
    assert(names[3] == slugs[12]);
    assert(names[4] == slugs[17]);
    assert(names[5] == slugs[19]);
    assert(names[6] == slugs[14]);
    assert(names[7] == slugs[2]);
    assert(names[8] == slugs[18]);
    assert(names[9] == slugs[10]);
    assert(names[10] == slugs[15]);
    assert(names[11] == slugs[7]);
    assert(names[12] == slugs[5]);
    assert(names[13] == slugs[4]);
    assert(names[14] == slugs[6]);
    assert(names[15] == slugs[1]);
    assert(names[16] == slugs[11]);
    assert(names[17] == slugs[3]);
    assert(names[18] == slugs[8]);
    assert(names[19] == slugs[16]);
    assert(names[20] == slugs[13]);
    assert(slugs[0] == names[2]);
    assert(slugs[1] == names[15]);
    assert(slugs[2] == names[7]);
    assert(slugs[3] == names[17]);
    assert(slugs[4] == names[13]);
    assert(slugs[5] == names[12]);
    assert(slugs[6] == names[14]);
    assert(slugs[7] == names[11]);
    assert(slugs[8] == names[18]);
    assert(slugs[9] == names[1]);
    assert(slugs[10] == names[9]);
    assert(slugs[11] == names[16]);
    assert(slugs[12] == names[3]);
    assert(slugs[13] == names[20]);
    assert(slugs[14] == names[6]);
    assert(slugs[15] == names[10]);
    assert(slugs[16] == names[19]);
    assert(slugs[17] == names[4]);
    assert(slugs[18] == names[8]);
    assert(slugs[19] == names[5]);
    assert(slugs[20] == names[0]);
    assert forall|x: Seq<char>| names.to_set().contains(x) implies slugs.to_set().contains(x) by {
        let k = choose|k: int| 0 <= k < names.len() && names[k] == x;
        assert(slugs.contains(x));
    }
    assert forall|x: Seq<char>| slugs.to_set().contains(x) implies names.to_set().contains(x) by {
        let i = choose|i: int| 0 <= i < slugs.len() && slugs[i] == x;
        assert(names.contains(x));
    }
    assert(slugs.to_set() =~= names.to_set());
}

/// The settings the editor offers, as `resource_table` lists them.
#[verifier::rlimit(40)]
pub fn resource_defs() -> (r: Vec<ResourceDef>)
    ensures
        r@.len() == resource_table().len(),
        forall|i: int| 0 <= i < r@.len() ==> (#[trigger] r@[i])@ == resource_table()[i],
{
    let mut defs: Vec<ResourceDef> = Vec::new();
    defs.push(ResourceDef { slug: "displayed-attributes", key: "displayedAttributes", kind: EditorKind::FieldOrdered, group: "Field Attributes" });
    defs.push(ResourceDef { slug: "searchable-attributes", key: "searchableAttributes", kind: EditorKind::FieldOrdered, group: "Field Attributes" });
    defs.push(ResourceDef { slug: "filterable-attributes", key: "filterableAttributes", kind: EditorKind::FieldCheckbox, group: "Field Attributes" });
    defs.push(ResourceDef { slug: "sortable-attributes", key: "sortableAttributes", kind: EditorKind::FieldCheckbox, group: "Field Attributes" });
    defs.push(ResourceDef { slug: "ranking-rules", key: "rankingRules", kind: EditorKind::StringList, group: "Ranking" });
    let mut opts: Vec<&'static str> = Vec::new();
    opts.push("byWord");
    opts.push("byAttribute");
    proof { assert(opts@.map_values(|o: &str| o@) =~= seq!["byWord"@, "byAttribute"@]); }
    defs.push(ResourceDef { slug: "proximity-precision", key: "proximityPrecision", kind: EditorKind::EnumSelect(opts), group: "Ranking" });
    defs.push(ResourceDef { slug: "search-cutoff-ms", key: "searchCutoffMs", kind: EditorKind::NumberInput, group: "Ranking" });
    let mut opts: Vec<&'static str> = Vec::new();
    opts.push("indexingTime");
    opts.push("disabled");
    proof { assert(opts@.map_values(|o: &str| o@) =~= seq!["indexingTime"@, "disabled"@]); }
    defs.push(ResourceDef { slug: "prefix-search", key: "prefixSearch", kind: EditorKind::EnumSelect(opts), group: "Ranking" });
    defs.push(ResourceDef { slug: "stop-words", key: "stopWords", kind: EditorKind::StringList, group: "Tokens" });
    defs.push(ResourceDef { slug: "dictionary", key: "dictionary", kind: EditorKind::StringList, group: "Tokens" });
    defs.push(ResourceDef { slug: "non-separator-tokens", key: "nonSeparatorTokens", kind: EditorKind::StringList, group: "Tokens" });
    defs.push(ResourceDef { slug: "separator-tokens", key: "separatorTokens", kind: EditorKind::StringList, group: "Tokens" });
    defs.push(ResourceDef { slug: "distinct-attribute", key: "distinctAttribute", kind: EditorKind::SingleSelect, group: "Other" });
    defs.push(ResourceDef { slug: "typo-tolerance", key: "typoTolerance", kind: EditorKind::JsonEditor, group: "Other" });
    defs.push(ResourceDef { slug: "faceting", key: "faceting", kind: EditorKind::JsonEditor, group: "Other" });
    defs.push(ResourceDef { slug: "pagination", key: "pagination", kind: EditorKind::JsonEditor, group: "Other" });
    defs.push(ResourceDef { slug: "synonyms", key: "synonyms", kind: EditorKind::JsonEditor, group: "Other" });
    defs.push(ResourceDef { slug: "embedders", key: "embedders", kind: EditorKind::JsonEditor, group: "Other" });
    defs.push(ResourceDef { slug: "localized-attributes", key: "localizedAttributes", kind: EditorKind::JsonEditor, group: "Other" });
    defs.push(ResourceDef { slug: "facet-search", key: "facetSearch", kind: EditorKind::JsonEditor, group: "Other" });
    defs.push(ResourceDef { slug: "chat", key: "chat", kind: EditorKind::JsonEditor, group: "Other" });
    proof {
        assert(defs@.map_values(|d: ResourceDef| d@) =~= resource_table());
        assert forall|i: int| 0 <= i < defs@.len() implies (#[trigger] defs@[i])@ == resource_table()[i] by {
            assert(defs@.map_values(|d: ResourceDef| d@)[i] == defs@[i]@);
        }
    }
    defs
}

/// A field in a field editor, with its check mark.
#[derive(Clone, Debug, PartialEq)]
pub struct FieldItem {
    pub name: String,
    pub checked: bool,
}

impl View for FieldItem {
    type V = (Seq<char>, bool);

    open spec fn view(&self) -> (Seq<char>, bool) {
        (self.name@, self.checked)
    }
}

/// The items of a field editor as (name, checked) pairs.
pub open spec fn item_views(items: Seq<FieldItem>) -> Seq<(Seq<char>, bool)> {
    items.map_values(|i: FieldItem| i@)
}

/// The names of the checked items, in order.
pub open spec fn checked_names(items: Seq<(Seq<char>, bool)>) -> Seq<Seq<char>>
    decreases items.len(),
{
    if items.len() == 0 {
        Seq::empty()
    } else if items.last().1 {
        checked_names(items.drop_last()).push(items.last().0)
    } else {
        checked_names(items.drop_last())
    }
}

/// The texts of the string items of a list of values, in order.
pub open spec fn strs_of(s: Seq<Json>) -> Seq<Seq<char>>
    decreases s.len(),
{
    if s.len() == 0 {
        Seq::empty()
    } else {
        match s.last() {
            Json::Str(t) => strs_of(s.drop_last()).push(t@),
            _ => strs_of(s.drop_last()),
        }
    }
}

/// The texts of the string items of an array (none for other values).
pub open spec fn array_strs(v: Json) -> Seq<Seq<char>> {
    match v {
        Json::Array(a) => strs_of(a@),
        _ => Seq::empty(),
    }
}

/// The value `["*"]`, which stands for every field.
pub open spec fn is_wildcard_value(v: Json) -> bool {
    match v {
        Json::Array(a) => a@.len() == 1 && a@[0].spec_as_str() == Some("*"@),
        _ => false,
    }
}

/// The fields a setting's value checks: every field for the wildcard, else
/// the strings of the array.
pub open spec fn checked_of(v: Json, fields: Seq<Seq<char>>) -> Seq<Seq<char>> {
    if is_wildcard_value(v) {
        fields
    } else {
        array_strs(v)
    }
}

/// The fields that do not occur in `checked`, in order.
pub open spec fn unchecked_fields(fields: Seq<Seq<char>>, checked: Seq<Seq<char>>) -> Seq<Seq<char>>
    decreases fields.len(),
{
    if fields.len() == 0 {
        Seq::empty()
    } else if checked.contains(fields.last()) {
        unchecked_fields(fields.drop_last(), checked)
    } else {
        unchecked_fields(fields.drop_last(), checked).push(fields.last())
    }
}

/// The names of `extra` that neither `base` nor an earlier item of `extra` has.
pub open spec fn added_names(extra: Seq<Seq<char>>, base: Seq<Seq<char>>) -> Seq<Seq<char>>
    decreases extra.len(),
{
    if extra.len() == 0 {
        Seq::empty()
    } else {
        let prev = added_names(extra.drop_last(), base);
        if (base + prev).contains(extra.last()) {
            prev
        } else {
            prev.push(extra.last())
        }
    }
}

/// Each name with the same check mark.
pub open spec fn marked(names: Seq<Seq<char>>, checked: bool) -> Seq<(Seq<char>, bool)> {
    names.map_values(|n: Seq<char>| (n, checked))
}

/// The names of a list of items.
pub open spec fn names_of_items(items: Seq<(Seq<char>, bool)>) -> Seq<Seq<char>> {
    items.map_values(|i: (Seq<char>, bool)| i.0)
}

/// The items a field editor starts with for `value`. Ordered: the checked
/// fields first, in the value's order, then the other fields in ascending
/// order. Unordered: every field and every checked name once (names the
/// fields lack are added), in ascending order, each marked when checked.
pub open spec fn built_items(
    value: Json,
    fields: Seq<Seq<char>>,
    ordered: bool,
    views: Seq<(Seq<char>, bool)>,
) -> bool {
    let checked = checked_of(value, fields);
    if ordered {
        let rest = views.skip(checked.len() as int);
        &&& views.len() >= checked.len()
        &&& views.take(checked.len() as int) == marked(checked, true)
        &&& rest == marked(names_of_items(rest), false)
        &&& sorted_texts(names_of_items(rest))
        &&& names_of_items(rest).to_multiset() == unchecked_fields(fields, checked).to_multiset()
    } else {
        &&& sorted_texts(names_of_items(views))
        &&& names_of_items(views).to_multiset() == (fields + added_names(checked, fields)).to_multiset()
        &&& forall|i: int| 0 <= i < views.len() ==> (#[trigger] views[i]).1 == checked.contains(views[i].0)
    }
}

/// Whether a value is `["*"]`.
pub fn is_wildcard(v: &Json) -> (r: bool)
    ensures
        r == is_wildcard_value(*v),
{
    match v {
        Json::Array(a) => {
            if a.len() == 1 {
                match a[0].as_str() {
                    Some(t) => crate::text::str_eq(t, "*"),
                    None => false,
                }
            } else {
                false
            }
        },
        _ => false,
    }
}

/// The strings of an array value, in order (none for other values).
pub fn array_strings(v: &Json) -> (r: Vec<String>)
    ensures
        texts(r@) == array_strs(*v),
{
    let mut out: Vec<String> = Vec::new();
    match v {
        Json::Array(a) => {
            let mut i: usize = 0;
            while i < a.len()
                invariant
                    i <= a@.len(),
                    texts(out@) == strs_of(a@.take(i as int)),
                decreases a@.len() - i,
            {
                assert(a@.take(i + 1).drop_last() =~= a@.take(i as int));
                match a[i].as_str() {
                    Some(t) => {
                        push_text(&mut out, t);
                    },
                    None => {},
                }
                i = i + 1;
            }
            assert(a@.take(a@.len() as int) =~= a@);
        },
        _ => {
            assert(texts(out@) =~= Seq::<Seq<char>>::empty());
        },
    }
    out
}

/// Appends each name as an item with the given check mark.
fn push_items(items: &mut Vec<FieldItem>, names: &Vec<String>, checked: bool)
    ensures
        item_views(final(items)@) == item_views(old(items)@) + marked(texts(names@), checked),
{
    let mut i: usize = 0;
    while i < names.len()
        invariant
            i <= names@.len(),
            item_views(items@) == item_views(old(items)@) + marked(texts(names@).take(i as int), checked),
        decreases names@.len() - i,
    {
        let ghost before = items@;
        items.push(FieldItem { name: names[i].clone(), checked });
        assert(item_views(items@) =~= item_views(before).push((names@[i as int]@, checked)));
        assert(marked(texts(names@).take(i + 1), checked) =~= marked(texts(names@).take(i as int), checked).push((names@[i as int]@, checked)));
        i = i + 1;
    }
    assert(texts(names@).take(names@.len() as int) =~= texts(names@));
}

/// The items of `fields` that do not occur in `checked`.
fn unchecked_of(fields: &Vec<String>, checked: &Vec<String>) -> (r: Vec<String>)
    ensures
        texts(r@) == unchecked_fields(texts(fields@), texts(checked@)),
{
    let mut out: Vec<String> = Vec::new();
    let mut i: usize = 0;
    while i < fields.len()
        invariant
            i <= fields@.len(),
            texts(out@) == unchecked_fields(texts(fields@).take(i as int), texts(checked@)),
        decreases fields@.len() - i,
    {
        assert(texts(fields@).take(i + 1).drop_last() =~= texts(fields@).take(i as int));
        if !contains_text(checked, fields[i].as_str()) {
            push_text(&mut out, fields[i].as_str());
        }
        i = i + 1;
    }
    assert(texts(fields@).take(fields@.len() as int) =~= texts(fields@));
    out
}

/// `base` followed by the names of `extra` it does not have yet.
fn with_added(base: &Vec<String>, extra: &Vec<String>) -> (r: Vec<String>)
    ensures
        texts(r@) == texts(base@) + added_names(texts(extra@), texts(base@)),
{
    let mut out: Vec<String> = base.clone();
    assert(texts(out@) =~= texts(base@) + added_names(texts(extra@).take(0), texts(base@)));
    let mut i: usize = 0;
    while i < extra.len()
        invariant
            i <= extra@.len(),
            texts(out@) == texts(base@) + added_names(texts(extra@).take(i as int), texts(base@)),
        decreases extra@.len() - i,
    {
        assert(texts(extra@).take(i + 1).drop_last() =~= texts(extra@).take(i as int));
        if !contains_text(&out, extra[i].as_str()) {
            push_text(&mut out, extra[i].as_str());
        }
        i = i + 1;
    }
    assert(texts(extra@).take(extra@.len() as int) =~= texts(extra@));
    out
}

/// The field editor's items for a setting's value. Ordered: the checked
/// fields first, in the value's order, then the other fields in ascending
/// order. Unordered: every field and every checked name once, in ascending
/// order, each marked when checked. Also tells whether the value was the
/// wildcard.
pub fn build_field_items(value: &Json, fields: &Vec<String>, ordered: bool) -> (r: (
    Vec<FieldItem>,
    bool,
))
    ensures
        r.1 == is_wildcard_value(*value),
        built_items(*value, texts(fields@), ordered, item_views(r.0@)),
{
    let wildcard = is_wildcard(value);
    let checked: Vec<String> = if wildcard {
        fields.clone()
    } else {
        array_strings(value)
    };
    assert(texts(checked@) == checked_of(*value, texts(fields@)));
    let mut items: Vec<FieldItem> = Vec::new();
    if ordered {
        push_items(&mut items, &checked, true);
        let unchecked = unchecked_of(fields, &checked);
        let sorted = sort_strings(&unchecked);
        let ghost first = item_views(items@);
        push_items(&mut items, &sorted, false);
        proof {
            let views = item_views(items@);
            let n = texts(checked@).len() as int;
            assert(first =~= marked(texts(checked@), true));
            assert(views.take(n) =~= first);
            assert(views.skip(n) =~= marked(texts(sorted@), false));
            assert(names_of_items(views.skip(n)) =~= texts(sorted@));
        }
    } else {
        let all = with_added(fields, &checked);
        let sorted = sort_strings(&all);
        let mut i: usize = 0;
        while i < sorted.len()
            invariant
                i <= sorted@.len(),
                items@.len() == i,
                names_of_items(item_views(items@)) == texts(sorted@).take(i as int),
                forall|j: int| 0 <= j < i ==> (#[trigger] item_views(items@)[j]).1 == texts(checked@).contains(item_views(items@)[j].0),
            decreases sorted@.len() - i,
        {
            let mark = contains_text(&checked, sorted[i].as_str());
            let ghost before = items@;
            items.push(FieldItem { name: sorted[i].clone(), checked: mark });
            assert(item_views(items@) =~= item_views(before).push((sorted@[i as int]@, mark)));
            assert(names_of_items(item_views(items@)) =~= names_of_items(item_views(before)).push(sorted@[i as int]@));
            assert(names_of_items(item_views(items@)) =~= texts(sorted@).take(i + 1));
            i = i + 1;
        }
        assert(texts(sorted@).take(sorted@.len() as int) =~= texts(sorted@));
    }
    (items, wildcard)
}

/// The value a field editor stands for: `["*"]` for the wildcard, else the
/// checked names in order.
pub fn compute_field_value(items: &Vec<FieldItem>, ordered: bool, wildcard: bool) -> (r: Json)
    ensures
        str_items(r) == Some(
            if wildcard {
                seq!["*"@]
            } else {
                checked_names(item_views(items@))
            },
        ),
{
    let mut names: Vec<String> = Vec::new();
    if wildcard {
        push_text(&mut names, "*");
        assert(texts(names@) =~= seq!["*"@]);
    } else {
        let mut i: usize = 0;
        while i < items.len()
            invariant
                i <= items@.len(),
                texts(names@) == checked_names(item_views(items@).take(i as int)),
            decreases items@.len() - i,
        {
            assert(item_views(items@).take(i + 1).drop_last() =~= item_views(items@).take(i as int));
            if items[i].checked {
                push_text(&mut names, items[i].name.as_str());
            }
            i = i + 1;
        }
        assert(item_views(items@).take(items@.len() as int) =~= item_views(items@));
    }
    Json::from_strs(names.as_slice())
}

/// The editor open on a setting.
#[allow(inconsistent_fields)]
pub enum EditorState {
    Closed,
    Field { items: Vec<FieldItem>, cursor: usize, ordered: bool, wildcard: bool },
    StringList { items: Vec<String>, cursor: usize, input: String, adding: bool },
    Select { options: Vec<String>, cursor: usize },
    Number { input: String },
}

/// Checked items come before unchecked ones.
pub open spec fn checked_first(items: Seq<(Seq<char>, bool)>) -> bool {
    forall|i: int, j: int| 0 <= i < j < items.len() ==> (#[trigger] items[j]).1 ==> (#[trigger] items[i]).1
}

/// The editor's cursor is on an item (or at 0 on an empty list), and an
/// ordered field list keeps its checked items first.
pub open spec fn editor_wf(e: EditorState) -> bool {
    match e {
        EditorState::Closed => true,
        EditorState::Field { items, cursor, ordered, wildcard } => {
            &&& (cursor < items@.len() || cursor == 0)
            &&& (ordered ==> checked_first(item_views(items@)))
            &&& (wildcard ==> ordered)
        },
        EditorState::StringList { items, cursor, .. } => cursor < items@.len() || cursor == 0,
        EditorState::Select { options, cursor } => cursor < options@.len(),
        EditorState::Number { .. } => true,
    }
}

/// A value whose shape the editors produce.
pub enum Plain {
    Null,
    Text(Seq<char>),
    Count(nat),
    Texts(Seq<Seq<char>>),
}

/// Whether `j` is the value `p` describes.
pub open spec fn plain_matches(p: Plain, j: Json) -> bool {
    match p {
        Plain::Null => j is Null,
        Plain::Text(t) => j.spec_as_str() == Some(t),
        Plain::Count(n) => j matches Json::Number(x) && x@ == decimal(n),
        Plain::Texts(ts) => str_items(j) == Some(ts),
    }
}

/// The text of the option that stands for "no value".
pub open spec fn none_option() -> Seq<char> {
    "(none)"@
}

/// The value an editor stands for (none for the external JSON editor).
pub open spec fn editor_plain(e: EditorState) -> Option<Plain> {
    match e {
        EditorState::Closed => None,
        EditorState::Field { items, wildcard, .. } => Some(
            Plain::Texts(
                if wildcard {
                    seq!["*"@]
                } else {
                    checked_names(item_views(items@))
                },
            ),
        ),
        EditorState::StringList { items, .. } => Some(Plain::Texts(texts(items@))),
        EditorState::Select { options, cursor } => if options@[cursor as int]@ == none_option() {
            Some(Plain::Null)
        } else {
            Some(Plain::Text(options@[cursor as int]@))
        },
        EditorState::Number { input } => if input@.len() == 0 {
            Some(Plain::Null)
        } else {
            match number_text_u64(input@) {
                Some(n) => Some(Plain::Count(n as nat)),
                None => Some(Plain::Null),
            }
        },
    }
}

/// A value that matches `p` is the same document as `b` exactly when `b`
/// matches `p` too.
pub proof fn lemma_plain_same(p: Plain, a: Json, b: Json)
    requires
        plain_matches(p, a),
    ensures
        json_same(a, b) == plain_matches(p, b),
{
    match p {
        Plain::Texts(ts) => {
            if let Json::Array(x) = a {
                if let Json::Array(y) = b {
                    if json_same(a, b) {
                        assert forall|i: int| 0 <= i < y@.len() implies (#[trigger] y@[i]) is Str by {
                            assert(json_same(x@[i], y@[i]));
                            assert(x@[i] is Str);
                        }
                        assert(y@.map_values(|e: Json| e->Str_0@) =~= x@.map_values(|e: Json| e->Str_0@)) by {
                            assert forall|i: int| 0 <= i < y@.len() implies y@[i]->Str_0@ == x@[i]->Str_0@ by {
                                assert(json_same(x@[i], y@[i]));
                                assert(x@[i] is Str);
                            }
                        }
                    }
                    if plain_matches(p, b) {
                        assert(y@.len() == ts.len());
                        assert(x@.len() == ts.len());
                        assert forall|i: int| 0 <= i < x@.len() implies json_same(#[trigger] x@[i], y@[i]) by {
                            assert(x@[i] is Str);
                            assert(y@[i] is Str);
                            assert(y@.map_values(|e: Json| e->Str_0@)[i] == ts[i]);
                            assert(x@.map_values(|e: Json| e->Str_0@)[i] == ts[i]);
                        }
                    }
                }
            }
        },
        _ => {},
    }
}

/// Where the view is.
#[derive(PartialEq, Eq, Structural, Clone, Copy, Debug)]
pub enum SettingsView {
    ResourceList,
    Editor,
}

/// What the view asks of the program after a key press.
#[derive(PartialEq, Eq, Structural, Clone, Copy, Debug)]
pub enum SettingsAction {
    Continue,
    Quit,
    Save,
    /// Edit the setting at this index as JSON text.
    LaunchEditor(usize),
}

/// The interactive settings editor of one index.
pub struct SettingsState {
    pub uid: String,
    /// The settings as the server returned them.
    pub settings: Json,
    /// Values edited and not saved yet, by setting key.
    pub changes: Vec<(String, Json)>,
    /// The index's fields, in ascending order.
    pub fields: Vec<String>,
    pub resources: Vec<ResourceDef>,
    pub view: SettingsView,
    pub status_msg: String,
    pub confirm_quit: bool,
    pub res_cursor: usize,
    pub editing_idx: usize,
    pub editor: EditorState,
}

/// The server's value of setting `key` (null when absent).
pub open spec fn setting_of(settings: Json, key: Seq<char>) -> Json {
    match settings.spec_get(key) {
        Some(v) => v,
        None => Json::Null,
    }
}

/// Position of the first `x` in `s`.
pub open spec fn first_index(s: Seq<Seq<char>>, x: Seq<char>) -> Option<int>
    decreases s.len(),
{
    if s.len() == 0 {
        None
    } else if s[0] == x {
        Some(0)
    } else {
        match first_index(s.drop_first(), x) {
            Some(i) => Some(i + 1),
            None => None,
        }
    }
}

/// Position of the first `x` in `s`, or 0.
pub open spec fn position_or_zero(s: Seq<Seq<char>>, x: Seq<char>) -> int {
    match first_index(s, x) {
        Some(i) => i,
        None => 0,
    }
}

/// The text of a string value, or empty text.
pub open spec fn str_or_empty(v: Json) -> Seq<char> {
    match v.spec_as_str() {
        Some(t) => t,
        None => Seq::empty(),
    }
}

/// The editor that opens on a setting of this kind and value.
pub open spec fn editor_for(kind: KindView, value: Json, fields: Seq<Seq<char>>, e: EditorState) -> bool {
    match kind {
        KindView::FieldCheckbox => e matches EditorState::Field { items, cursor, ordered, wildcard }
            && cursor == 0 && !ordered && !wildcard && built_items(value, fields, false, item_views(items@)),
        KindView::FieldOrdered => e matches EditorState::Field { items, cursor, ordered, wildcard }
            && cursor == 0 && ordered && wildcard == is_wildcard_value(value) && built_items(
            value,
            fields,
            true,
            item_views(items@),
        ),
        KindView::StringList => e matches EditorState::StringList { items, cursor, input, adding }
            && cursor == 0 && input@.len() == 0 && !adding && texts(items@) == array_strs(value),
        KindView::SingleSelect => e matches EditorState::Select { options, cursor }
            && texts(options@).len() == fields.len() + 1 && texts(options@)[0] == none_option()
            && sorted_texts(texts(options@).drop_first()) && texts(options@).drop_first().to_multiset() == fields.to_multiset()
            && cursor == position_or_zero(texts(options@), str_or_empty(value)),
        KindView::EnumSelect(opts) => e matches EditorState::Select { options, cursor }
            && texts(options@) == opts && cursor == position_or_zero(opts, str_or_empty(value)),
        KindView::NumberInput => e matches EditorState::Number { input } && input@ == (match value {
            Json::Number(t) => t@,
            _ => Seq::empty(),
        }),
        KindView::JsonEditor => e is Closed,
    }
}

/// An enumerated setting offers at least one option.
pub open spec fn enum_options_present(k: KindView) -> bool {
    match k {
        KindView::EnumSelect(o) => o.len() > 0,
        _ => true,
    }
}

/// What editing setting `idx` as JSON text does: the edited value becomes
/// the pending change when it differs from the server's value (and the
/// status line says so), else the pending change is dropped; nothing else
/// changes.
pub open spec fn json_edit_effect(o: SettingsState, idx: int, edited: Json, n: SettingsState) -> bool {
    let key = o.resources@[idx]@.1;
    let slug = o.resources@[idx]@.0;
    let saved_value = setting_of(o.settings, key);
    &&& if json_same(edited, saved_value) {
        &&& member_lookup(n.changes@, key) is None
        &&& n.status_msg == o.status_msg
    } else {
        &&& member_lookup(n.changes@, key) == Some(edited)
        &&& n.status_msg@ == "Changed "@ + slug + ". Press s to save."@
    }
    &&& forall|other: Seq<char>| other != key ==> member_lookup(n.changes@, other) == member_lookup(o.changes@, other)
    &&& n.uid == o.uid
    &&& n.settings == o.settings
    &&& n.fields == o.fields
    &&& n.resources == o.resources
    &&& n.view == o.view
    &&& n.editor == o.editor
    &&& n.confirm_quit == o.confirm_quit
    &&& n.res_cursor == o.res_cursor
    &&& n.editing_idx == o.editing_idx
}

/// After a setting is edited as JSON, the view shows the edited value for
/// it (the same document, when it equals the server's value) and every
/// other setting as before.
pub proof fn law_edited_value_is_shown(o: SettingsState, idx: int, edited: Json, n: SettingsState)
    requires
        0 <= idx < o.resources@.len(),
        json_edit_effect(o, idx, edited, n),
    ensures
        json_same(edited, n.current_value(o.resources@[idx]@.1)),
        forall|other: Seq<char>|
            other != o.resources@[idx]@.1 ==> #[trigger] n.current_value(other) == o.current_value(other),
{
    crate::json::lemma_json_same_refl(edited);
}

impl SettingsState {
    /// The state stays usable: cursors on items, pending changes keyed once.
    pub open spec fn wf(&self) -> bool {
        &&& self.res_cursor < self.resources@.len()
        &&& self.editing_idx < self.resources@.len()
        &&& distinct_names(self.changes@)
        &&& editor_wf(self.editor)
        &&& forall|i: int| 0 <= i < self.resources@.len() ==> enum_options_present((#[trigger] self.resources@[i])@.2)
    }

    /// The value of setting `key` the view shows: the pending change, else
    /// the server's value.
    pub open spec fn pending_or_saved(&self, key: Seq<char>) -> Option<Json> {
        match member_lookup(self.changes@, key) {
            Some(v) => Some(v),
            None => self.settings.spec_get(key),
        }
    }

    /// `pending_or_saved`, null when the server has no value either.
    pub open spec fn current_value(&self, key: Seq<char>) -> Json {
        match self.pending_or_saved(key) {
            Some(v) => v,
            None => Json::Null,
        }
    }

    /// A fresh editor on `settings`, listing the settings of `resource_defs`.
    pub fn new(uid: String, settings: Json, fields: Vec<String>) -> (r: SettingsState)
        ensures
            r.wf(),
            r.uid == uid,
            r.settings == settings,
            r.changes@.len() == 0,
            sorted_texts(texts(r.fields@)),
            texts(r.fields@).to_multiset() == texts(fields@).to_multiset(),
            r.resources@.len() == resource_table().len(),
            forall|i: int| 0 <= i < r.resources@.len() ==> (#[trigger] r.resources@[i])@ == resource_table()[i],
            r.view == SettingsView::ResourceList,
            r.status_msg@.len() == 0,
            !r.confirm_quit,
            r.res_cursor == 0,
            r.editing_idx == 0,
            r.editor is Closed,
    {
        let sorted = sort_strings(&fields);
        let resources = resource_defs();
        proof {
            assert forall|i: int| 0 <= i < resources@.len() implies enum_options_present((#[trigger] resources@[i])@.2) by {
                assert(resources@[i]@ == resource_table()[i]);
            }
        }
        SettingsState {
            uid,
            settings,
            changes: Vec::new(),
            fields: sorted,
            resources,
            view: SettingsView::ResourceList,
            status_msg: String::new(),
            confirm_quit: false,
            res_cursor: 0,
            editing_idx: 0,
            editor: EditorState::Closed,
        }
    }

    /// The value of setting `key` the view shows (`None` stands for null).
    pub fn value_of(&self, key: &str) -> (r: Option<&Json>)
        ensures
            match r {
                Some(v) => self.pending_or_saved(key@) == Some(*v),
                None => self.pending_or_saved(key@) is None,
            },
    {
        match lookup(&self.changes, key) {
            Some(v) => Some(v),
            None => self.settings.get(key),
        }
    }
}

/// Position of the first `x` in `s`, or 0.
fn position_of(s: &Vec<String>, x: &str) -> (r: usize)
    ensures
        r == position_or_zero(texts(s@), x@),
        s@.len() > 0 ==> r < s@.len(),
{
    let mut i: usize = 0;
    assert(texts(s@).skip(0) =~= texts(s@));
    while i < s.len()
        invariant
            i <= s@.len(),
            first_index(texts(s@), x@) == match first_index(texts(s@).skip(i as int), x@) {
                Some(j) => Some(j + i),
                None => None,
            },
        decreases s@.len() - i,
    {
        assert(texts(s@).skip(i as int).drop_first() =~= texts(s@).skip(i + 1));
        if str_eq(s[i].as_str(), x) {
            return i;
        }
        i = i + 1;
    }
    0
}

/// The options of an enumerated setting, as strings.
fn option_strings(opts: &Vec<&'static str>) -> (r: Vec<String>)
    ensures
        texts(r@) == opts@.map_values(|o: &str| o@),
{
    let mut out: Vec<String> = Vec::new();
    let mut i: usize = 0;
    while i < opts.len()
        invariant
            i <= opts@.len(),
            texts(out@) == opts@.map_values(|o: &str| o@).take(i as int),
        decreases opts@.len() - i,
    {
        push_text(&mut out, opts[i]);
        assert(opts@.map_values(|o: &str| o@).take(i + 1) =~= opts@.map_values(|o: &str| o@).take(i as int).push(opts@[i as int]@));
        i = i + 1;
    }
    assert(opts@.map_values(|o: &str| o@).take(opts@.len() as int) =~= opts@.map_values(|o: &str| o@));
    out
}

/// Ordered items as `built_items` lays them out keep checked ones first.
proof fn lemma_built_checked_first(value: Json, fields: Seq<Seq<char>>, views: Seq<(Seq<char>, bool)>)
    requires
        built_items(value, fields, true, views),
    ensures
        checked_first(views),
{
    let n = checked_of(value, fields).len() as int;
    assert forall|i: int, j: int| 0 <= i < j < views.len() && (#[trigger] views[j]).1 implies (
    #[trigger] views[i]).1 by {
        if j >= n {
            assert(views.skip(n)[j - n] == views[j]);
            assert(marked(names_of_items(views.skip(n)), false)[j - n].1 == false);
        }
        assert(views.take(n)[i] == views[i]);
        assert(marked(checked_of(value, fields), true)[i].1);
    }
}

/// Leaving an editor as `exit_editor` does: the setting is recorded as
/// changed exactly when the editor's value differs from the server's.
pub open spec fn exited(old: SettingsState, new: SettingsState) -> bool {
    let key = old.resources@[old.editing_idx as int]@.1;
    let p = editor_plain(old.editor)->Some_0;
    let saved_value = setting_of(old.settings, key);
    &&& match member_lookup(new.changes@, key) {
        Some(v) => plain_matches(p, v) && !plain_matches(p, saved_value),
        None => plain_matches(p, saved_value),
    }
    &&& forall|other: Seq<char>|
        other != key ==> member_lookup(new.changes@, other) == member_lookup(old.changes@, other)
    &&& new.view == SettingsView::ResourceList
    &&& new.editor is Closed
    &&& new.uid == old.uid
    &&& new.settings == old.settings
    &&& new.fields == old.fields
    &&& new.resources == old.resources
    &&& new.status_msg == old.status_msg
    &&& new.confirm_quit == old.confirm_quit
    &&& new.res_cursor == old.res_cursor
    &&& new.editing_idx == old.editing_idx
}

/// After an editor is left, the view shows the value the editor was left
/// with for that setting, and every other setting as before.
pub proof fn law_closed_editor_value_is_shown(o: SettingsState, n: SettingsState)
    requires
        o.editing_idx < o.resources@.len(),
        editor_plain(o.editor) is Some,
        exited(o, n),
    ensures
        plain_matches(editor_plain(o.editor)->Some_0, n.current_value(o.resources@[o.editing_idx as int]@.1)),
        forall|other: Seq<char>|
            other != o.resources@[o.editing_idx as int]@.1 ==> #[trigger] n.current_value(other)
                == o.current_value(other),
{
}

impl SettingsState {
    /// Opens the editor of setting `idx` on the value the view shows.
    pub fn enter_editor(&mut self, idx: usize)
        requires
            old(self).wf(),
            idx < old(self).resources@.len(),
        ensures
            final(self).wf(),
            final(self).editing_idx == idx,
            final(self).view == SettingsView::Editor,
            editor_for(
                old(self).resources@[idx as int]@.2,
                old(self).current_value(old(self).resources@[idx as int]@.1),
                texts(old(self).fields@),
                final(self).editor,
            ),
            final(self).uid == old(self).uid,
            final(self).settings == old(self).settings,
            final(self).changes == old(self).changes,
            final(self).fields == old(self).fields,
            final(self).resources == old(self).resources,
            final(self).status_msg == old(self).status_msg,
            final(self).confirm_quit == old(self).confirm_quit,
            final(self).res_cursor == old(self).res_cursor,
    {
        let ghost value = self.current_value(self.resources@[idx as int]@.1);
        let key = self.resources[idx].key;
        let null = Json::Null;
        let value_ref: &Json = match self.value_of(key) {
            Some(v) => v,
            None => &null,
        };
        assert(*value_ref == value);
        let current: &str = match value_ref.as_str() {
            Some(t) => t,
            None => "",
        };
        assert(current@ == str_or_empty(value)) by {
            reveal_strlit("");
        }
        let ghost kv = self.resources@[idx as int]@.2;
        let ghost fields = texts(self.fields@);
        let editor = match &self.resources[idx].kind {
            EditorKind::FieldCheckbox => {
                let (items, _w) = build_field_items(value_ref, &self.fields, false);
                let e = EditorState::Field { items, cursor: 0, ordered: false, wildcard: false };
                assert(editor_for(kv, value, fields, e));
                e
            },
            EditorKind::FieldOrdered => {
                let (items, wildcard) = build_field_items(value_ref, &self.fields, true);
                proof {
                    lemma_built_checked_first(value, texts(self.fields@), item_views(items@));
                }
                let e = EditorState::Field { items, cursor: 0, ordered: true, wildcard };
                assert(editor_for(kv, value, fields, e));
                e
            },
            EditorKind::StringList => {
                let items = array_strings(value_ref);
                let e = EditorState::StringList { items, cursor: 0, input: String::new(), adding: false };
                assert(editor_for(kv, value, fields, e));
                e
            },
            EditorKind::SingleSelect => {
                let mut options: Vec<String> = Vec::new();
                push_text(&mut options, "(none)");
                let sorted = sort_strings(&self.fields);
                let mut i: usize = 0;
                while i < sorted.len()
                    invariant
                        i <= sorted@.len(),
                        texts(options@) == seq![none_option()] + texts(sorted@).take(i as int),
                    decreases sorted@.len() - i,
                {
                    push_text(&mut options, sorted[i].as_str());
                    assert(texts(sorted@).take(i + 1) =~= texts(sorted@).take(i as int).push(sorted@[i as int]@));
                    assert(texts(options@) =~= seq![none_option()] + texts(sorted@).take(i + 1));
                    i = i + 1;
                }
                assert(texts(sorted@).take(sorted@.len() as int) =~= texts(sorted@));
                assert(texts(options@).drop_first() =~= texts(sorted@));
                proof {
                    vstd::seq_lib::to_multiset_len(texts(sorted@));
                    vstd::seq_lib::to_multiset_len(texts(self.fields@));
                }
                let cursor = position_of(&options, current);
                let e = EditorState::Select { options, cursor };
                assert(editor_for(kv, value, fields, e));
                e
            },
            EditorKind::EnumSelect(opts) => {
                let options = option_strings(opts);
                proof {
                    assert(enum_options_present(self.resources@[idx as int]@.2));
                }
                let cursor = position_of(&options, current);
                let e = EditorState::Select { options, cursor };
                assert(editor_for(kv, value, fields, e));
                e
            },
            EditorKind::NumberInput => {
                let input = match value_ref {
                    Json::Number(t) => t.clone(),
                    _ => String::new(),
                };
                let e = EditorState::Number { input };
                assert(editor_for(kv, value, fields, e));
                e
            },
            EditorKind::JsonEditor => EditorState::Closed,
        };
        self.editing_idx = idx;
        self.view = SettingsView::Editor;
        self.editor = editor;
    }

    /// Leaves the open editor: records its value as a pending change when it
    /// differs from the server's value, and drops the pending change when it
    /// does not. Without an open editor nothing changes.
    pub fn exit_editor(&mut self)
        requires
            old(self).wf(),
        ensures
            final(self).wf(),
            old(self).editor is Closed ==> *final(self) == *old(self),
            !(old(self).editor is Closed) ==> exited(*old(self), *final(self)),
    {
        let ghost p = editor_plain(self.editor)->Some_0;
        let new_value: Json = match &self.editor {
            EditorState::Closed => {
                return ;
            },
            EditorState::Field { items, ordered, wildcard, .. } => compute_field_value(
                items,
                *ordered,
                *wildcard,
            ),
            EditorState::StringList { items, .. } => Json::from_strs(items.as_slice()),
            EditorState::Select { options, cursor } => {
                let selected = options[*cursor].as_str();
                if str_eq(selected, "(none)") {
                    Json::Null
                } else {
                    Json::from_str(selected)
                }
            },
            EditorState::Number { input } => {
                if input.as_str().is_empty() {
                    Json::Null
                } else {
                    match parse_u64(input.as_str()) {
                        Some(n) => Json::from_u64(n),
                        None => Json::Null,
                    }
                }
            },
        };
        assert(plain_matches(p, new_value));
        let key = self.resources[self.editing_idx].key;
        let ghost saved_value = setting_of(self.settings, key@);
        let same = match self.settings.get(key) {
            Some(o) => json_eq(&new_value, o),
            None => new_value.is_null(),
        };
        proof {
            lemma_plain_same(p, new_value, saved_value);
        }
        if !same {
            set_member(&mut self.changes, key, new_value);
        } else {
            remove_member(&mut self.changes, key);
        }
        self.view = SettingsView::ResourceList;
        self.editor = EditorState::Closed;
    }
}

/// Items `i` and `i + 1` trade places.
pub open spec fn swap_next<T>(s: Seq<T>, i: int) -> Seq<T> {
    s.update(i, s[i + 1]).update(i + 1, s[i])
}

/// The number of checked items.
pub open spec fn count_checked(s: Seq<(Seq<char>, bool)>) -> nat
    decreases s.len(),
{
    if s.len() == 0 {
        0
    } else {
        count_checked(s.drop_last()) + if s.last().1 {
            1nat
        } else {
            0nat
        }
    }
}

/// The first unchecked position (the length when all are checked).
pub open spec fn first_unchecked(s: Seq<(Seq<char>, bool)>) -> int
    decreases s.len(),
{
    if s.len() == 0 {
        0
    } else if !s[0].1 {
        0
    } else {
        first_unchecked(s.drop_first()) + 1
    }
}

/// The first position from `from` on whose name is greater than `name`
/// (the length when there is none).
pub open spec fn first_greater(s: Seq<(Seq<char>, bool)>, from: int, name: Seq<char>) -> int
    decreases s.len() - from,
{
    if from >= s.len() || from < 0 {
        s.len() as int
    } else if lex_lt(name, s[from].0) {
        from
    } else {
        first_greater(s, from + 1, name)
    }
}

/// Unchecking item `c` of an ordered list: it moves among the unchecked
/// items, before the first one whose name is greater.
pub open spec fn uncheck_at(s: Seq<(Seq<char>, bool)>, c: int) -> Seq<(Seq<char>, bool)> {
    let r = s.remove(c);
    r.insert(first_greater(r, first_unchecked(r), s[c].0), (s[c].0, false))
}

/// Checking item `c` of an ordered list: it becomes the last checked item.
pub open spec fn check_at(s: Seq<(Seq<char>, bool)>, c: int) -> Seq<(Seq<char>, bool)> {
    let r = s.remove(c);
    r.insert(count_checked(r) as int, (s[c].0, true))
}

/// A key in a field editor other than Esc: new items, cursor and wildcard
/// mark. Shift+Up/Down move a checked item past its checked neighbour in an
/// ordered list; Space toggles; `*` turns the wildcard on (ordered lists)
/// or off.
pub open spec fn field_step(
    s: Seq<(Seq<char>, bool)>,
    c: int,
    ordered: bool,
    wildcard: bool,
    key: Key,
) -> (Seq<(Seq<char>, bool)>, int, bool) {
    if wildcard {
        (s, c, key.code != KeyCode::Char('*'))
    } else {
        match key.code {
            KeyCode::Up => if key.shift && ordered {
                if s[c].1 && c > 0 && s[c - 1].1 {
                    (swap_next(s, c - 1), c - 1, false)
                } else {
                    (s, c, false)
                }
            } else if c > 0 {
                (s, c - 1, false)
            } else {
                (s, c, false)
            },
            KeyCode::Down => if key.shift && ordered {
                if s[c].1 && c + 1 < s.len() && s[c + 1].1 {
                    (swap_next(s, c), c + 1, false)
                } else {
                    (s, c, false)
                }
            } else if c + 1 < s.len() {
                (s, c + 1, false)
            } else {
                (s, c, false)
            },
            KeyCode::Char(ch) => if ch == ' ' {
                if ordered {
                    if s[c].1 {
                        (uncheck_at(s, c), c, false)
                    } else {
                        (check_at(s, c), count_checked(s.remove(c)) as int, false)
                    }
                } else {
                    (s.update(c, (s[c].0, !s[c].1)), c, false)
                }
            } else {
                (s, c, ch == '*' && ordered)
            },
            _ => (s, c, false),
        }
    }
}

/// The keys that index an empty field list: the program stops on them.
pub open spec fn field_key_fails(len: nat, ordered: bool, wildcard: bool, key: Key) -> bool {
    &&& !wildcard
    &&& len == 0
    &&& (key.code == KeyCode::Char(' ') || (key.shift && ordered && (key.code == KeyCode::Up
        || key.code == KeyCode::Down)))
}

/// In a list with checked items first, the checked ones are exactly those
/// before `first_unchecked`, and there are `count_checked` of them.
proof fn lemma_checked_prefix(s: Seq<(Seq<char>, bool)>)
    requires
        checked_first(s),
    ensures
        0 <= first_unchecked(s) <= s.len(),
        first_unchecked(s) == count_checked(s),
        forall|i: int| 0 <= i < s.len() ==> ((#[trigger] s[i]).1 <==> i < first_unchecked(s)),
    decreases s.len(),
{
    if s.len() > 0 {
        let t = s.drop_first();
        assert forall|i: int, j: int| 0 <= i < j < t.len() && (#[trigger] t[j]).1 implies (#[trigger] t[i]).1 by {
            assert(t[j] == s[j + 1] && t[i] == s[i + 1]);
        }
        lemma_checked_prefix(t);
        lemma_count_first(s);
        if !s[0].1 {
            assert forall|i: int| 0 <= i < s.len() implies !(#[trigger] s[i]).1 by {
                if i > 0 && s[i].1 {
                    assert(s[0].1);
                }
            }
            lemma_count_none(s);
        } else {
            assert forall|i: int| 0 <= i < s.len() implies ((#[trigger] s[i]).1 <==> i < first_unchecked(s)) by {
                if i > 0 {
                    assert(t[i - 1] == s[i]);
                }
            }
        }
    }
}

/// Counting from the front.
proof fn lemma_count_first(s: Seq<(Seq<char>, bool)>)
    requires
        s.len() > 0,
    ensures
        count_checked(s) == count_checked(s.drop_first()) + if s[0].1 {
            1nat
        } else {
            0nat
        },
    decreases s.len(),
{
    if s.len() > 1 {
        lemma_count_first(s.drop_last());
        assert(s.drop_last().drop_first() =~= s.drop_first().drop_last());
        assert(s.drop_first().last() == s.last());
        assert(s.drop_last()[0] == s[0]);
        assert(count_checked(s.drop_first()) == count_checked(s.drop_first().drop_last()) + if s.last().1 {
            1nat
        } else {
            0nat
        });
    } else {
        assert(s.drop_first().len() == 0);
        assert(s.drop_last().len() == 0);
        assert(count_checked(s.drop_last()) == 0);
        assert(count_checked(s.drop_first()) == 0);
        assert(s.last() == s[0]);
    }
}

/// No checked item, no count.
proof fn lemma_count_none(s: Seq<(Seq<char>, bool)>)
    requires
        forall|i: int| 0 <= i < s.len() ==> !(#[trigger] s[i]).1,
    ensures
        count_checked(s) == 0,
    decreases s.len(),
{
    if s.len() > 0 {
        assert forall|i: int| 0 <= i < s.drop_last().len() implies !(#[trigger] s.drop_last()[i]).1 by {
            assert(s.drop_last()[i] == s[i]);
        }
        lemma_count_none(s.drop_last());
    }
}

/// `first_greater` lands in `from..=len`.
proof fn lemma_first_greater_range(s: Seq<(Seq<char>, bool)>, from: int, name: Seq<char>)
    requires
        0 <= from <= s.len(),
    ensures
        from <= first_greater(s, from, name) <= s.len(),
    decreases s.len() - from,
{
    if from < s.len() && !lex_lt(name, s[from].0) {
        lemma_first_greater_range(s, from + 1, name);
    }
}

/// The names of the items.
pub open spec fn field_names(s: Seq<(Seq<char>, bool)>) -> Seq<Seq<char>> {
    s.map_values(|i: (Seq<char>, bool)| i.0)
}

/// Inserting into a list and taking names commute.
proof fn lemma_names_insert(s: Seq<(Seq<char>, bool)>, i: int, x: (Seq<char>, bool))
    requires
        0 <= i <= s.len(),
    ensures
        field_names(s.insert(i, x)) == field_names(s).insert(i, x.0),
{
    assert(field_names(s.insert(i, x)) =~= field_names(s).insert(i, x.0));
}

/// Removing from a list and taking names commute.
proof fn lemma_names_remove(s: Seq<(Seq<char>, bool)>, i: int)
    requires
        0 <= i < s.len(),
    ensures
        field_names(s.remove(i)) == field_names(s).remove(i),
{
    assert(field_names(s.remove(i)) =~= field_names(s).remove(i));
}

/// Every key of an ordered field editor keeps the checked items before the
/// unchecked ones.
pub proof fn law_field_step_keeps_checked_first(
    s: Seq<(Seq<char>, bool)>,
    c: int,
    wildcard: bool,
    key: Key,
)
    requires
        checked_first(s),
        0 <= c < s.len() || (c == 0 && !field_key_fails(s.len(), true, wildcard, key)),
    ensures
        checked_first(field_step(s, c, true, wildcard, key).0),
{
    let r = field_step(s, c, true, wildcard, key).0;
    if !wildcard && key.code == KeyCode::Char(' ') {
        lemma_checked_prefix(s);
        let t = s.remove(c);
        assert forall|i: int, j: int| 0 <= i < j < t.len() && (#[trigger] t[j]).1 implies (#[trigger] t[i]).1 by {
            let i0 = if i < c { i } else { i + 1 };
            let j0 = if j < c { j } else { j + 1 };
            assert(t[i] == s[i0] && t[j] == s[j0]);
        }
        lemma_checked_prefix(t);
        let k = first_unchecked(t);
        if s[c].1 {
            lemma_first_greater_range(t, k, s[c].0);
            let p = first_greater(t, k, s[c].0);
            assert forall|i: int, j: int| 0 <= i < j < r.len() && (#[trigger] r[j]).1 implies (#[trigger] r[i]).1 by {
                let j0 = if j < p { j } else if j == p { -1 } else { j - 1 };
                if j0 >= 0 {
                    assert(r[j] == t[j0]);
                    assert(j0 < k);
                    assert(i < k);
                    assert(r[i] == t[i]);
                } else {
                    assert(r[j] == (s[c].0, false));
                }
            }
        } else {
            assert forall|i: int, j: int| 0 <= i < j < r.len() && (#[trigger] r[j]).1 implies (#[trigger] r[i]).1 by {
                if j < k {
                    assert(r[j] == t[j] && r[i] == t[i]);
                } else if j == k {
                    assert(r[i] == t[i]);
                } else {
                    assert(r[j] == t[j - 1]);
                    assert(!t[j - 1].1);
                }
            }
        }
    } else if !wildcard && (key.code == KeyCode::Up || key.code == KeyCode::Down) && key.shift {
        assert forall|i: int, j: int| 0 <= i < j < r.len() && (#[trigger] r[j]).1 implies (#[trigger] r[i]).1 by {
            if r != s {
                let a = if key.code == KeyCode::Up { c - 1 } else { c };
                assert(s[a].1 && s[a + 1].1);
                if j == a || j == a + 1 {
                    assert(s[j].1 || true);
                    if i != a && i != a + 1 {
                        assert(r[i] == s[i]);
                        assert(s[a].1);
                    }
                } else {
                    assert(r[j] == s[j]);
                    if i != a && i != a + 1 {
                        assert(r[i] == s[i]);
                    }
                }
            }
        }
    }
}

/// Every key of a field editor keeps the same names, only reordered or
/// re-marked.
pub proof fn law_field_step_keeps_names(
    s: Seq<(Seq<char>, bool)>,
    c: int,
    ordered: bool,
    wildcard: bool,
    key: Key,
)
    requires
        0 <= c < s.len() || (c == 0 && !field_key_fails(s.len(), ordered, wildcard, key)),
    ensures
        field_names(field_step(s, c, ordered, wildcard, key).0).to_multiset() == field_names(s).to_multiset(),
{
    broadcast use vstd::seq_lib::group_to_multiset_ensures;

    let r = field_step(s, c, ordered, wildcard, key).0;
    if !wildcard && key.code == KeyCode::Char(' ') {
        if ordered {
            let t = s.remove(c);
            lemma_names_remove(s, c);
            let p = if s[c].1 {
                first_greater(t, first_unchecked(t), s[c].0)
            } else {
                count_checked(t) as int
            };
            if s[c].1 {
                lemma_checked_prefix_range(t);
                lemma_first_greater_range(t, first_unchecked(t), s[c].0);
            } else {
                lemma_count_bound(t);
            }
            let x = (s[c].0, s[c].1 == false);
            lemma_names_insert(t, p, x);
            assert(field_names(r) == field_names(t).insert(p, s[c].0));
            assert(field_names(s)[c] == s[c].0);
        } else {
            assert(field_names(r) =~= field_names(s));
        }
    } else if !wildcard && (key.code == KeyCode::Up || key.code == KeyCode::Down) {
        if r != s {
            let a = if key.code == KeyCode::Up && key.shift && ordered { c - 1 } else { c };
            if key.shift && ordered {
                let n = field_names(s);
                assert(field_names(r) =~= n.update(a, n[a + 1]).update(a + 1, n[a]));
                assert(n.update(a, n[a + 1]).to_multiset() == n.to_multiset().insert(n[a + 1]).remove(n[a]));
                assert(n.update(a, n[a + 1]).update(a + 1, n[a]).to_multiset() == n.update(a, n[a + 1]).to_multiset().insert(n[a]).remove(n[a + 1]));
                assert(n.to_multiset().insert(n[a + 1]).remove(n[a]).insert(n[a]).remove(n[a + 1]) =~= n.to_multiset());
            }
        }
    }
}

/// The unchecked items come in ascending order of name.
pub open spec fn unchecked_sorted(s: Seq<(Seq<char>, bool)>) -> bool {
    forall|i: int, j: int|
        0 <= i < j < s.len() && !(#[trigger] s[i]).1 && !(#[trigger] s[j]).1 ==> !lex_lt(s[j].0, s[i].0)
}

/// `first_greater` stops at the first name greater than `name`.
proof fn lemma_first_greater(s: Seq<(Seq<char>, bool)>, from: int, name: Seq<char>)
    requires
        0 <= from <= s.len(),
    ensures
        from <= first_greater(s, from, name) <= s.len(),
        forall|q: int| from <= q < first_greater(s, from, name) ==> !lex_lt(name, #[trigger] s[q].0),
        first_greater(s, from, name) < s.len() ==> lex_lt(name, s[first_greater(s, from, name)].0),
    decreases s.len() - from,
{
    if from < s.len() && !lex_lt(name, s[from].0) {
        lemma_first_greater(s, from + 1, name);
    }
}

/// The items left after removing one keep checked items first and the
/// unchecked ones in order.
proof fn lemma_remove_keeps_order(s: Seq<(Seq<char>, bool)>, c: int)
    requires
        checked_first(s),
        unchecked_sorted(s),
        0 <= c < s.len(),
    ensures
        checked_first(s.remove(c)),
        unchecked_sorted(s.remove(c)),
{
    let t = s.remove(c);
    assert forall|i: int, j: int| 0 <= i < j < t.len() && (#[trigger] t[j]).1 implies (#[trigger] t[i]).1 by {
        let i0 = if i < c { i } else { i + 1 };
        let j0 = if j < c { j } else { j + 1 };
        assert(t[i] == s[i0] && t[j] == s[j0]);
    }
    assert forall|i: int, j: int|
        0 <= i < j < t.len() && !(#[trigger] t[i]).1 && !(#[trigger] t[j]).1 implies !lex_lt(t[j].0, t[i].0) by {
        let i0 = if i < c { i } else { i + 1 };
        let j0 = if j < c { j } else { j + 1 };
        assert(t[i] == s[i0] && t[j] == s[j0]);
    }
}

/// Unchecking keeps the unchecked items in order.
proof fn lemma_uncheck_sorted(s: Seq<(Seq<char>, bool)>, c: int)
    requires
        checked_first(s),
        unchecked_sorted(s),
        0 <= c < s.len(),
        s[c].1,
    ensures
        unchecked_sorted(uncheck_at(s, c)),
{
    let t = s.remove(c);
    lemma_remove_keeps_order(s, c);
    lemma_checked_prefix(t);
    let k = first_unchecked(t);
    let name = s[c].0;
    lemma_first_greater(t, k, name);
    let p = first_greater(t, k, name);
    let r = uncheck_at(s, c);
    assert(r == t.insert(p, (name, false)));
    assert forall|i: int, j: int|
        0 <= i < j < r.len() && !(#[trigger] r[i]).1 && !(#[trigger] r[j]).1 implies !lex_lt(r[j].0, r[i].0) by {
        if j < p {
            assert(r[i] == t[i] && r[j] == t[j]);
        } else if i > p {
            assert(r[i] == t[i - 1] && r[j] == t[j - 1]);
        } else if i < p && j > p {
            assert(r[i] == t[i] && r[j] == t[j - 1]);
        } else if i == p {
            assert(r[i] == (name, false));
            assert(r[j] == t[j - 1]);
            assert(p < t.len());
            assert(lex_lt(name, t[p].0));
            assert(!t[p].1);
            if j - 1 == p {
                crate::text::lemma_lex_trichotomy(name, t[p].0);
            } else {
                assert(!lex_lt(t[j - 1].0, t[p].0));
                if lex_lt(t[j - 1].0, name) {
                    crate::text::lemma_lex_transitive(t[j - 1].0, name, t[p].0);
                }
            }
        } else {
            assert(j == p);
            assert(r[j] == (name, false));
            assert(r[i] == t[i]);
            assert(!t[i].1);
            assert(i >= k);
        }
    }
}

/// Checking keeps the unchecked items in order.
proof fn lemma_check_sorted(s: Seq<(Seq<char>, bool)>, c: int)
    requires
        checked_first(s),
        unchecked_sorted(s),
        0 <= c < s.len(),
        !s[c].1,
    ensures
        unchecked_sorted(check_at(s, c)),
{
    let t = s.remove(c);
    lemma_remove_keeps_order(s, c);
    lemma_checked_prefix(t);
    let k = count_checked(t) as int;
    let r = check_at(s, c);
    assert(r == t.insert(k, (s[c].0, true)));
    assert forall|i: int, j: int|
        0 <= i < j < r.len() && !(#[trigger] r[i]).1 && !(#[trigger] r[j]).1 implies !lex_lt(r[j].0, r[i].0) by {
        if i == k {
            assert(r[i].1);
        } else if j == k {
            assert(r[j].1);
        } else if j < k {
            assert(r[i] == t[i] && r[j] == t[j]);
        } else if i > k {
            assert(r[i] == t[i - 1] && r[j] == t[j - 1]);
        } else {
            assert(r[i] == t[i] && r[j] == t[j - 1]);
        }
    }
}

/// Every key of an ordered field editor keeps the unchecked items in
/// ascending order of name.
pub proof fn law_field_step_keeps_unchecked_sorted(
    s: Seq<(Seq<char>, bool)>,
    c: int,
    wildcard: bool,
    key: Key,
)
    requires
        checked_first(s),
        unchecked_sorted(s),
        0 <= c < s.len() || (c == 0 && !field_key_fails(s.len(), true, wildcard, key)),
    ensures
        unchecked_sorted(field_step(s, c, true, wildcard, key).0),
{
    let r = field_step(s, c, true, wildcard, key).0;
    if !wildcard && key.code == KeyCode::Char(' ') {
        if s[c].1 {
            lemma_uncheck_sorted(s, c);
        } else {
            lemma_check_sorted(s, c);
        }
    } else if !wildcard && (key.code == KeyCode::Up || key.code == KeyCode::Down) && key.shift && r != s {
        let a = if key.code == KeyCode::Up { c - 1 } else { c };
        assert(s[a].1 && s[a + 1].1);
        assert(r == swap_next(s, a));
        assert forall|i: int, j: int|
            0 <= i < j < r.len() && !(#[trigger] r[i]).1 && !(#[trigger] r[j]).1 implies !lex_lt(r[j].0, r[i].0) by {
            if i != a && i != a + 1 && j != a && j != a + 1 {
                assert(r[i] == s[i] && r[j] == s[j]);
            } else if i == a || i == a + 1 {
                assert(r[i].1);
            } else {
                assert(r[j].1);
            }
        }
    }
}

/// An item list read as names from the front: the checked names of checked
/// items followed by unchecked ones are those checked names.
proof fn lemma_checked_marked(c: Seq<Seq<char>>, u: Seq<Seq<char>>)
    ensures
        checked_names(marked(c, true) + marked(u, false)) == c,
    decreases c.len() + u.len(),
{
    let x = marked(c, true) + marked(u, false);
    if u.len() > 0 {
        assert(x.drop_last() =~= marked(c, true) + marked(u.drop_last(), false));
        assert(!x.last().1);
        lemma_checked_marked(c, u.drop_last());
    } else if c.len() > 0 {
        assert(x.drop_last() =~= marked(c.drop_last(), true) + marked(Seq::<Seq<char>>::empty(), false));
        assert(x.last() == (c.last(), true));
        lemma_checked_marked(c.drop_last(), Seq::empty());
        assert(c =~= c.drop_last().push(c.last()));
    } else {
        assert(x.len() == 0);
    }
}

/// The string items of a list whose items are all strings.
proof fn lemma_strs_all(a: Seq<Json>)
    requires
        forall|i: int| 0 <= i < a.len() ==> (#[trigger] a[i]) is Str,
    ensures
        strs_of(a) == a.map_values(|e: Json| e->Str_0@),
    decreases a.len(),
{
    if a.len() > 0 {
        assert forall|i: int| 0 <= i < a.drop_last().len() implies (#[trigger] a.drop_last()[i]) is Str by {
            assert(a.drop_last()[i] == a[i]);
        }
        lemma_strs_all(a.drop_last());
        assert(a.last() is Str);
        assert(a.map_values(|e: Json| e->Str_0@) =~= a.drop_last().map_values(|e: Json| e->Str_0@).push(
            a.last()->Str_0@,
        ));
    } else {
        assert(a.map_values(|e: Json| e->Str_0@) =~= Seq::<Seq<char>>::empty());
    }
}

/// Opening an ordered field editor on a list of names and leaving it
/// untouched gives the same list back (`["*"]` included): `views` are the
/// items the editor opens with, and `r` is the value it closes with.
pub proof fn law_untouched_field_editor_gives_value_back(
    v: Json,
    fields: Seq<Seq<char>>,
    views: Seq<(Seq<char>, bool)>,
    r: Json,
)
    requires
        str_items(v) is Some,
        built_items(v, fields, true, views),
        str_items(r) == Some(
            if is_wildcard_value(v) {
                seq!["*"@]
            } else {
                checked_names(views)
            },
        ),
    ensures
        json_same(r, v),
{
    let a = v->Array_0@;
    lemma_strs_all(a);
    let ts = str_items(r)->Some_0;
    if is_wildcard_value(v) {
        assert(a.map_values(|e: Json| e->Str_0@) =~= seq!["*"@]);
    } else {
        let checked = checked_of(v, fields);
        let k = checked.len() as int;
        let rest = views.skip(k);
        assert(views =~= views.take(k) + rest);
        lemma_checked_marked(checked, names_of_items(rest));
        assert(checked_names(views) == checked);
    }
    lemma_plain_same(Plain::Texts(ts), r, v);
}

/// `first_unchecked` lands in `0..=len`.
proof fn lemma_checked_prefix_range(s: Seq<(Seq<char>, bool)>)
    ensures
        0 <= first_unchecked(s) <= s.len(),
    decreases s.len(),
{
    if s.len() > 0 && s[0].1 {
        lemma_checked_prefix_range(s.drop_first());
    }
}

/// There are at most as many checked items as items.
proof fn lemma_count_bound(s: Seq<(Seq<char>, bool)>)
    ensures
        count_checked(s) <= s.len(),
    decreases s.len(),
{
    if s.len() > 0 {
        lemma_count_bound(s.drop_last());
    }
}

/// The number of checked items.
fn count_checked_items(items: &Vec<FieldItem>) -> (r: usize)
    ensures
        r == count_checked(item_views(items@)),
{
    let mut n: usize = 0;
    let mut i: usize = 0;
    while i < items.len()
        invariant
            i <= items@.len(),
            n <= i,
            n == count_checked(item_views(items@).take(i as int)),
        decreases items@.len() - i,
    {
        assert(item_views(items@).take(i + 1).drop_last() =~= item_views(items@).take(i as int));
        if items[i].checked {
            n = n + 1;
        }
        i = i + 1;
    }
    assert(item_views(items@).take(items@.len() as int) =~= item_views(items@));
    n
}

/// The first unchecked position.
fn first_unchecked_index(items: &Vec<FieldItem>) -> (r: usize)
    ensures
        r == first_unchecked(item_views(items@)),
{
    let mut i: usize = 0;
    assert(item_views(items@).skip(0) =~= item_views(items@));
    while i < items.len()
        invariant
            i <= items@.len(),
            first_unchecked(item_views(items@)) == first_unchecked(item_views(items@).skip(i as int)) + i,
        decreases items@.len() - i,
    {
        assert(item_views(items@).skip(i as int).drop_first() =~= item_views(items@).skip(i + 1));
        if !items[i].checked {
            return i;
        }
        i = i + 1;
    }
    i
}

/// The first position from `from` on whose name is greater than `name`.
fn first_greater_index(items: &Vec<FieldItem>, from: usize, name: &str) -> (r: usize)
    requires
        from <= items@.len(),
    ensures
        r == first_greater(item_views(items@), from as int, name@),
{
    let mut i: usize = from;
    while i < items.len()
        invariant
            from <= i <= items@.len(),
            first_greater(item_views(items@), from as int, name@) == first_greater(item_views(items@), i as int, name@),
        decreases items@.len() - i,
    {
        if crate::text::compare_text(name, items[i].name.as_str()) == crate::text::TextOrder::Less {
            return i;
        }
        i = i + 1;
    }
    i
}

/// Applies a key other than Esc to a field editor, as `field_step` says.
pub fn field_key(items: Vec<FieldItem>, cursor: usize, ordered: bool, wildcard: bool, key: Key) -> (r: (
    Vec<FieldItem>,
    usize,
    bool,
))
    requires
        cursor < items@.len() || cursor == 0,
        !field_key_fails(items@.len(), ordered, wildcard, key),
    ensures
        (item_views(r.0@), r.1 as int, r.2) == field_step(
            item_views(items@),
            cursor as int,
            ordered,
            wildcard,
            key,
        ),
{
    let ghost s = item_views(items@);
    if wildcard {
        let w = match key.code {
            KeyCode::Char(ch) => ch != '*',
            _ => true,
        };
        return (items, cursor, w);
    }
    let mut items = items;
    assert(item_views(items@) == s);
    let len = items.len();
    assert(cursor < len || cursor == 0);
    match key.code {
        KeyCode::Up => {
            if key.shift && ordered {
                if items[cursor].checked && cursor > 0 && items[cursor - 1].checked {
                    let x = items.remove(cursor);
                    items.insert(cursor - 1, x);
                    assert(item_views(items@) =~= swap_next(s, cursor - 1));
                    (items, cursor - 1, false)
                } else {
                    (items, cursor, false)
                }
            } else if cursor > 0 {
                (items, cursor - 1, false)
            } else {
                (items, cursor, false)
            }
        },
        KeyCode::Down => {
            if key.shift && ordered {
                if items[cursor].checked && cursor + 1 < items.len() && items[cursor + 1].checked {
                    let x = items.remove(cursor);
                    items.insert(cursor + 1, x);
                    assert(item_views(items@) =~= swap_next(s, cursor as int));
                    (items, cursor + 1, false)
                } else {
                    (items, cursor, false)
                }
            } else if cursor + 1 < items.len() {
                (items, cursor + 1, false)
            } else {
                (items, cursor, false)
            }
        },
        KeyCode::Char(ch) => {
            if ch == ' ' {
                let item = items.remove(cursor);
                let ghost t = item_views(items@);
                assert(t =~= s.remove(cursor as int));
                if ordered {
                    if item.checked {
                        let start = first_unchecked_index(&items);
                        proof {
                            lemma_checked_prefix_range(t);
                        }
                        let pos = first_greater_index(&items, start, item.name.as_str());
                        proof {
                            lemma_first_greater_range(t, start as int, item.name@);
                        }
                        items.insert(pos, FieldItem { name: item.name, checked: false });
                        assert(item_views(items@) =~= uncheck_at(s, cursor as int));
                        (items, cursor, false)
                    } else {
                        let k = count_checked_items(&items);
                        proof {
                            lemma_count_bound(t);
                        }
                        items.insert(k, FieldItem { name: item.name, checked: true });
                        assert(item_views(items@) =~= check_at(s, cursor as int));
                        (items, k, false)
                    }
                } else {
                    let flipped = !item.checked;
                    items.insert(cursor, FieldItem { name: item.name, checked: flipped });
                    assert(item_views(items@) =~= s.update(cursor as int, (s[cursor as int].0, !s[cursor as int].1)));
                    (items, cursor, false)
                }
            } else {
                (items, cursor, ch == '*' && ordered)
            }
        },
        _ => (items, cursor, false),
    }
}

/// Where a field editor's cursor can be after a key.
proof fn lemma_field_step_cursor(s: Seq<(Seq<char>, bool)>, c: int, ordered: bool, wildcard: bool, key: Key)
    requires
        0 <= c < s.len() || (c == 0 && !field_key_fails(s.len(), ordered, wildcard, key)),
    ensures
        field_step(s, c, ordered, wildcard, key).0.len() == s.len(),
        0 <= field_step(s, c, ordered, wildcard, key).1 < s.len() || field_step(s, c, ordered, wildcard, key).1 == 0,
{
    if !wildcard && key.code == KeyCode::Char(' ') && ordered {
        let t = s.remove(c);
        if s[c].1 {
            lemma_checked_prefix_range(t);
            lemma_first_greater_range(t, first_unchecked(t), s[c].0);
        } else {
            lemma_count_bound(t);
        }
    }
}

/// A key in a string-list editor (Esc outside of adding is handled apart):
/// new items, cursor, input and adding mode.
pub open spec fn list_step(items: Seq<Seq<char>>, c: int, input: Seq<char>, adding: bool, key: Key) -> (
    Seq<Seq<char>>,
    int,
    Seq<char>,
    bool,
) {
    if adding {
        match key.code {
            KeyCode::Enter => if input.len() > 0 {
                (items.push(input), items.len() as int, Seq::empty(), false)
            } else {
                (items, c, input, false)
            },
            KeyCode::Esc => (items, c, Seq::empty(), false),
            KeyCode::Char(ch) => (items, c, input.push(ch), true),
            KeyCode::Backspace => (items, c, if input.len() == 0 {
                input
            } else {
                input.drop_last()
            }, true),
            _ => (items, c, input, true),
        }
    } else {
        match key.code {
            KeyCode::Up => if c > 0 {
                (if key.shift {
                    swap_next(items, c - 1)
                } else {
                    items
                }, c - 1, input, false)
            } else {
                (items, c, input, false)
            },
            KeyCode::Down => if c + 1 < items.len() {
                (if key.shift {
                    swap_next(items, c)
                } else {
                    items
                }, c + 1, input, false)
            } else {
                (items, c, input, false)
            },
            KeyCode::Char(ch) => if ch == 'a' {
                (items, c, input, true)
            } else if ch == 'd' {
                list_delete(items, c, input)
            } else {
                (items, c, input, false)
            },
            KeyCode::Delete => list_delete(items, c, input),
            _ => (items, c, input, false),
        }
    }
}

/// In a string-list editor, Enter while adding a non-empty text appends it:
/// every existing item stays where it was, the text is the new last item,
/// the cursor is on it, and adding ends with an empty input.
pub proof fn law_adding_appends_the_text(items: Seq<Seq<char>>, c: int, input: Seq<char>, key: Key)
    requires
        key.code == KeyCode::Enter,
        input.len() > 0,
    ensures
        list_step(items, c, input, true, key).0.len() == items.len() + 1,
        forall|j: int| 0 <= j < items.len() ==> #[trigger] list_step(items, c, input, true, key).0[j] == items[j],
        list_step(items, c, input, true, key).0[items.len() as int] == input,
        list_step(items, c, input, true, key).1 == items.len(),
        list_step(items, c, input, true, key).2.len() == 0,
        !list_step(items, c, input, true, key).3,
{
}

/// While adding, no key changes or removes an existing item: the items
/// are the same, or the same with one more at the end.
pub proof fn law_adding_keeps_every_item(items: Seq<Seq<char>>, c: int, input: Seq<char>, key: Key)
    ensures
        list_step(items, c, input, true, key).0.len() >= items.len(),
        list_step(items, c, input, true, key).0.len() <= items.len() + 1,
        forall|j: int| 0 <= j < items.len() ==> #[trigger] list_step(items, c, input, true, key).0[j] == items[j],
{
}

/// Outside of adding, `d` and Delete remove exactly the item under the
/// cursor and keep the cursor on the list, shift with Up or Down moves that
/// item one place along with the cursor, and Up or Down alone change no
/// item.
pub proof fn law_browsing_deletes_and_moves_one_item(
    items: Seq<Seq<char>>,
    c: int,
    input: Seq<char>,
    key: Key,
)
    requires
        0 <= c < items.len(),
    ensures
        (key.code == KeyCode::Char('d') || key.code == KeyCode::Delete) ==> {
            let r = list_step(items, c, input, false, key);
            &&& r.0.len() == items.len() - 1
            &&& forall|j: int| 0 <= j < c ==> #[trigger] r.0[j] == items[j]
            &&& forall|j: int| c <= j < r.0.len() ==> #[trigger] r.0[j] == items[j + 1]
            &&& (r.0.len() > 0 ==> 0 <= r.1 < r.0.len())
        },
        (key.code == KeyCode::Up && key.shift && c > 0) ==> {
            let r = list_step(items, c, input, false, key);
            &&& r.0.len() == items.len()
            &&& r.0[c - 1] == items[c] && r.0[c] == items[c - 1]
            &&& forall|j: int| 0 <= j < items.len() && j != c && j != c - 1 ==> #[trigger] r.0[j] == items[j]
            &&& r.1 == c - 1
        },
        (key.code == KeyCode::Down && key.shift && c + 1 < items.len()) ==> {
            let r = list_step(items, c, input, false, key);
            &&& r.0.len() == items.len()
            &&& r.0[c + 1] == items[c] && r.0[c] == items[c + 1]
            &&& forall|j: int| 0 <= j < items.len() && j != c && j != c + 1 ==> #[trigger] r.0[j] == items[j]
            &&& r.1 == c + 1
        },
        ((key.code == KeyCode::Up || key.code == KeyCode::Down) && !key.shift) ==> list_step(
            items,
            c,
            input,
            false,
            key,
        ).0 == items,
{
}

/// Deleting the item under the cursor; the cursor stays on the list.
pub open spec fn list_delete(items: Seq<Seq<char>>, c: int, input: Seq<char>) -> (
    Seq<Seq<char>>,
    int,
    Seq<char>,
    bool,
) {
    if items.len() > 0 {
        let r = items.remove(c);
        (r, if c >= r.len() && r.len() > 0 {
            r.len() - 1
        } else {
            c
        }, input, false)
    } else {
        (items, c, input, false)
    }
}

/// Applies a key to a string-list editor, as `list_step` says.
pub fn list_key(items: Vec<String>, cursor: usize, input: String, adding: bool, key: Key) -> (r: (
    Vec<String>,
    usize,
    String,
    bool,
))
    requires
        cursor < items@.len() || cursor == 0,
    ensures
        (texts(r.0@), r.1 as int, r.2@, r.3) == list_step(texts(items@), cursor as int, input@, adding, key),
        r.1 < r.0@.len() || r.1 == 0,
{
    let ghost s = texts(items@);
    let mut items = items;
    let len = items.len();
    if adding {
        match key.code {
            KeyCode::Enter => {
                if !input.as_str().is_empty() {
                    let ghost before = items@;
                    items.push(input);
                    assert(texts(items@) =~= s.push(input@));
                    (items, len, String::new(), false)
                } else {
                    (items, cursor, input, false)
                }
            },
            KeyCode::Esc => (items, cursor, String::new(), false),
            KeyCode::Char(ch) => {
                let mut input = input;
                crate::text::push_char(&mut input, ch);
                (items, cursor, input, true)
            },
            KeyCode::Backspace => {
                let shorter = crate::text::without_last(input.as_str());
                (items, cursor, shorter, true)
            },
            _ => (items, cursor, input, true),
        }
    } else {
        match key.code {
            KeyCode::Up => {
                if cursor > 0 {
                    if key.shift {
                        let x = items.remove(cursor);
                        items.insert(cursor - 1, x);
                        assert(texts(items@) =~= swap_next(s, cursor - 1));
                    }
                    (items, cursor - 1, input, false)
                } else {
                    (items, cursor, input, false)
                }
            },
            KeyCode::Down => {
                if cursor + 1 < len {
                    if key.shift {
                        let x = items.remove(cursor);
                        items.insert(cursor + 1, x);
                        assert(texts(items@) =~= swap_next(s, cursor as int));
                    }
                    (items, cursor + 1, input, false)
                } else {
                    (items, cursor, input, false)
                }
            },
            KeyCode::Char(ch) => {
                if ch == 'a' {
                    (items, cursor, input, true)
                } else if ch == 'd' {
                    delete_item(items, cursor, input)
                } else {
                    (items, cursor, input, false)
                }
            },
            KeyCode::Delete => delete_item(items, cursor, input),
            _ => (items, cursor, input, false),
        }
    }
}

/// Deletes the item under the cursor, as `list_delete` says.
fn delete_item(items: Vec<String>, cursor: usize, input: String) -> (r: (Vec<String>, usize, String, bool))
    requires
        cursor < items@.len() || cursor == 0,
    ensures
        (texts(r.0@), r.1 as int, r.2@, r.3) == list_delete(texts(items@), cursor as int, input@),
        r.1 < r.0@.len() || r.1 == 0,
{
    let mut items = items;
    if items.len() > 0 {
        let ghost s = texts(items@);
        items.remove(cursor);
        assert(texts(items@) =~= s.remove(cursor as int));
        let c = if cursor >= items.len() && items.len() > 0 {
            items.len() - 1
        } else {
            cursor
        };
        (items, c, input, false)
    } else {
        (items, cursor, input, false)
    }
}

/// A key in a choice editor other than the ones that close it.
pub open spec fn select_step(len: nat, c: int, key: Key) -> int {
    match key.code {
        KeyCode::Up => if c > 0 {
            c - 1
        } else {
            c
        },
        KeyCode::Down => if c + 1 < len {
            c + 1
        } else {
            c
        },
        _ => c,
    }
}

/// A key in a number editor other than the ones that close it: digits are
/// typed, Backspace erases.
pub open spec fn number_step(input: Seq<char>, key: Key) -> Seq<char> {
    match key.code {
        KeyCode::Char(ch) => if '0' <= ch && ch <= '9' {
            input.push(ch)
        } else {
            input
        },
        KeyCode::Backspace => if input.len() == 0 {
            input
        } else {
            input.drop_last()
        },
        _ => input,
    }
}

/// The keys that close an editor and record its value.
pub open spec fn exits_editor(e: EditorState, key: Key) -> bool {
    match e {
        EditorState::Closed => false,
        EditorState::Field { .. } => key.code == KeyCode::Esc,
        EditorState::StringList { adding, .. } => !adding && key.code == KeyCode::Esc,
        EditorState::Select { .. } => key.code == KeyCode::Esc || key.code == KeyCode::Enter
            || key.code == KeyCode::Char(' '),
        EditorState::Number { .. } => key.code == KeyCode::Esc || key.code == KeyCode::Enter,
    }
}

/// The keys on which the editor indexes an empty field list.
pub open spec fn editor_key_fails(e: EditorState, key: Key) -> bool {
    match e {
        EditorState::Field { items, ordered, wildcard, .. } => field_key_fails(
            items@.len(),
            ordered,
            wildcard,
            key,
        ),
        _ => false,
    }
}

/// `e2` is `e` after a key that neither closes it nor is refused.
pub open spec fn editor_stepped(e: EditorState, key: Key, e2: EditorState) -> bool {
    match e {
        EditorState::Closed => e2 is Closed,
        EditorState::Field { items, cursor, ordered, wildcard } => e2 matches EditorState::Field {
            items: i2,
            cursor: c2,
            ordered: o2,
            wildcard: w2,
        } && o2 == ordered && (item_views(i2@), c2 as int, w2) == field_step(
            item_views(items@),
            cursor as int,
            ordered,
            wildcard,
            key,
        ),
        EditorState::StringList { items, cursor, input, adding } => e2 matches EditorState::StringList {
            items: i2,
            cursor: c2,
            input: n2,
            adding: a2,
        } && (texts(i2@), c2 as int, n2@, a2) == list_step(texts(items@), cursor as int, input@, adding, key),
        EditorState::Select { options, cursor } => e2 matches EditorState::Select { options: o2, cursor: c2 }
            && o2 == options && c2 as int == select_step(options@.len(), cursor as int, key),
        EditorState::Number { input } => e2 matches EditorState::Number { input: n2 } && n2@ == number_step(
            input@,
            key,
        ),
    }
}

/// Everything but the view, the editor and the status line is the same.
pub open spec fn core_same(a: SettingsState, b: SettingsState) -> bool {
    &&& a.uid == b.uid
    &&& a.settings == b.settings
    &&& a.changes == b.changes
    &&& a.fields == b.fields
    &&& a.resources == b.resources
    &&& a.confirm_quit == b.confirm_quit
    &&& a.res_cursor == b.res_cursor
    &&& a.editing_idx == b.editing_idx
}

/// Whether the key closes the editor, as `exits_editor` says.
fn closes_editor(e: &EditorState, key: Key) -> (r: bool)
    ensures
        r == exits_editor(*e, key),
{
    match e {
        EditorState::Closed => false,
        EditorState::Field { .. } => key.code == KeyCode::Esc,
        EditorState::StringList { adding, .. } => !*adding && key.code == KeyCode::Esc,
        EditorState::Select { .. } => key.code == KeyCode::Esc || key.code == KeyCode::Enter
            || key.code == KeyCode::Char(' '),
        EditorState::Number { .. } => key.code == KeyCode::Esc || key.code == KeyCode::Enter,
    }
}

impl SettingsState {
    /// Whether the editor would index an empty field list on this key (the
    /// program stops there).
    pub fn key_fails(&self, key: Key) -> (r: bool)
        ensures
            r == (self.view == SettingsView::Editor && editor_key_fails(self.editor, key)),
    {
        if self.view != SettingsView::Editor {
            return false;
        }
        match &self.editor {
            EditorState::Field { items, ordered, wildcard, .. } => {
                !*wildcard && items.len() == 0 && (key.code == KeyCode::Char(' ') || (key.shift
                    && *ordered && (key.code == KeyCode::Up || key.code == KeyCode::Down)))
            },
            _ => false,
        }
    }

    /// A key in the editor view: moves, toggles, reorders and types in the
    /// open editor, or closes it and records its value.
    pub fn handle_editor_input(&mut self, key: Key) -> (r: SettingsAction)
        requires
            old(self).wf(),
            !editor_key_fails(old(self).editor, key),
        ensures
            final(self).wf(),
            editor_key_effect(*old(self), old(self).status_msg@, key, *final(self), r),
    {
        if let EditorState::Closed = &self.editor {
            if key.code == KeyCode::Esc {
                self.view = SettingsView::ResourceList;
            }
            return SettingsAction::Continue;
        }
        if closes_editor(&self.editor, key) {
            self.exit_editor();
            return SettingsAction::Continue;
        }
        let mut ed = EditorState::Closed;
        std::mem::swap(&mut ed, &mut self.editor);
        let next = match ed {
            EditorState::Closed => EditorState::Closed,
            EditorState::Field { items, cursor, ordered, wildcard } => {
                let ghost s = item_views(items@);
                proof {
                    lemma_field_step_cursor(s, cursor as int, ordered, wildcard, key);
                    if ordered {
                        law_field_step_keeps_checked_first(s, cursor as int, wildcard, key);
                    }
                }
                let (i2, c2, w2) = field_key(items, cursor, ordered, wildcard, key);
                EditorState::Field { items: i2, cursor: c2, ordered, wildcard: w2 }
            },
            EditorState::StringList { items, cursor, input, adding } => {
                let (i2, c2, n2, a2) = list_key(items, cursor, input, adding, key);
                EditorState::StringList { items: i2, cursor: c2, input: n2, adding: a2 }
            },
            EditorState::Select { options, cursor } => {
                let len = options.len();
                let c2 = match key.code {
                    KeyCode::Up => if cursor > 0 {
                        cursor - 1
                    } else {
                        cursor
                    },
                    KeyCode::Down => if cursor + 1 < len {
                        cursor + 1
                    } else {
                        cursor
                    },
                    _ => cursor,
                };
                EditorState::Select { options, cursor: c2 }
            },
            EditorState::Number { input } => {
                let n2 = match key.code {
                    KeyCode::Char(ch) => {
                        if '0' <= ch && ch <= '9' {
                            let mut t = input;
                            crate::text::push_char(&mut t, ch);
                            t
                        } else {
                            input
                        }
                    },
                    KeyCode::Backspace => crate::text::without_last(input.as_str()),
                    _ => input,
                };
                EditorState::Number { input: n2 }
            },
        };
        self.editor = next;
        SettingsAction::Continue
    }
}

/// The state with only its status line possibly different.
pub open spec fn same_but_status(o: SettingsState, n: SettingsState) -> bool {
    n == (SettingsState { status_msg: n.status_msg, ..o })
}

/// A key in the editor view, from state `o` whose status line reads
/// `status0`: the key moves, toggles, reorders or types in the open editor,
/// or closes it and records its value; with no editor open, Esc goes back
/// to the list. The status line stays `status0`.
pub open spec fn editor_key_effect(
    o: SettingsState,
    status0: Seq<char>,
    key: Key,
    n: SettingsState,
    r: SettingsAction,
) -> bool {
    &&& r == SettingsAction::Continue
    &&& n.status_msg@ == status0
    &&& o.editor is Closed ==> {
        &&& core_same(o, n)
        &&& n.editor is Closed
        &&& n.view == if key.code == KeyCode::Esc {
            SettingsView::ResourceList
        } else {
            o.view
        }
    }
    &&& exits_editor(o.editor, key) ==> exited(SettingsState { status_msg: n.status_msg, ..o }, n)
    &&& !(o.editor is Closed) && !exits_editor(o.editor, key) ==> {
        &&& core_same(o, n)
        &&& n.view == o.view
        &&& editor_stepped(o.editor, key, n.editor)
    }
}

/// A key in the list of settings, from state `o` whose status line reads
/// `status0`: navigate, open an editor, save, or quit (the first quit with
/// unsaved changes only warns). Only the warning changes the status line.
pub open spec fn list_key_effect(
    o: SettingsState,
    status0: Seq<char>,
    key: Key,
    n: SettingsState,
    r: SettingsAction,
) -> bool {
    let c = o.res_cursor;
    if key.code == KeyCode::Char('q') || key.code == KeyCode::Esc {
        if o.changes@.len() > 0 && !o.confirm_quit {
            &&& r == SettingsAction::Continue
            &&& n.status_msg@ == unsaved_message()
            &&& n == (SettingsState { status_msg: n.status_msg, confirm_quit: true, ..o })
        } else {
            r == SettingsAction::Quit && same_but_status(o, n) && n.status_msg@ == status0
        }
    } else if key.code == KeyCode::Char('s') {
        r == SettingsAction::Save && same_but_status(o, n) && n.status_msg@ == status0
    } else if key.code == KeyCode::Up || key.code == KeyCode::Down {
        &&& r == SettingsAction::Continue
        &&& n.status_msg@ == status0
        &&& n == (SettingsState {
            status_msg: n.status_msg,
            res_cursor: if key.code == KeyCode::Up {
                if c > 0 {
                    (c - 1) as usize
                } else {
                    c
                }
            } else if c + 1 < o.resources@.len() {
                (c + 1) as usize
            } else {
                c
            },
            ..o
        })
    } else if key.code == KeyCode::Enter {
        if o.resources@[c as int]@.2 is JsonEditor {
            r == SettingsAction::LaunchEditor(c) && same_but_status(o, n) && n.status_msg@ == status0
        } else {
            &&& r == SettingsAction::Continue
            &&& core_same(o, SettingsState { editing_idx: o.editing_idx, ..n })
            &&& n.editing_idx == c
            &&& n.view == SettingsView::Editor
            &&& n.status_msg@ == status0
            &&& editor_for(
                o.resources@[c as int]@.2,
                o.current_value(o.resources@[c as int]@.1),
                texts(o.fields@),
                n.editor,
            )
        }
    } else {
        r == SettingsAction::Continue && same_but_status(o, n) && n.status_msg@ == status0
    }
}

/// The warning shown on the first attempt to quit with unsaved changes.
pub open spec fn unsaved_message() -> Seq<char> {
    "Unsaved changes! Press q again to discard, or s to save."@
}

impl SettingsState {
    /// A key in the list of settings: navigate, open an editor, save, or quit
    /// (the first quit with unsaved changes only warns).
    pub fn handle_resource_list_input(&mut self, key: Key) -> (r: SettingsAction)
        requires
            old(self).wf(),
        ensures
            final(self).wf(),
            list_key_effect(*old(self), old(self).status_msg@, key, *final(self), r),
    {
        match key.code {
            KeyCode::Char('q') | KeyCode::Esc => {
                if self.changes.len() > 0 && !self.confirm_quit {
                    self.status_msg = String::from_str(
                        "Unsaved changes! Press q again to discard, or s to save.",
                    );
                    self.confirm_quit = true;
                    return SettingsAction::Continue;
                }
                SettingsAction::Quit
            },
            KeyCode::Char('s') => SettingsAction::Save,
            KeyCode::Up => {
                if self.res_cursor > 0 {
                    self.res_cursor = self.res_cursor - 1;
                }
                SettingsAction::Continue
            },
            KeyCode::Down => {
                let len = self.resources.len();
                if self.res_cursor + 1 < len {
                    self.res_cursor = self.res_cursor + 1;
                }
                SettingsAction::Continue
            },
            KeyCode::Enter => {
                let idx = self.res_cursor;
                if let EditorKind::JsonEditor = &self.resources[idx].kind {
                    SettingsAction::LaunchEditor(idx)
                } else {
                    self.enter_editor(idx);
                    SettingsAction::Continue
                }
            },
            _ => SettingsAction::Continue,
        }
    }

    /// A key anywhere: Ctrl+C quits; otherwise the status line is cleared
    /// and the key goes to the list or to the open editor.
    pub fn handle_input(&mut self, key: Key) -> (r: SettingsAction)
        requires
            old(self).wf(),
            !(old(self).view == SettingsView::Editor && editor_key_fails(old(self).editor, key)),
        ensures
            final(self).wf(),
            key.is_ctrl_char('c') ==> r == SettingsAction::Quit && *final(self) == *old(self),
            !key.is_ctrl_char('c') && old(self).view == SettingsView::ResourceList ==> list_key_effect(
                *old(self),
                Seq::empty(),
                key,
                *final(self),
                r,
            ),
            !key.is_ctrl_char('c') && old(self).view == SettingsView::Editor ==> editor_key_effect(
                *old(self),
                Seq::empty(),
                key,
                *final(self),
                r,
            ),
    {
        if key.ctrl_char('c') {
            return SettingsAction::Quit;
        }
        self.status_msg = String::new();
        match self.view {
            SettingsView::ResourceList => self.handle_resource_list_input(key),
            SettingsView::Editor => self.handle_editor_input(key),
        }
    }

    /// Puts the cursor on the first setting whose sub-resource name is
    /// `slug`, when the list has one; returns whether it has.
    pub fn select_resource(&mut self, slug: &str) -> (found: bool)
        requires
            old(self).wf(),
        ensures
            final(self).wf(),
            found == exists|i: int| 0 <= i < old(self).resources@.len() && (#[trigger] old(self).resources@[i])@.0 == slug@,
            found ==> final(self).resources@[final(self).res_cursor as int]@.0 == slug@ && forall|j: int|
                0 <= j < final(self).res_cursor ==> (#[trigger] old(self).resources@[j])@.0 != slug@,
            !found ==> final(self).res_cursor == old(self).res_cursor,
            *final(self) == (SettingsState { res_cursor: final(self).res_cursor, ..*old(self) }),
    {
        let n = self.resources.len();
        let mut i: usize = 0;
        while i < n
            invariant
                n == self.resources@.len(),
                i <= n,
                *self == *old(self),
                self.wf(),
                forall|j: int| 0 <= j < i ==> (#[trigger] self.resources@[j])@.0 != slug@,
            decreases n - i,
        {
            if str_eq(self.resources[i].slug, slug) {
                self.res_cursor = i;
                return true;
            }
            i = i + 1;
        }
        false
    }

    /// The settings object to send: the pending changes, or `None` when
    /// there are none.
    pub fn save_body(&self) -> (r: Option<Json>)
        ensures
            r is None <==> self.changes@.len() == 0,
            r matches Some(b) ==> b matches Json::Object(m) && m@.len() == self.changes@.len()
                && forall|k: int|
                0 <= k < m@.len() ==> (#[trigger] m@[k]).0@ == self.changes@[k].0@ && json_same(
                    m@[k].1,
                    self.changes@[k].1,
                ),
    {
        if self.changes.len() == 0 {
            None
        } else {
            Some(Json::Object(crate::json::copy_members(&self.changes)))
        }
    }

    /// The outcome of editing setting `idx` as JSON text: the edited value is
    /// recorded as a pending change when it differs from the server's value
    /// (and the status line says so), else the pending change is dropped.
    pub fn apply_json_edit(&mut self, idx: usize, edited: Json)
        requires
            old(self).wf(),
            idx < old(self).resources@.len(),
        ensures
            final(self).wf(),
            json_edit_effect(*old(self), idx as int, edited, *final(self)),
    {
        let key = self.resources[idx].key;
        let slug = self.resources[idx].slug;
        let same = match self.settings.get(key) {
            Some(o) => json_eq(&edited, o),
            None => edited.is_null(),
        };
        if same {
            remove_member(&mut self.changes, key);
        } else {
            set_member(&mut self.changes, key, edited);
            let mut msg = String::from_str("Changed ");
            msg.append(slug);
            msg.append(". Press s to save.");
            self.status_msg = msg;
        }
    }
}

/// The status line after a save whose task `task_uid` ended as `task`.
pub open spec fn save_message_text(task_uid: u64, task: Json) -> Seq<char> {
    let status = match task.str_at("status"@) {
        Some(t) => t,
        None => "unknown"@,
    };
    if status == "failed"@ {
        "Task failed: "@ + match task.spec_get("error"@) {
            Some(e) => match e.str_at("message"@) {
                Some(m) => m,
                None => "unknown error"@,
            },
            None => "unknown error"@,
        }
    } else {
        "Saved! Task "@ + decimal(task_uid as nat) + " "@ + status + "."@
    }
}

/// The status line after a save whose task ended as `task`.
pub fn save_message(task_uid: u64, task: &Json) -> (r: String)
    ensures
        r@ == save_message_text(task_uid, *task),
{
    let status: &str = match task.get_str("status") {
        Some(t) => t,
        None => "unknown",
    };
    if str_eq(status, "failed") {
        let msg: &str = match task.get("error") {
            Some(e) => match e.get_str("message") {
                Some(m) => m,
                None => "unknown error",
            },
            None => "unknown error",
        };
        let mut r = String::from_str("Task failed: ");
        r.append(msg);
        r
    } else {
        let mut r = String::from_str("Saved! Task ");
        let n = crate::text::u64_to_string(task_uid);
        r.append(n.as_str());
        r.append(" ");
        r.append(status);
        r.append(".");
        r
    }
}

/// The fields an index's stats list under `fieldDistribution`, in order.
pub open spec fn distribution_names(stats: Json) -> Seq<Seq<char>> {
    match stats.spec_get("fieldDistribution"@) {
        Some(Json::Object(m)) => crate::json::member_names(m@),
        _ => Seq::empty(),
    }
}

/// The fields an index's stats list under `fieldDistribution`.
pub fn distribution_fields(stats: &Json) -> (r: Vec<String>)
    ensures
        texts(r@) == distribution_names(*stats),
{
    let mut out: Vec<String> = Vec::new();
    match stats.get("fieldDistribution") {
        Some(Json::Object(m)) => {
            let mut i: usize = 0;
            while i < m.len()
                invariant
                    i <= m@.len(),
                    texts(out@) == crate::json::member_names(m@).take(i as int),
                decreases m@.len() - i,
            {
                push_text(&mut out, m[i].0.as_str());
                assert(crate::json::member_names(m@).take(i + 1) =~= crate::json::member_names(m@).take(i as int).push(m@[i as int].0@));
                i = i + 1;
            }
            assert(crate::json::member_names(m@).take(m@.len() as int) =~= crate::json::member_names(m@));
        },
        _ => {
            assert(texts(out@) =~= Seq::<Seq<char>>::empty());
        },
    }
    out
}

/// The first `n` items of `s` (all of them when there are fewer).
pub open spec fn first_n<T>(s: Seq<T>, n: int) -> Seq<T> {
    if s.len() <= n {
        s
    } else {
        s.take(n)
    }
}

/// How the list of settings sums up an array: the wildcard, none, or its
/// first three strings and how many more items there are.
pub open spec fn array_summary(a: Seq<Json>) -> Seq<char> {
    if a.len() == 1 && a[0].spec_as_str() == Some("*"@) {
        "* (all fields)"@
    } else if a.len() == 0 {
        "(none)"@
    } else {
        let shown = join(first_n(strs_of(a), 3), ", "@);
        if a.len() > 3 {
            shown + ", +"@ + decimal((a.len() - 3) as nat)
        } else {
            shown
        }
    }
}

/// How the list of settings sums up a value other than a non-empty object.
pub open spec fn scalar_summary(v: Json) -> Seq<char> {
    match v {
        Json::Array(a) => array_summary(a@),
        Json::Str(t) => t@,
        Json::Number(t) => t@,
        Json::Bool(b) => if b {
            "true"@
        } else {
            "false"@
        },
        Json::Null => "(default)"@,
        Json::Object(m) => "(none)"@,
    }
}

/// Sums a setting's value up in one line. A non-empty object is shown as
/// `object_text`, its compact JSON text, cut after 40 bytes with `...`.
pub fn summarize_value(value: &Json, object_text: &str) -> (r: String)
    requires
        crate::text::utf8_bytes(object_text@).len() <= usize::MAX,
        value matches Json::Object(m) && m@.len() > 0 && crate::text::utf8_bytes(object_text@).len() > 40
            ==> vstd::utf8::is_char_boundary(crate::text::utf8_bytes(object_text@), 40),
    ensures
        !(value matches Json::Object(m) && m@.len() > 0) ==> r@ == scalar_summary(*value),
        value matches Json::Object(m) && m@.len() > 0 ==> crate::text::utf8_bytes(r@) == if crate::text::utf8_bytes(
            object_text@,
        ).len() > 40 {
            crate::text::utf8_bytes(object_text@).take(40) + crate::text::utf8_bytes("..."@)
        } else {
            crate::text::utf8_bytes(object_text@)
        },
{
    match value {
        Json::Array(a) => {
            if a.len() == 1 {
                let star = match a[0].as_str() {
                    Some(t) => str_eq(t, "*"),
                    None => false,
                };
                if star {
                    return String::from_str("* (all fields)");
                }
            }
            if a.len() == 0 {
                return String::from_str("(none)");
            }
            let all = array_strings(value);
            let mut shown: Vec<String> = Vec::new();
            let mut i: usize = 0;
            while i < all.len() && i < 3
                invariant
                    i <= all@.len(),
                    i <= 3,
                    texts(shown@) == texts(all@).take(i as int),
                decreases all@.len() - i,
            {
                push_text(&mut shown, all[i].as_str());
                assert(texts(all@).take(i + 1) =~= texts(all@).take(i as int).push(all@[i as int]@));
                i = i + 1;
            }
            assert(texts(shown@) == first_n(strs_of(a@), 3)) by {
                if texts(all@).len() <= 3 {
                    assert(texts(all@).take(i as int) =~= texts(all@));
                }
            }
            let mut r = crate::text::join_strings(&shown, ", ");
            if a.len() > 3 {
                r.append(", +");
                let more = crate::text::u64_to_string((a.len() - 3) as u64);
                r.append(more.as_str());
            }
            r
        },
        Json::Str(t) => t.clone(),
        Json::Number(t) => t.clone(),
        Json::Bool(b) => if *b {
            String::from_str("true")
        } else {
            String::from_str("false")
        },
        Json::Null => String::from_str("(default)"),
        Json::Object(m) => {
            if m.len() == 0 {
                return String::from_str("(none)");
            }
            let n = object_text.len();
            if n > 40 {
                let (head, _tail) = object_text.split_at(40);
                let mut r = String::from_str(head);
                r.append("...");
                proof {
                    crate::text::lemma_utf8_concat(head@, "..."@);
                    assert(crate::text::utf8_bytes(head@) =~= crate::text::utf8_bytes(object_text@).subrange(0, 40));
                    assert(crate::text::utf8_bytes(object_text@).take(40) =~= crate::text::utf8_bytes(object_text@).subrange(0, 40));
                    assert(r@ == head@ + "..."@);
                }
                r
            } else {
                assert(n == crate::text::utf8_bytes(object_text@).len());
                String::from_str(object_text)
            }
        },
    }
}

/// How a save went.
pub enum SaveOutcome {
    /// There were no pending changes.
    Nothing,
    /// The server took the update without a task to wait for.
    Queued,
    /// The update's task `task_uid` ended as `task`.
    Finished { task_uid: u64, task: Json },
    /// Sending the update or waiting for it failed with this message.
    Failed(String),
}

/// The status line after a save.
pub open spec fn save_status(outcome: SaveOutcome) -> Seq<char> {
    match outcome {
        SaveOutcome::Nothing => "No changes to save."@,
        SaveOutcome::Queued => "Settings update queued."@,
        SaveOutcome::Finished { task_uid, task } => save_message_text(task_uid, task),
        SaveOutcome::Failed(e) => "Error: "@ + e@,
    }
}

impl SettingsState {
    /// Records how a save went: the status line says so; unless it failed,
    /// the pending changes are dropped and `refreshed`, the server's settings
    /// read again (when that worked), replaces the saved ones. A failed save
    /// keeps the pending changes.
    pub fn finish_save(&mut self, outcome: SaveOutcome, refreshed: Option<Json>)
        requires
            old(self).wf(),
        ensures
            final(self).wf(),
            final(self).status_msg@ == save_status(outcome),
            outcome is Failed ==> *final(self) == (SettingsState { status_msg: final(self).status_msg, ..*old(self) }),
            !(outcome is Failed) ==> {
                &&& final(self).changes@.len() == 0
                &&& final(self).settings == match refreshed {
                    Some(s) => s,
                    None => old(self).settings,
                }
                &&& *final(self) == (SettingsState {
                    status_msg: final(self).status_msg,
                    changes: final(self).changes,
                    settings: final(self).settings,
                    ..*old(self)
                })
            },
    {
        let msg = match &outcome {
            SaveOutcome::Nothing => String::from_str("No changes to save."),
            SaveOutcome::Queued => String::from_str("Settings update queued."),
            SaveOutcome::Finished { task_uid, task } => save_message(*task_uid, task),
            SaveOutcome::Failed(e) => {
                let mut m = String::from_str("Error: ");
                m.append(e.as_str());
                m
            },
        };
        let failed = match &outcome {
            SaveOutcome::Failed(_) => true,
            _ => false,
        };
        self.status_msg = msg;
        if !failed {
            self.changes = Vec::new();
            assert(distinct_names(self.changes@));
            match refreshed {
                Some(s) => {
                    self.settings = s;
                },
                None => {},
            }
        }
    }
}

} // verus!
