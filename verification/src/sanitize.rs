//! Field sanitization: filtering a workflow document down to the fields the
//! remote update API accepts.
//!
//! A workflow document is modelled as an ordered list of top-level fields.
//! Each field carries its key and its value; a value is either the text of a
//! JSON string or the verbatim serialized form of any other JSON value, so
//! that sanitization provably copies values byte for byte.

use vstd::prelude::*;

verus! {

/// The value of one top-level field of a workflow document.
pub enum FieldValue {
    /// A JSON string; holds the string's text.
    Text(String),
    /// Any other JSON value, held as its serialized text.
    Raw(String),
}

/// The mathematical value of a [`FieldValue`].
pub enum ValueView {
    Text(Seq<char>),
    Raw(Seq<char>),
}

impl View for FieldValue {
    type V = ValueView;

    open spec fn view(&self) -> ValueView {
        match self {
            FieldValue::Text(s) => ValueView::Text(s@),
            FieldValue::Raw(s) => ValueView::Raw(s@),
        }
    }
}

/// One top-level field of a workflow document.
pub struct Field {
    pub key: String,
    pub value: FieldValue,
}

/// The mathematical value of a [`Field`].
pub struct FieldView {
    pub key: Seq<char>,
    pub value: ValueView,
}

impl View for Field {
    type V = FieldView;

    open spec fn view(&self) -> FieldView {
        FieldView { key: self.key@, value: self.value@ }
    }
}

/// A workflow document: its top-level fields, in order.
pub struct Document {
    pub fields: Vec<Field>,
}

impl View for Document {
    type V = Seq<FieldView>;

    open spec fn view(&self) -> Seq<FieldView> {
        self.fields@.map_values(|f: Field| f@)
    }
}

/// Whether a key is in the fixed allow-list of the remote update API.
pub open spec fn allowed_key(k: Seq<char>) -> bool {
    ||| k == "name"@
    ||| k == "nodes"@
    ||| k == "connections"@
    ||| k == "settings"@
    ||| k == "staticData"@
    ||| k == "tags"@
    ||| k == "active"@
}

/// The sanitized form of a document: exactly its allow-listed fields,
/// in their original order, with their original values.
pub open spec fn sanitize_view(d: Seq<FieldView>) -> Seq<FieldView> {
    d.filter(|f: FieldView| allowed_key(f.key))
}

impl Clone for FieldValue {
    fn clone(&self) -> (r: Self)
        ensures
            r@ == self@,
    {
        match self {
            FieldValue::Text(s) => FieldValue::Text(s.clone()),
            FieldValue::Raw(s) => FieldValue::Raw(s.clone()),
        }
    }
}

impl Clone for Field {
    fn clone(&self) -> (r: Self)
        ensures
            r@ == self@,
    {
        Field { key: self.key.clone(), value: self.value.clone() }
    }
}

fn is_allowed_key(k: &String) -> (b: bool)
    ensures
        b == allowed_key(k@),
{
    *k == String::from_str("name") || *k == String::from_str("nodes") || *k == String::from_str(
        "connections",
    ) || *k == String::from_str("settings") || *k == String::from_str("staticData") || *k
        == String::from_str("tags") || *k == String::from_str("active")
}

/// Filters a document down to the fields the remote update API accepts.
/// Fields with keys outside the allow-list are dropped; the kept fields
/// retain their order and their exact values.
pub fn sanitize(d: &Document) -> (r: Document)
    ensures
        r@ == sanitize_view(d@),
{
    let ghost dv = d@;
    let ghost pred = |f: FieldView| allowed_key(f.key);
    let mut out: Vec<Field> = Vec::new();
    let n: usize = d.fields.len();
    let mut i: usize = 0;
    proof {
        reveal(Seq::filter);
        assert(dv.take(0) =~= Seq::<FieldView>::empty());
    }
    while i < n
        invariant
            n == d.fields.len(),
            dv == d@,
            pred == (|f: FieldView| allowed_key(f.key)),
            0 <= i <= n,
            out@.map_values(|f: Field| f@) == dv.take(i as int).filter(pred),
        decreases n - i,
    {
        let keep = is_allowed_key(&d.fields[i].key);
        let ghost prev = out@.map_values(|f: Field| f@);
        if keep {
            out.push(d.fields[i].clone());
        }
        proof {
            reveal(Seq::filter);
            let pre = dv.take(i + 1);
            assert(pre.drop_last() =~= dv.take(i as int));
            assert(pre.last() == dv[i as int]);
            if keep {
                assert(out@.map_values(|f: Field| f@) =~= prev.push(dv[i as int]));
            }
        }
        i = i + 1;
    }
    proof {
        assert(dv.take(n as int) =~= dv);
    }
    Document { fields: out }
}

/// The document sent to create a fresh workflow: its name, and empty
/// nodes, connections and settings.
pub open spec fn new_payload_view(name: Seq<char>) -> Seq<FieldView> {
    seq![
        FieldView { key: "name"@, value: ValueView::Text(name) },
        FieldView { key: "nodes"@, value: ValueView::Raw("[]"@) },
        FieldView { key: "connections"@, value: ValueView::Raw("{}"@) },
        FieldView { key: "settings"@, value: ValueView::Raw("{}"@) },
    ]
}

/// Builds the request document for creating a fresh workflow with the
/// given name.
pub fn new_workflow_payload(name: &str) -> (r: Document)
    ensures
        r@ == new_payload_view(name@),
{
    let mut fields: Vec<Field> = Vec::new();
    fields.push(Field { key: String::from_str("name"), value: FieldValue::Text(String::from_str(name)) });
    fields.push(Field { key: String::from_str("nodes"), value: FieldValue::Raw(String::from_str("[]")) });
    fields.push(
        Field { key: String::from_str("connections"), value: FieldValue::Raw(String::from_str("{}")) },
    );
    fields.push(
        Field { key: String::from_str("settings"), value: FieldValue::Raw(String::from_str("{}")) },
    );
    let d = Document { fields };
    proof {
        assert(d@ =~= new_payload_view(name@));
    }
    d
}

/// Law: sanitization is a projection. Every field of the sanitized document
/// has an allow-listed key and is a field of the source document, and every
/// allow-listed field of the source document is kept, value untouched.
pub proof fn lemma_sanitize_projection(d: Seq<FieldView>)
    ensures
        forall|i: int|
            0 <= i < sanitize_view(d).len() ==> allowed_key(#[trigger] sanitize_view(d)[i].key),
        forall|i: int| 0 <= i < sanitize_view(d).len() ==> d.contains(#[trigger] sanitize_view(d)[i]),
        forall|i: int|
            0 <= i < d.len() && allowed_key(#[trigger] d[i].key) ==> sanitize_view(d).contains(d[i]),
{
    let pred = |f: FieldView| allowed_key(f.key);
    assert forall|i: int| 0 <= i < sanitize_view(d).len() implies allowed_key(
        #[trigger] sanitize_view(d)[i].key,
    ) by {
        d.lemma_filter_pred(pred, i);
    }
    assert forall|i: int| 0 <= i < sanitize_view(d).len() implies d.contains(
        #[trigger] sanitize_view(d)[i],
    ) by {
        lemma_filter_elements_from(d, pred);
    }
    assert forall|i: int| 0 <= i < d.len() && allowed_key(#[trigger] d[i].key) implies sanitize_view(
        d,
    ).contains(d[i]) by {
        d.lemma_filter_contains(pred, i);
    }
}

proof fn lemma_filter_elements_from(d: Seq<FieldView>, pred: spec_fn(FieldView) -> bool)
    ensures
        forall|i: int| 0 <= i < d.filter(pred).len() ==> d.contains(#[trigger] d.filter(pred)[i]),
    decreases d.len(),
{
    reveal(Seq::filter);
    if d.len() > 0 {
        let sub = d.drop_last();
        lemma_filter_elements_from(sub, pred);
        assert forall|i: int| 0 <= i < d.filter(pred).len() implies d.contains(
            #[trigger] d.filter(pred)[i],
        ) by {
            if i < sub.filter(pred).len() {
                let x = sub.filter(pred)[i];
                let j = choose|j: int| 0 <= j < sub.len() && sub[j] == x;
                assert(d[j] == x);
            } else {
                assert(d.filter(pred)[i] == d.last());
                assert(d[d.len() - 1] == d.last());
            }
        }
    }
}

proof fn lemma_filter_of_satisfying(d: Seq<FieldView>, pred: spec_fn(FieldView) -> bool)
    requires
        forall|i: int| 0 <= i < d.len() ==> pred(#[trigger] d[i]),
    ensures
        d.filter(pred) == d,
    decreases d.len(),
{
    reveal(Seq::filter);
    if d.len() > 0 {
        lemma_filter_of_satisfying(d.drop_last(), pred);
        assert(d.filter(pred) =~= d);
    }
}

/// Law: sanitization is idempotent; sanitizing a sanitized document
/// changes nothing.
pub proof fn lemma_sanitize_idempotent(d: Seq<FieldView>)
    ensures
        sanitize_view(sanitize_view(d)) == sanitize_view(d),
{
    let pred = |f: FieldView| allowed_key(f.key);
    let s = sanitize_view(d);
    assert forall|i: int| 0 <= i < s.len() implies pred(#[trigger] s[i]) by {
        d.lemma_filter_pred(pred, i);
    }
    lemma_filter_of_satisfying(s, pred);
}

/// The text of the first field of `d` with key `key`, provided that
/// field holds a JSON string.
pub open spec fn doc_text_field(d: Seq<FieldView>, key: Seq<char>) -> Option<Seq<char>>
    decreases d.len(),
{
    if d.len() == 0 {
        None
    } else if d[0].key == key {
        match d[0].value {
            ValueView::Text(t) => Some(t),
            ValueView::Raw(_) => None,
        }
    } else {
        doc_text_field(d.drop_first(), key)
    }
}

/// The identifier recorded in a document: the text of its first `id`
/// field, provided that field holds a JSON string.
pub open spec fn doc_id(d: Seq<FieldView>) -> Option<Seq<char>> {
    doc_text_field(d, "id"@)
}

/// The display name recorded in a document: the text of its first `name`
/// field, provided that field holds a JSON string.
pub open spec fn doc_name(d: Seq<FieldView>) -> Option<Seq<char>> {
    doc_text_field(d, "name"@)
}

fn find_text_field(d: &Document, key: &String) -> (r: Option<String>)
    ensures
        match r {
            Some(t) => doc_text_field(d@, key@) == Some(t@),
            None => doc_text_field(d@, key@) is None,
        },
{
    let ghost dv = d@;
    let n: usize = d.fields.len();
    let mut i: usize = 0;
    proof {
        assert(dv.skip(0) =~= dv);
    }
    while i < n
        invariant
            n == d.fields.len(),
            dv == d@,
            0 <= i <= n,
            doc_text_field(dv, key@) == doc_text_field(dv.skip(i as int), key@),
        decreases n - i,
    {
        proof {
            assert(dv.skip(i as int).drop_first() =~= dv.skip(i + 1));
            assert(dv.skip(i as int)[0] == dv[i as int]);
        }
        if d.fields[i].key == *key {
            match &d.fields[i].value {
                FieldValue::Text(t) => {
                    return Some(t.clone());
                },
                FieldValue::Raw(_) => {
                    return None;
                },
            }
        }
        i = i + 1;
    }
    proof {
        assert(dv.skip(n as int) =~= Seq::<FieldView>::empty());
    }
    None
}

/// Reads the workflow identifier from a document's `id` field, if that
/// field is present and holds a JSON string.
pub fn workflow_id(d: &Document) -> (r: Option<String>)
    ensures
        match r {
            Some(id) => doc_id(d@) == Some(id@),
            None => doc_id(d@) is None,
        },
{
    find_text_field(d, &String::from_str("id"))
}

/// Reads the workflow's display name from a document's `name` field, if
/// that field is present and holds a JSON string.
pub fn workflow_name(d: &Document) -> (r: Option<String>)
    ensures
        match r {
            Some(name) => doc_name(d@) == Some(name@),
            None => doc_name(d@) is None,
        },
{
    find_text_field(d, &String::from_str("name"))
}

} // verus!
