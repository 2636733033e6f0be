use n8n_workflow_sync::sanitize::{
    new_workflow_payload, sanitize, workflow_id, workflow_name, Document, Field, FieldValue,
};

fn field(key: &str, value: FieldValue) -> Field {
    Field { key: key.to_string(), value }
}

fn text(s: &str) -> FieldValue {
    FieldValue::Text(s.to_string())
}

fn raw(s: &str) -> FieldValue {
    FieldValue::Raw(s.to_string())
}

fn value_text(v: &FieldValue) -> (&str, bool) {
    match v {
        FieldValue::Text(s) => (s.as_str(), true),
        FieldValue::Raw(s) => (s.as_str(), false),
    }
}

fn sample_document() -> Document {
    Document {
        fields: vec![
            field("id", text("wf-17")),
            field("name", text("My Workflow")),
            field("createdAt", text("2024-01-01T00:00:00Z")),
            field("nodes", raw("[{\"type\":\"Set\"}]")),
            field("connections", raw("{}")),
            field("versionId", text("abc")),
            field("settings", raw("{\"executionOrder\":\"v1\"}")),
            field("staticData", raw("null")),
            field("tags", raw("[]")),
            field("active", raw("false")),
            field("shared", raw("[]")),
        ],
    }
}

#[test]
fn sanitize_keeps_only_allowed_fields_in_order() {
    let d = sample_document();
    let s = sanitize(&d);
    let keys: Vec<&str> = s.fields.iter().map(|f| f.key.as_str()).collect();
    assert_eq!(
        keys,
        vec!["name", "nodes", "connections", "settings", "staticData", "tags", "active"]
    );
}

#[test]
fn sanitize_copies_values_verbatim() {
    let d = sample_document();
    let s = sanitize(&d);
    assert_eq!(value_text(&s.fields[0].value), ("My Workflow", true));
    assert_eq!(value_text(&s.fields[1].value), ("[{\"type\":\"Set\"}]", false));
    assert_eq!(value_text(&s.fields[3].value), ("{\"executionOrder\":\"v1\"}", false));
}

#[test]
fn sanitize_drops_everything_from_a_foreign_document() {
    let d = Document {
        fields: vec![field("id", text("1")), field("owner", text("me"))],
    };
    let s = sanitize(&d);
    assert_eq!(s.fields.len(), 0);
}

#[test]
fn sanitize_is_idempotent() {
    let d = sample_document();
    let once = sanitize(&d);
    let twice = sanitize(&once);
    assert_eq!(once.fields.len(), twice.fields.len());
    for (a, b) in once.fields.iter().zip(twice.fields.iter()) {
        assert_eq!(a.key, b.key);
        assert_eq!(value_text(&a.value), value_text(&b.value));
    }
}

#[test]
fn workflow_id_reads_the_id_field() {
    let d = sample_document();
    assert_eq!(workflow_id(&d), Some("wf-17".to_string()));
}

#[test]
fn workflow_id_missing_or_not_a_string() {
    let none = Document { fields: vec![field("name", text("x"))] };
    assert_eq!(workflow_id(&none), None);
    let numeric = Document { fields: vec![field("id", raw("17"))] };
    assert_eq!(workflow_id(&numeric), None);
}

#[test]
fn workflow_name_reads_the_name_field() {
    let d = sample_document();
    assert_eq!(workflow_name(&d), Some("My Workflow".to_string()));
    let unnamed = Document { fields: vec![field("id", text("1"))] };
    assert_eq!(workflow_name(&unnamed), None);
}

#[test]
fn new_payload_has_the_fixed_shape() {
    let d = new_workflow_payload("Fresh");
    let keys: Vec<&str> = d.fields.iter().map(|f| f.key.as_str()).collect();
    assert_eq!(keys, vec!["name", "nodes", "connections", "settings"]);
    assert_eq!(value_text(&d.fields[0].value), ("Fresh", true));
    assert_eq!(value_text(&d.fields[1].value), ("[]", false));
    assert_eq!(value_text(&d.fields[2].value), ("{}", false));
    assert_eq!(value_text(&d.fields[3].value), ("{}", false));
}
