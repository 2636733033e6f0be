use n8n_workflow_sync::resolve::{pick_json_file, resolve, AmbiguousInput};

#[test]
fn resolves_name_without_path_to_slug_directory() {
    let r = resolve("My Workflow", None, false);
    assert_eq!(r.dir, "my-workflow");
    assert_eq!(r.file, "my-workflow/workflow.json");
}

#[test]
fn resolves_extensionless_path_as_directory() {
    let out = "out".to_string();
    let r = resolve("id123", Some(&out), false);
    assert_eq!(r.dir, "out");
    assert_eq!(r.file, "out/workflow.json");
}

#[test]
fn resolves_existing_directory_even_with_extension() {
    let odd = "backups.d".to_string();
    let r = resolve("id123", Some(&odd), true);
    assert_eq!(r.dir, "backups.d");
    assert_eq!(r.file, "backups.d/workflow.json");
}

#[test]
fn resolves_file_path_literally() {
    let p = "custom.json".to_string();
    let r = resolve("id123", Some(&p), false);
    assert_eq!(r.dir, ".");
    assert_eq!(r.file, "custom.json");
}

#[test]
fn resolves_nested_file_path_to_its_parent() {
    let p = "backups/wf.json".to_string();
    let r = resolve("id123", Some(&p), false);
    assert_eq!(r.dir, "backups");
    assert_eq!(r.file, "backups/wf.json");
}

#[test]
fn hidden_file_name_counts_as_extensionless() {
    let p = ".hidden".to_string();
    let r = resolve("id123", Some(&p), false);
    assert_eq!(r.dir, ".hidden");
    assert_eq!(r.file, ".hidden/workflow.json");
}

fn names(list: &[&str]) -> Vec<String> {
    list.iter().map(|s| s.to_string()).collect()
}

#[test]
fn prefers_the_canonical_workflow_file() {
    let listing = names(&["a.json", "workflow.json", "b.json"]);
    assert_eq!(pick_json_file(&listing), Ok("workflow.json".to_string()));
}

#[test]
fn picks_the_single_json_file() {
    let listing = names(&["readme.md", "export.json", "notes.txt"]);
    assert_eq!(pick_json_file(&listing), Ok("export.json".to_string()));
}

#[test]
fn reports_no_candidates() {
    let listing = names(&["readme.md", ".json"]);
    assert_eq!(pick_json_file(&listing), Err(AmbiguousInput::NoJsonFiles));
}

#[test]
fn reports_multiple_candidates() {
    let listing = names(&["a.json", "b.json"]);
    assert_eq!(pick_json_file(&listing), Err(AmbiguousInput::MultipleJsonFiles));
}
