use n8n_workflow_sync::slug::slugify;

#[test]
fn slugs_a_display_name() {
    assert_eq!(slugify("My Workflow"), "my-workflow");
}

#[test]
fn keeps_digits_and_lowercase() {
    assert_eq!(slugify("data-processing-pipeline"), "data-processing-pipeline");
    assert_eq!(slugify("Report 2024"), "report-2024");
}

#[test]
fn trims_leading_and_trailing_separators() {
    assert_eq!(slugify("  My Workflow!  "), "my-workflow");
    let s = slugify("?hello?");
    assert!(!s.starts_with('-'));
    assert!(!s.ends_with('-'));
    assert_eq!(s, "hello");
}

#[test]
fn all_non_alphanumeric_input_slugs_to_empty() {
    assert_eq!(slugify("!!!"), "");
    assert_eq!(slugify(""), "");
    assert_eq!(slugify("- - -"), "");
}

#[test]
fn slugging_is_idempotent() {
    for name in ["My Workflow", "a  b", "Überflow 9", "--x--", "!!!", "A.B.C"] {
        let once = slugify(name);
        let twice = slugify(&once);
        assert_eq!(once, twice);
    }
}

#[test]
fn non_ascii_characters_become_separators() {
    assert_eq!(slugify("café"), "caf");
    assert_eq!(slugify("naïve plan"), "na-ve-plan");
}
