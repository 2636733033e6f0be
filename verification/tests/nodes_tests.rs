use n8n_workflow_sync::nodes::{node_name_of_path, record_version, version_of_source, NodeVersion};

#[test]
fn recognizes_node_source_paths() {
    assert_eq!(
        node_name_of_path("packages/nodes-base/nodes/Slack/Slack.node.ts"),
        Some("Slack".to_string())
    );
    assert_eq!(
        node_name_of_path("packages/nodes-base/nodes/Google/Sheets/GoogleSheets.node.js"),
        Some("Google".to_string())
    );
}

#[test]
fn rejects_paths_outside_the_nodes_tree() {
    assert_eq!(node_name_of_path("packages/core/src/Workflow.ts"), None);
    assert_eq!(node_name_of_path("packages/nodes-base/nodes/Slack"), None);
    assert_eq!(node_name_of_path("packages/nodes-base/nodes/Slack/readme.md"), None);
    assert_eq!(node_name_of_path("packages/nodes-base/nodes//orphan.node.ts"), None);
}

#[test]
fn reads_the_declared_version() {
    assert_eq!(version_of_source("export const x = { version: 3 };"), Some(3));
    assert_eq!(version_of_source("version:42"), Some(42));
    assert_eq!(version_of_source("version:\n\t 7,"), Some(7));
}

#[test]
fn skips_markers_without_a_number() {
    assert_eq!(version_of_source("version: x\nversion: 5"), Some(5));
    assert_eq!(version_of_source("no marker here"), None);
    assert_eq!(version_of_source("version: nope"), None);
}

#[test]
fn oversized_versions_are_rejected() {
    assert_eq!(version_of_source("version: 4294967295"), Some(4294967295));
    assert_eq!(version_of_source("version: 4294967296"), None);
    assert_eq!(version_of_source("version: 99999999999999999999"), None);
}

#[test]
fn records_the_highest_version_per_node() {
    let mut table: Vec<NodeVersion> = Vec::new();
    record_version(&mut table, "Slack".to_string(), 2);
    record_version(&mut table, "Mattermost".to_string(), 1);
    record_version(&mut table, "Slack".to_string(), 4);
    record_version(&mut table, "Slack".to_string(), 3);
    assert_eq!(table.len(), 2);
    assert_eq!(table[0].name, "Slack");
    assert_eq!(table[0].version, 4);
    assert_eq!(table[1].name, "Mattermost");
    assert_eq!(table[1].version, 1);
}
