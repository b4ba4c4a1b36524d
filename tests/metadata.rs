use wdlparse::metadata::BasicWdlMetadata;

#[test]
fn fallback_reads_version_workflow_and_tasks() {
    let src = "version 1.0\ntask zeta {\n}\ntask alpha {\n}\n  task zeta {\n}\nworkflow main {\n}\n";
    let meta = BasicWdlMetadata::extract_from_text(src);
    assert_eq!(meta.version.as_deref(), Some("1.0"));
    assert_eq!(meta.workflow_name.as_deref(), Some("main"));
    assert_eq!(meta.task_names, vec!["alpha".to_string(), "zeta".to_string()]);
}

#[test]
fn fallback_on_text_without_matches() {
    let meta = BasicWdlMetadata::extract_from_text("nothing to see\n");
    assert_eq!(meta.version, None);
    assert_eq!(meta.workflow_name, None);
    assert!(meta.task_names.is_empty());
}

#[test]
fn fallback_takes_first_workflow_and_version() {
    let src = "version 1.1\nversion 2.0\nworkflow first {\n}\nworkflow second {\n}\n";
    assert_eq!(BasicWdlMetadata::extract_version(src).as_deref(), Some("1.1"));
    assert_eq!(BasicWdlMetadata::extract_workflow_name(src).as_deref(), Some("first"));
}

#[test]
fn fallback_needs_line_start_and_brace() {
    let src = "# task hidden {\ntask shown {\ntask nobrace\n";
    assert_eq!(BasicWdlMetadata::extract_task_names(src), vec!["shown".to_string()]);
}

#[test]
fn new_metadata_is_empty() {
    let meta = BasicWdlMetadata::new();
    assert!(meta.version.is_none() && meta.workflow_name.is_none() && meta.task_names.is_empty());
}
