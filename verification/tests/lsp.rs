use genko_ls::documents::DocumentStore;
use genko_ls::hover::hover_markdown;
use genko_ls::server::{initialize_capabilities, requests_stdio, DocumentSyncKind, SERVER_NAME};

fn hover_markdown_for(store: &DocumentStore) -> Option<String> {
    store.hover(&"file:///story.genko".to_string())
}

#[test]
fn advertises_full_sync_and_hover() {
    let capabilities = initialize_capabilities();

    assert_eq!(capabilities.text_document_sync, DocumentSyncKind::Full);
    assert!(capabilities.hover_provider);
    assert_eq!(SERVER_NAME, "genko-ls");
}

#[test]
fn full_sync_lifecycle_updates_hover_and_close_removes_document() {
    let mut store = DocumentStore::new();
    let uri = "file:///story.genko".to_string();

    store.did_open(uri.clone(), "前｜猫《ねこ》後".to_string());
    assert_eq!(
        hover_markdown_for(&store).as_deref(),
        Some("**本文文字数:** 3 文字")
    );

    store.did_change(&uri, vec!["一\n二".to_string()]);
    assert_eq!(
        hover_markdown_for(&store).as_deref(),
        Some("**本文文字数:** 2 文字")
    );

    store.did_close(&uri);
    assert_eq!(hover_markdown_for(&store), None);
}

#[test]
fn accepts_only_one_stdio_argument() {
    assert!(requests_stdio(&["--stdio".to_string()]));
    assert!(!requests_stdio(&[]));
    assert!(!requests_stdio(&["--tcp".to_string()]));
    assert!(!requests_stdio(&["--stdio".to_string(), "extra".to_string()]));
}

#[test]
fn hover_text_writes_the_count_in_decimal() {
    assert_eq!(hover_markdown(0), "**本文文字数:** 0 文字");
    assert_eq!(hover_markdown(7), "**本文文字数:** 7 文字");
    assert_eq!(hover_markdown(10), "**本文文字数:** 10 文字");
    assert_eq!(hover_markdown(1204), "**本文文字数:** 1204 文字");
    assert_eq!(
        hover_markdown(usize::MAX),
        format!("**本文文字数:** {} 文字", usize::MAX)
    );
}

#[test]
fn hover_of_an_unopened_document_is_none() {
    let store = DocumentStore::new();
    assert_eq!(hover_markdown_for(&store), None);
}

#[test]
fn change_uses_the_last_content_change() {
    let mut store = DocumentStore::new();
    let uri = "file:///story.genko".to_string();
    store.did_open(uri.clone(), "一".to_string());
    store.did_change(&uri, vec!["一二三四".to_string(), "一二".to_string()]);
    assert_eq!(
        hover_markdown_for(&store).as_deref(),
        Some("**本文文字数:** 2 文字")
    );
}

#[test]
fn change_without_content_keeps_the_text() {
    let mut store = DocumentStore::new();
    let uri = "file:///story.genko".to_string();
    store.did_open(uri.clone(), "一二".to_string());
    store.did_change(&uri, Vec::new());
    assert_eq!(
        hover_markdown_for(&store).as_deref(),
        Some("**本文文字数:** 2 文字")
    );
}

#[test]
fn change_of_an_unopened_document_opens_nothing() {
    let mut store = DocumentStore::new();
    let uri = "file:///story.genko".to_string();
    store.did_change(&uri, vec!["一二".to_string()]);
    assert_eq!(hover_markdown_for(&store), None);
}

#[test]
fn reopening_replaces_the_text() {
    let mut store = DocumentStore::new();
    let uri = "file:///story.genko".to_string();
    store.did_open(uri.clone(), "一".to_string());
    store.did_open(uri.clone(), "一二三".to_string());
    assert_eq!(
        hover_markdown_for(&store).as_deref(),
        Some("**本文文字数:** 3 文字")
    );
    store.did_close(&uri);
    assert_eq!(hover_markdown_for(&store), None);
}

#[test]
fn documents_are_kept_apart() {
    let mut store = DocumentStore::new();
    let first = "file:///one.genko".to_string();
    let second = "file:///two.genko".to_string();
    store.did_open(first.clone(), "一".to_string());
    store.did_open(second.clone(), "一二".to_string());
    store.did_close(&first);
    assert_eq!(store.hover(&first), None);
    assert_eq!(store.hover(&second).as_deref(), Some("**本文文字数:** 2 文字"));
}
