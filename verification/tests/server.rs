use achitek_ls::server::{
    apply_changes, route_notification, route_request, Document, DocumentNotification, Documents,
    NotificationAction, NotificationRoute, RequestRoute,
};

#[test]
fn document_accessors_read_back_writes() {
    let mut document = Document { version: 1, text: "a".to_owned() };
    assert_eq!(document.get_version(), 1);
    assert_eq!(document.get_text(), "a");
    document.set_version(2);
    document.set_text("b".to_owned());
    assert_eq!(document.get_version(), 2);
    assert_eq!(document.get_text(), "b");
}

#[test]
fn last_full_change_wins() {
    assert_eq!(apply_changes("old", &["one".to_owned(), "two".to_owned()]), "two");
    assert_eq!(apply_changes("old", &[]), "old");
}

#[test]
fn open_change_close_round_trip() {
    let mut documents = Documents::new();
    let action = documents.apply_notification(DocumentNotification::DidOpen {
        uri: "file:///a".to_owned(),
        version: 1,
        text: "first".to_owned(),
    });
    assert!(matches!(action, NotificationAction::Publish(ref uri) if uri == "file:///a"));
    assert_eq!(documents.get("file:///a").map(|d| d.text.as_str()), Some("first"));

    let action = documents.apply_notification(DocumentNotification::DidChange {
        uri: "file:///a".to_owned(),
        version: 2,
        changes: vec!["second".to_owned(), "third".to_owned()],
    });
    assert!(matches!(action, NotificationAction::Publish(_)));
    let stored = documents.get("file:///a").expect("document should be stored");
    assert_eq!(stored.version, 2);
    assert_eq!(stored.text, "third");

    let action = documents.apply_notification(DocumentNotification::DidChange {
        uri: "file:///b".to_owned(),
        version: 1,
        changes: vec!["x".to_owned()],
    });
    assert!(matches!(action, NotificationAction::Nothing));
    assert!(!documents.contains_key("file:///b"));

    let action = documents.apply_notification(DocumentNotification::DidClose { uri: "file:///a".to_owned() });
    assert!(matches!(action, NotificationAction::Clear(ref uri) if uri == "file:///a"));
    assert!(documents.get("file:///a").is_none());
}

#[test]
fn reopening_replaces_the_stored_document() {
    let mut documents = Documents::new();
    documents.insert("u".to_owned(), Document { version: 1, text: "a".to_owned() });
    documents.insert("v".to_owned(), Document { version: 1, text: "b".to_owned() });
    documents.insert("u".to_owned(), Document { version: 3, text: "c".to_owned() });
    assert_eq!(documents.get("u").map(|d| d.version), Some(3));
    assert_eq!(documents.get("v").map(|d| d.text.as_str()), Some("b"));
    assert!(documents.remove("u"));
    assert!(!documents.remove("u"));
    assert!(documents.contains_key("v"));
}

#[test]
fn requests_and_notifications_are_routed_by_method() {
    assert_eq!(route_request("textDocument/hover"), RequestRoute::Hover);
    assert_eq!(route_request("textDocument/prepareRename"), RequestRoute::PrepareRename);
    assert_eq!(route_request("workspace/symbol"), RequestRoute::WorkspaceSymbol);
    assert_eq!(route_request("textDocument/codeLens"), RequestRoute::Unhandled);
    assert_eq!(route_notification("textDocument/didOpen"), NotificationRoute::DidOpen);
    assert_eq!(route_notification("textDocument/didSave"), NotificationRoute::Ignored);
}
