//! The language server's state and its message routing.
//!
//! The server keeps the text of every open document in memory, so that
//! language features work on the editor buffer rather than on files that may
//! be stale. This module holds that store, how the document notifications
//! change it, and which handler a request or notification goes to; the
//! transport that carries the messages stays outside.

use vstd::prelude::*;

use crate::text::str_eq;

verus! {

/// In-memory state for an open text document.
#[derive(Debug, Clone)]
pub struct Document {
    /// Latest version number reported by the client.
    pub version: i32,
    /// Latest full document text reported by the client.
    pub text: String,
}

impl Document {
    /// Returns the latest version number.
    pub fn get_version(&self) -> (res: i32)
        ensures
            res == self.version,
    {
        self.version
    }

    /// Records a new version number.
    pub fn set_version(&mut self, new_version: i32)
        ensures
            final(self).version == new_version,
            final(self).text@ == old(self).text@,
    {
        self.version = new_version;
    }

    /// Returns a copy of the latest text.
    pub fn get_text(&self) -> (res: String)
        ensures
            res@ == self.text@,
    {
        self.text.clone()
    }

    /// Records new full text.
    pub fn set_text(&mut self, new_text: String)
        ensures
            final(self).text@ == new_text@,
            final(self).version == old(self).version,
    {
        self.text = new_text;
    }
}

/// A stored document as its version and text.
pub open spec fn document_view(d: Document) -> (i32, Seq<char>) {
    (d.version, d.text@)
}

/// The document stored under `key` in `entries`: the first entry with that
/// key.
pub open spec fn lookup(entries: Seq<(String, Document)>, key: Seq<char>) -> Option<(i32, Seq<char>)>
    decreases entries.len(),
{
    if entries.len() == 0 {
        None
    } else if entries[0].0@ == key {
        Some(document_view(entries[0].1))
    } else {
        lookup(entries.drop_first(), key)
    }
}

/// The index of the first entry with key `key`.
pub open spec fn key_index(entries: Seq<(String, Document)>, key: Seq<char>) -> Option<int>
    decreases entries.len(),
{
    if entries.len() == 0 {
        None
    } else if entries[0].0@ == key {
        Some(0)
    } else {
        match key_index(entries.drop_first(), key) {
            Some(i) => Some(i + 1),
            None => None,
        }
    }
}

/// Open documents keyed by the string form of their URI.
///
/// The store is a vector of (URI, document) pairs in which no URI occurs
/// twice, so that every lookup, insertion and removal is proved against the
/// map that [`Documents::spec_get`] describes; a hash map keyed by strings
/// comes with no specification of its lookups that such proofs could use.
#[derive(Debug)]
pub struct Documents {
    entries: Vec<(String, Document)>,
}

/// The full text a full-sync change notification leaves: the text of the
/// last change, or the current text when there is none.
pub open spec fn changed_text(current: Seq<char>, changes: Seq<Seq<char>>) -> Seq<char> {
    if changes.len() == 0 {
        current
    } else {
        changes.last()
    }
}

/// The texts of a list of strings.
pub open spec fn string_texts(v: Seq<String>) -> Seq<Seq<char>> {
    v.map_values(|s: String| s@)
}

/// Applies full-document content changes, given as the new texts in the
/// order the client sent them: the last one wins.
pub fn apply_changes(current: &str, changes: &[String]) -> (res: String)
    ensures
        res@ == changed_text(current@, string_texts(changes@)),
{
    if changes.len() == 0 {
        current.to_owned()
    } else {
        changes[changes.len() - 1].clone()
    }
}

proof fn lemma_lookup_index(entries: Seq<(String, Document)>, key: Seq<char>)
    ensures
        key_index(entries, key) is None <==> lookup(entries, key) is None,
        key_index(entries, key) matches Some(i) ==> 0 <= i < entries.len() && entries[i].0@ == key
            && lookup(entries, key) == Some(document_view(entries[i].1)) && forall|j: int|
            0 <= j < i ==> #[trigger] entries[j].0@ != key,
    decreases entries.len(),
{
    if entries.len() > 0 && entries[0].0@ != key {
        lemma_lookup_index(entries.drop_first(), key);
        if let Some(i) = key_index(entries.drop_first(), key) {
            assert forall|j: int| 0 <= j < i + 1 implies #[trigger] entries[j].0@ != key by {
                if j > 0 {
                    assert(entries[j] == entries.drop_first()[j - 1]);
                }
            }
        }
    }
}

/// A key has a document exactly when some entry carries it.
proof fn lemma_lookup_some(entries: Seq<(String, Document)>, key: Seq<char>)
    ensures
        lookup(entries, key) is Some <==> exists|i: int| 0 <= i < entries.len() && #[trigger] entries[i].0@ == key,
    decreases entries.len(),
{
    if entries.len() > 0 {
        lemma_lookup_some(entries.drop_first(), key);
        if exists|i: int| 0 <= i < entries.len() && #[trigger] entries[i].0@ == key {
            let i = choose|i: int| 0 <= i < entries.len() && #[trigger] entries[i].0@ == key;
            if i > 0 {
                assert(entries.drop_first()[i - 1] == entries[i]);
            }
        }
        if exists|i: int| 0 <= i < entries.drop_first().len() && #[trigger] entries.drop_first()[i].0@ == key {
            let i = choose|i: int| 0 <= i < entries.drop_first().len() && #[trigger] entries.drop_first()[i].0@ == key;
            assert(entries[i + 1] == entries.drop_first()[i]);
        }
    }
}

/// Replacing the first entry with key `k` gives `k` the new document and
/// leaves every other key as it was.
proof fn lemma_lookup_update(entries: Seq<(String, Document)>, i: int, e: (String, Document), key: Seq<char>)
    requires
        0 <= i < entries.len(),
        entries[i].0@ == e.0@,
        forall|j: int| 0 <= j < i ==> #[trigger] entries[j].0@ != e.0@,
    ensures
        lookup(entries.update(i, e), key) == if key == e.0@ {
            Some(document_view(e.1))
        } else {
            lookup(entries, key)
        },
    decreases i,
{
    let u = entries.update(i, e);
    assert(u[0] == if i == 0 { e } else { entries[0] });
    if i == 0 {
        assert(u.drop_first() =~= entries.drop_first());
    } else {
        assert(u.drop_first() =~= entries.drop_first().update(i - 1, e));
        assert forall|j: int| 0 <= j < i - 1 implies #[trigger] entries.drop_first()[j].0@ != e.0@ by {
            assert(entries.drop_first()[j] == entries[j + 1]);
        }
        lemma_lookup_update(entries.drop_first(), i - 1, e, key);
        assert(u[0] == entries[0]);
    }
}

/// Appending an entry whose key is absent gives that key the new document.
proof fn lemma_lookup_push(entries: Seq<(String, Document)>, e: (String, Document), key: Seq<char>)
    requires
        lookup(entries, e.0@) is None,
    ensures
        lookup(entries.push(e), key) == if key == e.0@ {
            Some(document_view(e.1))
        } else {
            lookup(entries, key)
        },
    decreases entries.len(),
{
    let p = entries.push(e);
    if entries.len() > 0 {
        assert(p[0] == entries[0]);
        assert(entries[0].0@ != e.0@);
        assert(p.drop_first() =~= entries.drop_first().push(e));
        lemma_lookup_push(entries.drop_first(), e, key);
        if entries[0].0@ == key {
            assert(lookup(p, key) == Some(document_view(entries[0].1)));
        } else {
            assert(lookup(p, key) == lookup(p.drop_first(), key));
        }
    } else {
        assert(p[0] == e);
        assert(p.drop_first() =~= Seq::<(String, Document)>::empty());
        assert(lookup(p.drop_first(), key) is None);
    }
}

/// Removing an entry with another key leaves the lookup of `key` as it was.
proof fn lemma_lookup_remove(entries: Seq<(String, Document)>, i: int, key: Seq<char>)
    requires
        0 <= i < entries.len(),
        entries[i].0@ != key,
    ensures
        lookup(entries.remove(i), key) == lookup(entries, key),
    decreases i,
{
    if i > 0 {
        assert(entries.remove(i).drop_first() =~= entries.drop_first().remove(i - 1));
        assert(entries.remove(i)[0] == entries[0]);
        lemma_lookup_remove(entries.drop_first(), i - 1, key);
    } else {
        assert(entries.remove(0) =~= entries.drop_first());
    }
}

impl Documents {
    /// The document stored under `uri`, as its version and text.
    pub closed spec fn spec_get(&self, uri: Seq<char>) -> Option<(i32, Seq<char>)> {
        lookup(self.entries@, uri)
    }

    /// A store with no documents.
    pub fn new() -> (res: Documents)
        ensures
            forall|uri: Seq<char>| res.spec_get(uri) is None,
    {
        Documents { entries: Vec::new() }
    }

    /// The index of the entry for `uri`.
    fn position(&self, uri: &str) -> (res: Option<usize>)
        ensures
            res is None <==> key_index(self.entries@, uri@) is None,
            res matches Some(i) ==> key_index(self.entries@, uri@) == Some(i as int),
    {
        let mut i: usize = 0;
        assert(self.entries@.skip(0) =~= self.entries@);
        while i < self.entries.len()
            invariant
                0 <= i <= self.entries@.len(),
                key_index(self.entries@, uri@) == match key_index(self.entries@.skip(i as int), uri@) {
                    Some(j) => Some(j + i),
                    None => None,
                },
            decreases self.entries@.len() - i,
        {
            assert(self.entries@.skip(i as int).drop_first() =~= self.entries@.skip(i + 1));
            if str_eq(self.entries[i].0.as_str(), uri) {
                return Some(i);
            }
            i = i + 1;
        }
        None
    }

    /// The document stored under `uri`, if any.
    pub fn get(&self, uri: &str) -> (res: Option<&Document>)
        ensures
            match res {
                Some(d) => self.spec_get(uri@) == Some(document_view(*d)),
                None => self.spec_get(uri@) is None,
            },
    {
        proof {
            lemma_lookup_index(self.entries@, uri@);
        }
        match self.position(uri) {
            Some(i) => {
                assert(lookup(self.entries@, uri@) == Some(document_view(self.entries@[i as int].1)));
                Some(&self.entries[i].1)
            },
            None => None,
        }
    }

    /// Whether a document is stored under `uri`.
    pub fn contains_key(&self, uri: &str) -> (res: bool)
        ensures
            res == self.spec_get(uri@) is Some,
    {
        self.get(uri).is_some()
    }

    /// Stores `document` under `uri`, replacing any document stored there.
    pub fn insert(&mut self, uri: String, document: Document)
        ensures
            forall|key: Seq<char>|
                #[trigger] final(self).spec_get(key) == if key == uri@ {
                    Some(document_view(document))
                } else {
                    old(self).spec_get(key)
                },
    {
        proof {
            lemma_lookup_index(self.entries@, uri@);
        }
        let ghost before = self.entries@;
        let e = (uri, document);
        match self.position(e.0.as_str()) {
            Some(i) => {
                self.entries.set(i, e);
                proof {
                    assert forall|key: Seq<char>| #[trigger] lookup(self.entries@, key) == if key == e.0@ {
                        Some(document_view(e.1))
                    } else {
                        lookup(before, key)
                    } by {
                        lemma_lookup_update(before, i as int, e, key);
                    }
                }
            },
            None => {
                self.entries.push(e);
                proof {
                    assert forall|key: Seq<char>| #[trigger] lookup(self.entries@, key) == if key == e.0@ {
                        Some(document_view(e.1))
                    } else {
                        lookup(before, key)
                    } by {
                        lemma_lookup_push(before, e, key);
                    }
                }
            },
        }
    }

    /// The URIs of the stored documents, each once.
    pub fn uris(&self) -> (res: Vec<String>)
        ensures
            forall|uri: Seq<char>|
                (exists|i: int| 0 <= i < res@.len() && #[trigger] res@[i]@ == uri) <==> self.spec_get(uri) is Some,
    {
        let mut res: Vec<String> = Vec::new();
        let mut i: usize = 0;
        while i < self.entries.len()
            invariant
                0 <= i <= self.entries@.len(),
                res@.len() == i,
                forall|j: int| 0 <= j < i ==> #[trigger] res@[j]@ == self.entries@[j].0@,
            decreases self.entries@.len() - i,
        {
            res.push(self.entries[i].0.clone());
            i = i + 1;
        }
        proof {
            assert forall|uri: Seq<char>|
                (exists|i: int| 0 <= i < res@.len() && #[trigger] res@[i]@ == uri) <==> self.spec_get(uri) is Some by {
                lemma_lookup_some(self.entries@, uri);
                if exists|i: int| 0 <= i < res@.len() && #[trigger] res@[i]@ == uri {
                    let i = choose|i: int| 0 <= i < res@.len() && #[trigger] res@[i]@ == uri;
                    assert(self.entries@[i].0@ == uri);
                }
                if exists|i: int| 0 <= i < self.entries@.len() && #[trigger] self.entries@[i].0@ == uri {
                    let i = choose|i: int| 0 <= i < self.entries@.len() && #[trigger] self.entries@[i].0@ == uri;
                    assert(res@[i]@ == uri);
                }
            }
        }
        res
    }

    /// Removes the document stored under `uri`; returns whether there was
    /// one.
    pub fn remove(&mut self, uri: &str) -> (res: bool)
        ensures
            res == old(self).spec_get(uri@) is Some,
            forall|key: Seq<char>|
                #[trigger] final(self).spec_get(key) == if key == uri@ {
                    None
                } else {
                    old(self).spec_get(key)
                },
    {
        let found = self.contains_key(uri);
        loop
            invariant
                found == (lookup(old(self).entries@, uri@) is Some),
                forall|key: Seq<char>|
                    key != uri@ ==> #[trigger] lookup(self.entries@, key) == lookup(old(self).entries@, key),
            ensures
                found == (lookup(old(self).entries@, uri@) is Some),
                lookup(self.entries@, uri@) is None,
                forall|key: Seq<char>|
                    key != uri@ ==> #[trigger] lookup(self.entries@, key) == lookup(old(self).entries@, key),
            decreases self.entries@.len(),
        {
            proof {
                lemma_lookup_index(self.entries@, uri@);
            }
            match self.position(uri) {
                Some(i) => {
                    let ghost before = self.entries@;
                    assert(before[i as int].0@ == uri@);
                    self.entries.remove(i);
                    proof {
                        assert forall|key: Seq<char>| key != uri@ implies #[trigger] lookup(self.entries@, key)
                            == lookup(old(self).entries@, key) by {
                            lemma_lookup_remove(before, i as int, key);
                        }
                    }
                },
                None => {
                    break;
                },
            }
        }
        found
    }
}

/// A document notification, with the parameters the server uses.
#[derive(Debug)]
pub enum DocumentNotification {
    /// `textDocument/didOpen`: a document was opened with this text.
    DidOpen {
        /// The document's URI.
        uri: String,
        /// The version the client reported.
        version: i32,
        /// The full text.
        text: String,
    },
    /// `textDocument/didChange`: full-text changes, in order.
    DidChange {
        /// The document's URI.
        uri: String,
        /// The version the client reported.
        version: i32,
        /// The new full texts, in the order sent.
        changes: Vec<String>,
    },
    /// `textDocument/didClose`: a document was closed.
    DidClose {
        /// The document's URI.
        uri: String,
    },
}

/// What the transport does after a document notification.
#[derive(Debug)]
pub enum NotificationAction {
    /// Publish diagnostics for this URI.
    Publish(String),
    /// Clear the diagnostics of this URI.
    Clear(String),
    /// Nothing to send: the change was for a document that is not open.
    Nothing,
}

impl Documents {
    /// Applies a document notification to the store: an opened document is
    /// stored (replacing any stored under its URI) and its diagnostics
    /// published; a change to an open document stores the new version and
    /// the text of the last change, then publishes; a change to a document
    /// that is not open changes nothing; a closed document is dropped and
    /// its diagnostics cleared.
    pub fn apply_notification(&mut self, notification: DocumentNotification) -> (res: NotificationAction)
        ensures
            match notification {
                DocumentNotification::DidOpen { uri, version, text } => {
                    &&& res matches NotificationAction::Publish(u) && u@ == uri@
                    &&& forall|key: Seq<char>|
                        #[trigger] final(self).spec_get(key) == if key == uri@ {
                            Some((version, text@))
                        } else {
                            old(self).spec_get(key)
                        }
                },
                DocumentNotification::DidChange { uri, version, changes } => match old(self).spec_get(uri@) {
                    Some(current) => {
                        &&& res matches NotificationAction::Publish(u) && u@ == uri@
                        &&& forall|key: Seq<char>|
                            #[trigger] final(self).spec_get(key) == if key == uri@ {
                                Some((version, changed_text(current.1, string_texts(changes@))))
                            } else {
                                old(self).spec_get(key)
                            }
                    },
                    None => {
                        &&& res is Nothing
                        &&& forall|key: Seq<char>| #[trigger] final(self).spec_get(key) == old(self).spec_get(key)
                    },
                },
                DocumentNotification::DidClose { uri } => {
                    &&& res matches NotificationAction::Clear(u) && u@ == uri@
                    &&& forall|key: Seq<char>|
                        #[trigger] final(self).spec_get(key) == if key == uri@ {
                            None
                        } else {
                            old(self).spec_get(key)
                        }
                },
            },
    {
        match notification {
            DocumentNotification::DidOpen { uri, version, text } => {
                let published = uri.clone();
                self.insert(uri, Document { version, text });
                NotificationAction::Publish(published)
            },
            DocumentNotification::DidChange { uri, version, changes } => {
                let text = match self.get(uri.as_str()) {
                    Some(document) => apply_changes(document.text.as_str(), changes.as_slice()),
                    None => {
                        return NotificationAction::Nothing;
                    },
                };
                let published = uri.clone();
                self.insert(uri, Document { version, text });
                NotificationAction::Publish(published)
            },
            DocumentNotification::DidClose { uri } => {
                self.remove(uri.as_str());
                NotificationAction::Clear(uri)
            },
        }
    }
}

/// The request handlers of the server.
#[derive(Debug, Clone, Copy, PartialEq, Eq, Structural)]
pub enum RequestRoute {
    /// `textDocument/documentSymbol`.
    DocumentSymbol,
    /// `textDocument/formatting`.
    Formatting,
    /// `textDocument/foldingRange`.
    FoldingRange,
    /// `textDocument/selectionRange`.
    SelectionRange,
    /// `textDocument/hover`.
    Hover,
    /// `textDocument/completion`.
    Completion,
    /// `textDocument/definition`.
    Definition,
    /// `textDocument/references`.
    References,
    /// `textDocument/rename`.
    Rename,
    /// `textDocument/prepareRename`.
    PrepareRename,
    /// `workspace/symbol`.
    WorkspaceSymbol,
    /// Any other method: answered with an empty response.
    Unhandled,
}

/// The handler for requests with method `method`.
pub open spec fn request_route(method: Seq<char>) -> RequestRoute {
    if method == "textDocument/documentSymbol"@ {
        RequestRoute::DocumentSymbol
    } else if method == "textDocument/formatting"@ {
        RequestRoute::Formatting
    } else if method == "textDocument/foldingRange"@ {
        RequestRoute::FoldingRange
    } else if method == "textDocument/selectionRange"@ {
        RequestRoute::SelectionRange
    } else if method == "textDocument/hover"@ {
        RequestRoute::Hover
    } else if method == "textDocument/completion"@ {
        RequestRoute::Completion
    } else if method == "textDocument/definition"@ {
        RequestRoute::Definition
    } else if method == "textDocument/references"@ {
        RequestRoute::References
    } else if method == "textDocument/rename"@ {
        RequestRoute::Rename
    } else if method == "textDocument/prepareRename"@ {
        RequestRoute::PrepareRename
    } else if method == "workspace/symbol"@ {
        RequestRoute::WorkspaceSymbol
    } else {
        RequestRoute::Unhandled
    }
}

/// Chooses the handler for a request by its method.
pub fn route_request(method: &str) -> (res: RequestRoute)
    ensures
        res == request_route(method@),
{
    if str_eq(method, "textDocument/documentSymbol") {
        RequestRoute::DocumentSymbol
    } else if str_eq(method, "textDocument/formatting") {
        RequestRoute::Formatting
    } else if str_eq(method, "textDocument/foldingRange") {
        RequestRoute::FoldingRange
    } else if str_eq(method, "textDocument/selectionRange") {
        RequestRoute::SelectionRange
    } else if str_eq(method, "textDocument/hover") {
        RequestRoute::Hover
    } else if str_eq(method, "textDocument/completion") {
        RequestRoute::Completion
    } else if str_eq(method, "textDocument/definition") {
        RequestRoute::Definition
    } else if str_eq(method, "textDocument/references") {
        RequestRoute::References
    } else if str_eq(method, "textDocument/rename") {
        RequestRoute::Rename
    } else if str_eq(method, "textDocument/prepareRename") {
        RequestRoute::PrepareRename
    } else if str_eq(method, "workspace/symbol") {
        RequestRoute::WorkspaceSymbol
    } else {
        RequestRoute::Unhandled
    }
}

/// The handlers of document notifications.
#[derive(Debug, Clone, Copy, PartialEq, Eq, Structural)]
pub enum NotificationRoute {
    /// `textDocument/didOpen`.
    DidOpen,
    /// `textDocument/didChange`.
    DidChange,
    /// `textDocument/didClose`.
    DidClose,
    /// Any other notification is ignored.
    Ignored,
}

/// The handler for notifications with method `method`.
pub open spec fn notification_route(method: Seq<char>) -> NotificationRoute {
    if method == "textDocument/didOpen"@ {
        NotificationRoute::DidOpen
    } else if method == "textDocument/didChange"@ {
        NotificationRoute::DidChange
    } else if method == "textDocument/didClose"@ {
        NotificationRoute::DidClose
    } else {
        NotificationRoute::Ignored
    }
}

/// Chooses the handler for a notification by its method.
pub fn route_notification(method: &str) -> (res: NotificationRoute)
    ensures
        res == notification_route(method@),
{
    if str_eq(method, "textDocument/didOpen") {
        NotificationRoute::DidOpen
    } else if str_eq(method, "textDocument/didChange") {
        NotificationRoute::DidChange
    } else if str_eq(method, "textDocument/didClose") {
        NotificationRoute::DidClose
    } else {
        NotificationRoute::Ignored
    }
}

} // verus!
