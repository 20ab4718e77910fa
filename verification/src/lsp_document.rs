//! Which documents a language server has been told about, and which
//! notification keeps it in step with the editor.
use vstd::prelude::*;
use crate::text::{chars_of, push_str};

verus! {

/// Whether `p` is a prefix of `s`.
pub open spec fn has_prefix(s: Seq<char>, p: Seq<char>) -> bool {
    p.len() <= s.len() && s.take(p.len() as int) == p
}

/// The plain view of an optional string.
pub open spec fn opt_view(o: Option<String>) -> Option<Seq<char>> {
    match o {
        Some(s) => Some(s@),
        None => None,
    }
}

/// The `file:` URI of an absolute path, as the `url` crate writes it
/// (`Url::from_file_path`), or `None` for a path it refuses.
pub uninterp spec fn file_uri_of(path: Seq<char>) -> Option<Seq<char>>;

/// The `file:` URI of a path (`url::Url::from_file_path`). The crate
/// refuses a path that is not absolute and writes a URI that starts with
/// `file://`; what it percent-encodes is not stated here.
#[verifier::external_body]
fn file_uri(path: &str) -> (r: Option<String>)
    ensures
        opt_view(r) == file_uri_of(path@),
        path@.len() == 0 ==> r is None,
        r matches Some(u) ==> has_prefix(u@, "file://"@),
{
    match url::Url::from_file_path(std::path::Path::new(path)) {
        Ok(u) => Some(u.into()),
        Err(_) => None,
    }
}

/// The `file:` URI of a workspace root, which a language server is started
/// on; `None` when the crate refuses the path (a relative one, for one).
pub fn workspace_root_uri(root: &str) -> (r: Option<String>)
    ensures
        opt_view(r) == file_uri_of(root@),
        root@.len() == 0 ==> r is None,
        r matches Some(u) ==> has_prefix(u@, "file://"@),
{
    file_uri(root)
}

/// A document the server has been told about.
#[derive(Debug, Clone)]
pub struct TrackedDocument {
    pub path: String,
    pub version: i32,
    pub source: String,
}

/// A tracked document as plain values: path, version, text.
pub type TrackedView = (Seq<char>, i32, Seq<char>);

/// The documents a server has been told about.
pub struct DocumentSync {
    documents: Vec<TrackedDocument>,
}

/// The plain view of tracked documents.
pub open spec fn tracked_view(d: Seq<TrackedDocument>) -> Seq<TrackedView> {
    d.map_values(|t: TrackedDocument| (t.path@, t.version, t.source@))
}

/// The index of the first tracked document with this path.
pub open spec fn index_of(docs: Seq<TrackedView>, path: Seq<char>) -> Option<int>
    decreases docs.len(),
{
    if docs.len() == 0 {
        None
    } else {
        match index_of(docs.drop_last(), path) {
            Some(i) => Some(i),
            None => if docs.last().0 == path {
                Some(docs.len() - 1)
            } else {
                None
            },
        }
    }
}

/// What to tell the server about a document.
#[derive(Debug, Clone, PartialEq, Eq)]
pub enum DocumentNotification {
    /// `textDocument/didOpen`: a new document at version 1.
    Open { uri: String, language_id: String, version: i32, text: String },
    /// `textDocument/didChange`: the whole new text at the next version.
    Change { uri: String, version: i32, text: String },
}

/// Why no notification could be made.
#[derive(Debug, Clone, Copy, PartialEq, Eq, Structural)]
pub enum DocumentSyncError {
    /// The path has no `file:` URI.
    InvalidPath,
}

/// Whether two strings hold the same text.
fn same_text(a: &String, b: &str) -> (r: bool)
    ensures
        r == (a@ == b@),
{
    let x = chars_of(a.as_str());
    let y = chars_of(b);
    if x.len() != y.len() {
        return false;
    }
    let mut i: usize = 0;
    while i < x.len()
        invariant
            x@.len() == y@.len(),
            x@ == a@,
            y@ == b@,
            0 <= i <= x@.len(),
            forall|k: int| 0 <= k < i ==> x@[k] == y@[k],
        decreases x@.len() - i,
    {
        if x[i] != y[i] {
            return false;
        }
        i += 1;
    }
    assert(x@ =~= y@);
    true
}

/// The documents after `source` was synced at `path`: an unknown document
/// is tracked at version 1; a tracked one whose text changed gets the next
/// version and the new text; an unchanged one stays as it is.
pub open spec fn synced_view(docs: Seq<TrackedView>, path: Seq<char>, source: Seq<char>) -> Seq<TrackedView> {
    match index_of(docs, path) {
        None => docs.push((path, 1i32, source)),
        Some(i) => if docs[i].2 == source {
            docs
        } else {
            docs.update(i, (path, (docs[i].1 + 1) as i32, source))
        },
    }
}

impl DocumentSync {
    /// The tracked documents as plain values.
    pub closed spec fn view(&self) -> Seq<TrackedView> {
        tracked_view(self.documents@)
    }

    /// No document is tracked yet.
    pub fn new() -> (r: DocumentSync)
        ensures
            r.view() == Seq::<TrackedView>::empty(),
    {
        let r = DocumentSync { documents: Vec::new() };
        assert(r.view() =~= Seq::<TrackedView>::empty());
        r
    }

    /// The version of the tracked document at `path`.
    pub fn version_of(&self, path: &str) -> (r: Option<i32>)
        ensures
            r == (match index_of(self.view(), path@) {
                Some(i) => Some(self.view()[i].1),
                None => None,
            }),
    {
        match self.find(path) {
            Some(i) => Some(self.documents[i].version),
            None => None,
        }
    }

    fn find(&self, path: &str) -> (r: Option<usize>)
        ensures
            r matches Some(i) ==> index_of(self.view(), path@) == Some(i as int) && i
                < self.documents@.len(),
            r is None ==> index_of(self.view(), path@) is None,
    {
        let mut i: usize = 0;
        while i < self.documents.len()
            invariant
                0 <= i <= self.documents@.len(),
                index_of(self.view().take(i as int), path@) is None,
            decreases self.documents@.len() - i,
        {
            let ghost pre = self.view().take(i as int);
            assert(self.view().take(i + 1).drop_last() =~= pre);
            if same_text(&self.documents[i].path, path) {
                proof {
                    lemma_index_of_prefix(self.view(), path@, i + 1);
                }
                return Some(i);
            }
            i += 1;
        }
        assert(self.view().take(i as int) =~= self.view());
        None
    }

    /// The notification that brings the server up to date with `source`
    /// at `path`: an unknown document is opened at version 1 and tracked;
    /// a tracked one whose text changed gets the next version; an unchanged
    /// one needs none. Fails only when the path has no `file:` URI, and then
    /// changes nothing.
    pub fn notification_for(&mut self, language_id: &str, path: &str, source: &str) -> (r:
        Result<Option<DocumentNotification>, DocumentSyncError>)
        requires
            index_of(old(self).view(), path@) matches Some(i) ==> old(self).view()[i].1 < i32::MAX,
        ensures
            file_uri_of(path@) is None ==> r == Err::<Option<DocumentNotification>, _>(
                DocumentSyncError::InvalidPath,
            ) && final(self).view() == old(self).view(),
            file_uri_of(path@) is Some ==> r is Ok,
            r is Ok ==> final(self).view() == synced_view(old(self).view(), path@, source@),
            r is Ok ==> match index_of(old(self).view(), path@) {
                None => {
                    &&& final(self).view() == old(self).view().push((path@, 1i32, source@))
                    &&& r matches Ok(Some(DocumentNotification::Open { uri, language_id: l, version, text }))
                    &&& Some(uri@) == file_uri_of(path@) && l@ == language_id@ && version == 1
                        && text@ == source@
                },
                Some(i) => if old(self).view()[i].2 == source@ {
                    r == Ok::<Option<DocumentNotification>, DocumentSyncError>(None)
                        && final(self).view() == old(self).view()
                } else {
                    &&& final(self).view() == old(self).view().update(
                        i,
                        (path@, (old(self).view()[i].1 + 1) as i32, source@),
                    )
                    &&& r matches Ok(Some(DocumentNotification::Change { uri, version, text }))
                    &&& Some(uri@) == file_uri_of(path@) && version == old(self).view()[i].1 + 1
                        && text@ == source@
                },
            },
    {
        let uri = match file_uri(path) {
            Some(u) => u,
            None => return Err(DocumentSyncError::InvalidPath),
        };
        match self.find(path) {
            Some(i) => {
                if same_text(&self.documents[i].source, source) {
                    return Ok(None);
                }
                assert(self.view()[i as int].1 < i32::MAX);
                let version = self.documents[i].version + 1;
                let mut new_path = String::new();
                push_str(&mut new_path, path);
                let mut new_source = String::new();
                push_str(&mut new_source, source);
                let ghost before = self.documents@;
                self.documents.set(
                    i,
                    TrackedDocument { path: new_path, version, source: new_source },
                );
                proof {
                    lemma_index_of_found(tracked_view(before), path@);
                }
                assert(self.view() =~= tracked_view(before).update(
                    i as int,
                    (path@, version, source@),
                ));
                let mut text = String::new();
                push_str(&mut text, source);
                Ok(Some(DocumentNotification::Change { uri, version, text }))
            },
            None => {
                let mut new_path = String::new();
                push_str(&mut new_path, path);
                let mut new_source = String::new();
                push_str(&mut new_source, source);
                let ghost before = self.documents@;
                self.documents.push(TrackedDocument { path: new_path, version: 1, source: new_source });
                assert(self.view() =~= tracked_view(before).push((path@, 1i32, source@)));
                let mut lang = String::new();
                push_str(&mut lang, language_id);
                let mut text = String::new();
                push_str(&mut text, source);
                Ok(Some(DocumentNotification::Open { uri, language_id: lang, version: 1, text }))
            },
        }
    }

    /// Forgets every document (when the server restarts).
    pub fn clear(&mut self)
        ensures
            final(self).view() == Seq::<TrackedView>::empty(),
    {
        self.documents = Vec::new();
        assert(self.view() =~= Seq::<TrackedView>::empty());
    }
}

/// The first match found in a prefix is the first match overall.
pub proof fn lemma_index_of_prefix(docs: Seq<TrackedView>, path: Seq<char>, n: int)
    requires
        0 < n <= docs.len(),
        index_of(docs.take(n - 1), path) is None,
        docs[n - 1].0 == path,
    ensures
        index_of(docs, path) == Some(n - 1),
    decreases docs.len(),
{
    if n < docs.len() {
        assert(docs.drop_last().take(n - 1) =~= docs.take(n - 1));
        lemma_index_of_prefix(docs.drop_last(), path, n);
    } else {
        assert(docs.drop_last() =~= docs.take(n - 1));
    }
}

/// The first match has the path.
pub proof fn lemma_index_of_found(docs: Seq<TrackedView>, path: Seq<char>)
    ensures
        index_of(docs, path) matches Some(i) ==> 0 <= i < docs.len() && docs[i].0 == path,
    decreases docs.len(),
{
    if docs.len() > 0 {
        lemma_index_of_found(docs.drop_last(), path);
    }
}

/// Syncing a document tracks it with the synced text, and syncing the same
/// text again changes nothing: a document is opened once, and a change is
/// sent only when its text changed.
pub proof fn law_sync_twice_is_sync_once(docs: Seq<TrackedView>, path: Seq<char>, source: Seq<char>)
    requires
        index_of(docs, path) matches Some(i) ==> docs[i].1 < i32::MAX,
    ensures
        index_of(synced_view(docs, path, source), path) matches Some(k) && synced_view(
            docs,
            path,
            source,
        )[k].2 == source,
        synced_view(synced_view(docs, path, source), path, source) == synced_view(docs, path, source),
{
    let once = synced_view(docs, path, source);
    lemma_index_of_found(docs, path);
    match index_of(docs, path) {
        None => {
            assert(once.drop_last() =~= docs);
            assert(index_of(once, path) == Some(docs.len() as int));
        },
        Some(i) => {
            if docs[i].2 != source {
                lemma_index_of_update(docs, path, i, (path, (docs[i].1 + 1) as i32, source));
            }
        },
    }
}

/// Replacing the first document at `path` by another at the same path keeps
/// it the first one at that path.
proof fn lemma_index_of_update(docs: Seq<TrackedView>, path: Seq<char>, i: int, d: TrackedView)
    requires
        index_of(docs, path) == Some(i),
        d.0 == path,
    ensures
        index_of(docs.update(i, d), path) == Some(i),
    decreases docs.len(),
{
    lemma_index_of_found(docs, path);
    let u = docs.update(i, d);
    if i < docs.len() - 1 {
        assert(u.drop_last() =~= docs.drop_last().update(i, d));
        lemma_index_of_update(docs.drop_last(), path, i, d);
    } else {
        assert(u.drop_last() =~= docs.drop_last());
    }
}

} // verus!
