//! The open documents of the language server, kept with full-text sync.

use crate::hover::{hover_markdown, hover_text};
use crate::markup::body_character_count;
use crate::novel::novel_metrics;
use vstd::prelude::*;

verus! {

/// The map that a list of (key, text) entries stands for.
pub open spec fn map_of(entries: Seq<(Seq<char>, Seq<char>)>) -> Map<Seq<char>, Seq<char>> {
    Map::new(
        |k: Seq<char>| exists|i: int| 0 <= i < entries.len() && (#[trigger] entries[i]).0 == k,
        |k: Seq<char>|
            entries[choose|i: int| 0 <= i < entries.len() && (#[trigger] entries[i]).0 == k].1,
    )
}

/// No key occurs twice among the entries.
pub open spec fn distinct_keys(entries: Seq<(Seq<char>, Seq<char>)>) -> bool {
    forall|i: int, j: int|
        0 <= i < entries.len() && 0 <= j < entries.len() && i != j ==> (#[trigger] entries[i]).0
            != (#[trigger] entries[j]).0
}

proof fn lemma_map_of_entry(entries: Seq<(Seq<char>, Seq<char>)>, i: int)
    requires
        distinct_keys(entries),
        0 <= i < entries.len(),
    ensures
        map_of(entries).contains_key(entries[i].0),
        map_of(entries)[entries[i].0] == entries[i].1,
{
    let k = entries[i].0;
    assert(map_of(entries).dom().contains(k));
    let j = choose|j: int| 0 <= j < entries.len() && (#[trigger] entries[j]).0 == k;
    assert(j == i);
}

proof fn lemma_map_of_absent(entries: Seq<(Seq<char>, Seq<char>)>, k: Seq<char>)
    requires
        forall|i: int| 0 <= i < entries.len() ==> (#[trigger] entries[i]).0 != k,
    ensures
        !map_of(entries).contains_key(k),
{
}

/// The map of the entries equals `m` when both hold the same keys, each
/// with its entry's text.
proof fn lemma_map_of_equals(entries: Seq<(Seq<char>, Seq<char>)>, m: Map<Seq<char>, Seq<char>>)
    requires
        distinct_keys(entries),
        forall|i: int| 0 <= i < entries.len() ==> m.contains_key((#[trigger] entries[i]).0) && m[entries[i].0] == entries[i].1,
        forall|k: Seq<char>| #[trigger] m.contains_key(k) ==> exists|i: int| 0 <= i < entries.len() && (#[trigger] entries[i]).0 == k,
    ensures
        map_of(entries) == m,
{
    assert forall|k: Seq<char>| #[trigger] map_of(entries).contains_key(k) implies m.contains_key(k) && map_of(entries)[k] == m[k] by {
        let i = choose|i: int| 0 <= i < entries.len() && (#[trigger] entries[i]).0 == k;
        lemma_map_of_entry(entries, i);
    }
    assert(map_of(entries) =~= m);
}

/// The documents that the client has open, each with its full text, keyed
/// by URI.
pub struct DocumentStore {
    entries: Vec<(String, String)>,
}

impl DocumentStore {
    /// The entries, as plain values.
    pub closed spec fn entry_views(&self) -> Seq<(Seq<char>, Seq<char>)> {
        self.entries@.map_values(|e: (String, String)| (e.0@, e.1@))
    }

    /// No URI is held twice.
    pub closed spec fn wf(&self) -> bool {
        distinct_keys(self.entry_views())
    }
}

impl View for DocumentStore {
    type V = Map<Seq<char>, Seq<char>>;

    /// The open documents: URI to full text.
    closed spec fn view(&self) -> Map<Seq<char>, Seq<char>> {
        map_of(self.entry_views())
    }
}

/// What a change notification leaves of `documents`: with full-text sync,
/// the last change's text replaces the document, if it is open and there
/// is a change at all.
pub open spec fn after_change(
    documents: Map<Seq<char>, Seq<char>>,
    uri: Seq<char>,
    changes: Seq<Seq<char>>,
) -> Map<Seq<char>, Seq<char>> {
    if changes.len() > 0 && documents.contains_key(uri) {
        documents.insert(uri, changes.last())
    } else {
        documents
    }
}

/// What hover shows for `uri`: the body character count of the document,
/// or nothing when it is not open.
pub open spec fn hover_for(documents: Map<Seq<char>, Seq<char>>, uri: Seq<char>) -> Option<
    Seq<char>,
> {
    if documents.contains_key(uri) {
        Some(hover_text(body_character_count(documents[uri])))
    } else {
        None
    }
}

impl DocumentStore {
    /// A store with no open document.
    pub fn new() -> (store: Self)
        ensures
            store.wf(),
            store@ == Map::<Seq<char>, Seq<char>>::empty(),
    {
        let store = DocumentStore { entries: Vec::new() };
        assert(store.entry_views() =~= Seq::empty());
        assert(store@ =~= Map::<Seq<char>, Seq<char>>::empty());
        store
    }

    /// Where `uri` is held.
    fn position(&self, uri: &String) -> (res: Option<usize>)
        requires
            self.wf(),
        ensures
            match res {
                Some(i) => i < self.entries@.len() && self.entry_views()[i as int].0 == uri@,
                None => forall|i: int|
                    0 <= i < self.entries@.len() ==> (#[trigger] self.entry_views()[i]).0 != uri@,
            },
    {
        let mut i: usize = 0;
        while i < self.entries.len()
            invariant
                i <= self.entries@.len(),
                forall|j: int| 0 <= j < i ==> (#[trigger] self.entry_views()[j]).0 != uri@,
            decreases self.entries@.len() - i,
        {
            if self.entries[i].0 == *uri {
                return Some(i);
            }
            i += 1;
        }
        None
    }

    /// The client opened `uri` with `text`.
    pub fn did_open(&mut self, uri: String, text: String)
        requires
            old(self).wf(),
        ensures
            final(self).wf(),
            final(self)@ == old(self)@.insert(uri@, text@),
    {
        let ghost old_views = self.entry_views();
        let ghost key = uri@;
        let ghost value = text@;
        proof {
            self.lemma_entries_in_view();
        }
        match self.position(&uri) {
            Some(i) => {
                self.replace_text(i, text);
            },
            None => {
                self.entries.push((uri, text));
                proof {
                    assert(self.entry_views() =~= old_views.push((key, value)));
                    let m = old(self)@.insert(key, value);
                    let v = self.entry_views();
                    assert forall|j: int| 0 <= j < v.len() implies m.contains_key((#[trigger] v[j]).0) && m[v[j].0] == v[j].1 by {
                        if j < old_views.len() {
                            assert(v[j] == old_views[j]);
                        }
                    }
                    assert forall|k: Seq<char>| #[trigger] m.contains_key(k) implies exists|j: int| 0 <= j < v.len() && (#[trigger] v[j]).0 == k by {
                        if k == key {
                            assert(v[old_views.len() as int].0 == k);
                        } else {
                            let j = choose|j: int| 0 <= j < old_views.len() && (#[trigger] old_views[j]).0 == k;
                            assert(v[j].0 == k);
                        }
                    }
                    lemma_map_of_equals(v, m);
                }
            },
        }
    }

    proof fn lemma_entries_in_view(&self)
        requires
            self.wf(),
        ensures
            forall|i: int|
                0 <= i < self.entry_views().len() ==> self@.contains_key(
                    (#[trigger] self.entry_views()[i]).0,
                ) && self@[self.entry_views()[i].0] == self.entry_views()[i].1,
    {
        assert forall|i: int| 0 <= i < self.entry_views().len() implies self@.contains_key(
            (#[trigger] self.entry_views()[i]).0,
        ) && self@[self.entry_views()[i].0] == self.entry_views()[i].1 by {
            lemma_map_of_entry(self.entry_views(), i);
        }
    }

    /// The document at `i` now has `text`.
    fn replace_text(&mut self, i: usize, text: String)
        requires
            old(self).wf(),
            i < old(self).entries@.len(),
        ensures
            final(self).wf(),
            final(self)@ == old(self)@.insert(old(self).entry_views()[i as int].0, text@),
    {
        let ghost old_views = self.entry_views();
        let ghost key = old_views[i as int].0;
        let ghost value = text@;
        proof {
            self.lemma_entries_in_view();
        }
        let uri = self.entries[i].0.clone();
        self.entries.set(i, (uri, text));
        proof {
            assert(self.entry_views() =~= old_views.update(i as int, (key, value)));
            let m = old(self)@.insert(key, value);
            let v = self.entry_views();
            assert forall|j: int| 0 <= j < v.len() implies m.contains_key((#[trigger] v[j]).0)
                && m[v[j].0] == v[j].1 by {
                if j != i {
                    assert(v[j] == old_views[j]);
                }
            }
            assert forall|k: Seq<char>| #[trigger] m.contains_key(k) implies exists|j: int|
                0 <= j < v.len() && (#[trigger] v[j]).0 == k by {
                if k == key {
                    assert(v[i as int].0 == k);
                } else {
                    let j = choose|j: int|
                        0 <= j < old_views.len() && (#[trigger] old_views[j]).0 == k;
                    assert(v[j].0 == k);
                }
            }
            lemma_map_of_equals(v, m);
        }
    }

    /// The client changed `uri`; `changes` are the texts of its content
    /// changes, in order. With full-text sync the last one is the new text.
    pub fn did_change(&mut self, uri: &String, changes: Vec<String>)
        requires
            old(self).wf(),
        ensures
            final(self).wf(),
            final(self)@ == after_change(
                old(self)@,
                uri@,
                changes@.map_values(|c: String| c@),
            ),
    {
        let ghost texts = changes@.map_values(|c: String| c@);
        let mut changes = changes;
        let last = match changes.pop() {
            Some(text) => text,
            None => return,
        };
        assert(texts.last() == last@);
        match self.position(uri) {
            Some(i) => {
                proof {
                    self.lemma_entries_in_view();
                }
                self.replace_text(i, last);
            },
            None => {
                proof {
                    lemma_map_of_absent(self.entry_views(), uri@);
                }
            },
        }
    }

    /// The client closed `uri`.
    pub fn did_close(&mut self, uri: &String)
        requires
            old(self).wf(),
        ensures
            final(self).wf(),
            final(self)@ == old(self)@.remove(uri@),
    {
        let ghost old_views = self.entry_views();
        proof {
            self.lemma_entries_in_view();
        }
        match self.position(uri) {
            Some(i) => {
                let ghost key = old_views[i as int].0;
                let _closed = self.entries.remove(i);
                proof {
                    assert(self.entry_views() =~= old_views.remove(i as int));
                    let m = old(self)@.remove(key);
                    let v = self.entry_views();
                    assert forall|j: int| 0 <= j < v.len() implies m.contains_key(
                        (#[trigger] v[j]).0,
                    ) && m[v[j].0] == v[j].1 by {
                        if j < i {
                            assert(v[j] == old_views[j]);
                        } else {
                            assert(v[j] == old_views[j + 1]);
                        }
                    }
                    assert forall|k: Seq<char>| #[trigger] m.contains_key(k) implies exists|j: int|
                        0 <= j < v.len() && (#[trigger] v[j]).0 == k by {
                        let j = choose|j: int|
                            0 <= j < old_views.len() && (#[trigger] old_views[j]).0 == k;
                        if j < i {
                            assert(v[j].0 == k);
                        } else {
                            assert(v[j - 1].0 == k);
                        }
                    }
                    lemma_map_of_equals(v, m);
                }
            },
            None => {
                proof {
                    lemma_map_of_absent(old_views, uri@);
                    assert(old(self)@.remove(uri@) =~= old(self)@);
                }
            },
        }
    }

    /// What hover shows for `uri`: the Markdown text with the body character
    /// count of the document, or nothing when it is not open.
    pub fn hover(&self, uri: &String) -> (markdown: Option<String>)
        requires
            self.wf(),
        ensures
            match markdown {
                Some(text) => hover_for(self@, uri@) == Some(text@),
                None => hover_for(self@, uri@) is None,
            },
    {
        match self.position(uri) {
            Some(i) => {
                proof {
                    lemma_map_of_entry(self.entry_views(), i as int);
                }
                let metrics = novel_metrics(self.entries[i].1.as_str());
                Some(hover_markdown(metrics.body_character_count()))
            },
            None => {
                proof {
                    lemma_map_of_absent(self.entry_views(), uri@);
                }
                None
            },
        }
    }
}


/// Hover after opening a document shows the body character count of the
/// text it was opened with.
pub proof fn law_hover_after_open(
    documents: Map<Seq<char>, Seq<char>>,
    uri: Seq<char>,
    text: Seq<char>,
)
    ensures
        hover_for(documents.insert(uri, text), uri) == Some(hover_text(body_character_count(text))),
{
}

/// Hover after a change of an open document shows the count of the last
/// change's text; a change with no content leaves the hover as it was, and
/// a change of a document that is not open opens nothing.
pub proof fn law_hover_after_change(
    documents: Map<Seq<char>, Seq<char>>,
    uri: Seq<char>,
    changes: Seq<Seq<char>>,
)
    ensures
        hover_for(after_change(documents, uri, changes), uri) == if !documents.contains_key(uri) {
            None
        } else if changes.len() > 0 {
            Some(hover_text(body_character_count(changes.last())))
        } else {
            hover_for(documents, uri)
        },
{
}

/// Hover after closing a document shows nothing.
pub proof fn law_hover_after_close(documents: Map<Seq<char>, Seq<char>>, uri: Seq<char>)
    ensures
        hover_for(documents.remove(uri), uri) is None,
{
}

/// Opening, changing or closing one document leaves what hover shows for
/// every other document as it was.
pub proof fn law_other_documents_unaffected(
    documents: Map<Seq<char>, Seq<char>>,
    uri: Seq<char>,
    other: Seq<char>,
    text: Seq<char>,
    changes: Seq<Seq<char>>,
)
    requires
        other != uri,
    ensures
        hover_for(documents.insert(uri, text), other) == hover_for(documents, other),
        hover_for(after_change(documents, uri, changes), other) == hover_for(documents, other),
        hover_for(documents.remove(uri), other) == hover_for(documents, other),
{
}

} // verus!
