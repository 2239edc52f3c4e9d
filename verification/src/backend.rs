//! The documents that are open in the editor: what was last published for
//! each, when to publish again, and which quick fixes answer a request.

use crate::conflict::Analyzer;
use crate::diagnostics::{
    action_views, conflict_entries_of, contains_diagnostic, diagnostic_views, diagnostics_of,
    entries_equal, entries_of, entry_diagnostics, entry_views, matching_actions, CodeAction,
    Diagnostic, Entry, EntryView,
};
use crate::grammar::MarkerGrammar;
use crate::model::document_conflicts;
use crate::types::{conflict_views, Conflict, ConflictView};
use vstd::prelude::*;
use vstd::string::StringExecFns;

verus! {

/// What was last published for one document.
struct Published {
    uri: String,
    entries: Vec<Entry>,
}

/// The entries published for `uri` in `documents`: those of the last
/// record for that document.
spec fn lookup(documents: Seq<Published>, uri: Seq<char>) -> Option<Seq<EntryView>>
    decreases documents.len(),
{
    if documents.len() == 0 {
        None
    } else if documents.last().uri@ == uri {
        Some(entry_views(documents.last().entries@))
    } else {
        lookup(documents.drop_last(), uri)
    }
}

proof fn lemma_lookup_absent(documents: Seq<Published>, uri: Seq<char>)
    requires
        forall|k: int| 0 <= k < documents.len() ==> (#[trigger] documents[k]).uri@ != uri,
    ensures
        lookup(documents, uri) is None,
    decreases documents.len(),
{
    if documents.len() > 0 {
        lemma_lookup_absent(documents.drop_last(), uri);
    }
}

proof fn lemma_lookup_at(documents: Seq<Published>, uri: Seq<char>, at: int)
    requires
        0 <= at < documents.len(),
        documents[at].uri@ == uri,
        forall|k: int| at < k < documents.len() ==> (#[trigger] documents[k]).uri@ != uri,
    ensures
        lookup(documents, uri) == Some(entry_views(documents[at].entries@)),
    decreases documents.len(),
{
    if at < documents.len() - 1 {
        lemma_lookup_at(documents.drop_last(), uri, at);
    }
}

proof fn lemma_lookup_after_update(
    documents: Seq<Published>,
    at: int,
    record: Published,
    uri: Seq<char>,
)
    requires
        0 <= at < documents.len(),
        documents[at].uri@ == record.uri@,
        record.uri@ != uri,
    ensures
        lookup(documents.update(at, record), uri) == lookup(documents, uri),
    decreases documents.len(),
{
    let updated = documents.update(at, record);
    if at < documents.len() - 1 {
        assert(updated.drop_last() == documents.drop_last().update(at, record));
        lemma_lookup_after_update(documents.drop_last(), at, record, uri);
    } else {
        assert(updated.drop_last() == documents.drop_last());
    }
}

/// No document has two records.
spec fn distinct(documents: Seq<Published>) -> bool {
    forall|i: int, j: int|
        0 <= i < j < documents.len() ==> (#[trigger] documents[i]).uri@
            != (#[trigger] documents[j]).uri@
}

/// The documents that are open in the editor, each with the diagnostics
/// and quick fixes last published for it.
pub struct Backend {
    documents: Vec<Published>,
}

impl Backend {
    /// No document occurs twice.
    #[verifier::type_invariant]
    pub closed spec fn inv(&self) -> bool {
        distinct(self.documents@)
    }

    /// What was last published for the document `uri`, if anything was.
    pub closed spec fn published(&self, uri: Seq<char>) -> Option<Seq<EntryView>> {
        lookup(self.documents@, uri)
    }

    /// A backend with no open document.
    pub fn new() -> (backend: Backend)
        ensures
            forall|uri: Seq<char>| backend.published(uri) is None,
    {
        Backend { documents: Vec::new() }
    }

    /// The diagnostics and quick fixes for `conflicts` in the document `uri`:
    /// for each conflict, in order, a warning on each block's header with the
    /// quick fix that accepts that block, then an error on the opening line
    /// with the quick fixes of all its blocks.
    pub fn get_diagnostics_and_code_actions_from_conflicts(
        &self,
        conflicts: &[Conflict],
        uri: &str,
    ) -> (entries: Vec<Entry>)
        ensures
            entry_views(entries@) == entries_of(conflict_views(conflicts@), uri@),
    {
        let mut entries: Vec<Entry> = Vec::new();
        let ghost views = conflict_views(conflicts@);
        let mut i: usize = 0;
        while i < conflicts.len()
            invariant
                i <= conflicts@.len(),
                views == conflict_views(conflicts@),
                entry_views(entries@) == entries_of(views.subrange(0, i as int), uri@),
            decreases conflicts@.len() - i,
        {
            conflict_entries_of(&conflicts[i], uri, &mut entries);
            proof {
                assert(views.subrange(0, i + 1).drop_last() == views.subrange(0, i as int));
                assert(views.subrange(0, i + 1).last() == conflicts@[i as int]@);
            }
            i = i + 1;
        }
        proof {
            assert(views.subrange(0, i as int) == views);
        }
        entries
    }

    /// Index of the record that counts for `uri`.
    fn find(&self, uri: &String) -> (at: Option<usize>)
        ensures
            match at {
                Some(at) => at < self.documents@.len() && self.published(uri@) == Some(
                    entry_views(self.documents@[at as int].entries@),
                ) && self.documents@[at as int].uri@ == uri@ && forall|k: int|
                    at < k < self.documents@.len() ==> (#[trigger] self.documents@[k]).uri@
                        != uri@,
                None => self.published(uri@) is None && forall|k: int|
                    0 <= k < self.documents@.len() ==> (#[trigger] self.documents@[k]).uri@
                        != uri@,
            },
    {
        let mut at: usize = self.documents.len();
        while at > 0
            invariant
                at <= self.documents@.len(),
                forall|k: int|
                    at <= k < self.documents@.len() ==> (#[trigger] self.documents@[k]).uri@
                        != uri@,
            decreases at,
        {
            at = at - 1;
            if self.documents[at].uri == *uri {
                proof {
                    lemma_lookup_at(self.documents@, uri@, at as int);
                }
                return Some(at);
            }
        }
        proof {
            lemma_lookup_absent(self.documents@, uri@);
        }
        None
    }

    /// Records `entries` as what is published for `uri`.
    fn insert(&mut self, uri: String, entries: Vec<Entry>)
        ensures
            forall|other: Seq<char>|
                #[trigger] final(self).published(other) == if other == uri@ {
                    Some(entry_views(entries@))
                } else {
                    old(self).published(other)
                },
    {
        let found = self.find(&uri);
        proof {
            use_type_invariant(&*self);
        }
        let ghost before = self.documents@;
        let record = Published { uri, entries };
        let mut documents: Vec<Published> = Vec::new();
        core::mem::swap(&mut self.documents, &mut documents);
        match found {
            Some(at) => {
                proof {
                    assert forall|other: Seq<char>|
                        #[trigger] lookup(before.update(at as int, record), other) == if other
                            == record.uri@ {
                            Some(entry_views(record.entries@))
                        } else {
                            lookup(before, other)
                        } by {
                        if other == record.uri@ {
                            lemma_lookup_at(before.update(at as int, record), other, at as int);
                        } else {
                            lemma_lookup_after_update(before, at as int, record, other);
                        }
                    }
                }
                documents.set(at, record);
            },
            None => {
                proof {
                    assert(before.push(record).drop_last() == before);
                }
                documents.push(record);
            },
        }
        self.documents = documents;
    }

    /// A document was opened with the text `text`: scans it, records what
    /// the scan gives and returns the diagnostics to publish.
    pub fn did_open(&mut self, grammar: &MarkerGrammar, uri: &str, text: &str) -> (diagnostics:
        Vec<Diagnostic>)
        ensures
            forall|other: Seq<char>|
                #[trigger] final(self).published(other) == if other == uri@ {
                    Some(entries_of(document_conflicts(text@), uri@))
                } else {
                    old(self).published(other)
                },
            diagnostic_views(diagnostics@) == entry_diagnostics(
                entries_of(document_conflicts(text@), uri@),
            ),
    {
        let mut analyzer = Analyzer::new(grammar, text);
        let conflicts = analyzer.find_conflicts();
        proof {
            assert(Seq::<ConflictView>::empty() + document_conflicts(text@)
                == document_conflicts(text@));
        }
        let entries = self.get_diagnostics_and_code_actions_from_conflicts(
            conflicts.as_slice(),
            uri,
        );
        let diagnostics = diagnostics_of(&entries);
        self.insert(String::from_str(uri), entries);
        diagnostics
    }

    /// The text of a document changed to `text`: scans it and, where the
    /// scan gives something other than what is published for the document,
    /// records that and returns the diagnostics to publish. Where nothing
    /// changed there is nothing to publish.
    pub fn did_change(&mut self, grammar: &MarkerGrammar, uri: &str, text: &str) -> (diagnostics:
        Option<Vec<Diagnostic>>)
        ensures
            forall|other: Seq<char>|
                #[trigger] final(self).published(other) == if other == uri@ {
                    Some(entries_of(document_conflicts(text@), uri@))
                } else {
                    old(self).published(other)
                },
            diagnostics is None <==> old(self).published(uri@) == Some(
                entries_of(document_conflicts(text@), uri@),
            ),
            diagnostics matches Some(d) ==> diagnostic_views(d@) == entry_diagnostics(
                entries_of(document_conflicts(text@), uri@),
            ),
    {
        let mut analyzer = Analyzer::new(grammar, text);
        let conflicts = analyzer.find_conflicts();
        proof {
            assert(Seq::<ConflictView>::empty() + document_conflicts(text@)
                == document_conflicts(text@));
        }
        let entries = self.get_diagnostics_and_code_actions_from_conflicts(
            conflicts.as_slice(),
            uri,
        );
        let name = String::from_str(uri);
        let unchanged = match self.find(&name) {
            Some(at) => entries_equal(&self.documents[at].entries, &entries),
            None => false,
        };
        if unchanged {
            None
        } else {
            let diagnostics = diagnostics_of(&entries);
            self.insert(name, entries);
            Some(diagnostics)
        }
    }

    /// The quick fixes for the diagnostics `requested` in the document
    /// `uri`: nothing where nothing is published for the document, else the
    /// quick fixes of each published diagnostic that is among `requested`,
    /// in the order of publication.
    pub fn code_action(&self, uri: &str, requested: &[Diagnostic]) -> (actions: Option<
        Vec<CodeAction>,
    >)
        ensures
            match self.published(uri@) {
                None => actions is None,
                Some(entries) => actions matches Some(found) && action_views(found@)
                    == matching_actions(entries, diagnostic_views(requested@)),
            },
    {
        let name = String::from_str(uri);
        let at = match self.find(&name) {
            Some(at) => at,
            None => {
                return None;
            },
        };
        let entries = &self.documents[at].entries;
        let ghost views = entry_views(entries@);
        let mut found: Vec<CodeAction> = Vec::new();
        let mut i: usize = 0;
        while i < entries.len()
            invariant
                i <= entries@.len(),
                views == entry_views(entries@),
                action_views(found@) == matching_actions(
                    views.subrange(0, i as int),
                    diagnostic_views(requested@),
                ),
            decreases entries@.len() - i,
        {
            proof {
                assert(views.subrange(0, i + 1).drop_last() == views.subrange(0, i as int));
                assert(views.subrange(0, i + 1).last() == views[i as int]);
            }
            if contains_diagnostic(requested, &entries[i].0) {
                let offered = &entries[i].1;
                let ghost before = action_views(found@);
                let mut k: usize = 0;
                while k < offered.len()
                    invariant
                        k <= offered@.len(),
                        action_views(found@) == before + action_views(offered@).subrange(
                            0,
                            k as int,
                        ),
                    decreases offered@.len() - k,
                {
                    let ghost listed = action_views(found@);
                    found.push(offered[k].clone());
                    proof {
                        assert(action_views(found@) == listed.push(offered@[k as int]@));
                        assert(action_views(offered@).subrange(0, k + 1) == action_views(
                            offered@,
                        ).subrange(0, k as int).push(offered@[k as int]@));
                    }
                    k = k + 1;
                }
                proof {
                    assert(action_views(offered@).subrange(0, k as int) == action_views(
                        offered@,
                    ));
                }
            }
            i = i + 1;
        }
        proof {
            assert(views.subrange(0, i as int) == views);
        }
        Some(found)
    }
}

} // verus!
