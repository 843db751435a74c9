//! The document store: the current full text of every open document.
//!
//! The store maps a document's URI to its text.  An open or change
//! notification replaces the text wholesale; a change for a URI that was
//! never opened acts as an implicit open, so a client's protocol-ordering
//! mistakes cannot crash the server.  Its view is the map from URI to text.

use vstd::prelude::*;

verus! {

/// One owned store is passed to every handler; there is no ambient state.
pub struct DocumentStore {
    entries: Vec<(String, String)>,
}

/// The map that a sequence of URI/text entries denotes; later entries win,
/// though a well-formed store never repeats a URI.
spec fn entries_map(s: Seq<(String, String)>) -> Map<Seq<char>, Seq<char>>
    decreases s.len(),
{
    if s.len() == 0 {
        Map::empty()
    } else {
        entries_map(s.drop_last()).insert(s.last().0@, s.last().1@)
    }
}

/// A URI absent from every entry is absent from the map.
proof fn lemma_entries_map_absent(s: Seq<(String, String)>, key: Seq<char>)
    requires
        forall|t: int| 0 <= t < s.len() ==> (#[trigger] s[t]).0@ != key,
    ensures
        !entries_map(s).contains_key(key),
    decreases s.len(),
{
    if s.len() > 0 {
        assert(s.last() == s[s.len() - 1]);
        assert(forall|t: int| 0 <= t < s.drop_last().len() ==> (#[trigger] s.drop_last()[t]).0@
            != key);
        lemma_entries_map_absent(s.drop_last(), key);
    }
}

/// In a store without repeated URIs, the entry at `i` is what the map holds.
proof fn lemma_entries_map_at(s: Seq<(String, String)>, i: int)
    requires
        forall|a: int, b: int| 0 <= a < b < s.len() ==> (#[trigger] s[a]).0@ != (#[trigger] s[b]).0@,
        0 <= i < s.len(),
    ensures
        entries_map(s).contains_key(s[i].0@),
        entries_map(s)[s[i].0@] == s[i].1@,
    decreases s.len(),
{
    assert(s.last() == s[s.len() - 1]);
    if i == s.len() - 1 {
    } else {
        assert(forall|a: int, b: int| 0 <= a < b < s.drop_last().len() ==> (#[trigger] s.drop_last()[a]).0@
            != (#[trigger] s.drop_last()[b]).0@);
        lemma_entries_map_at(s.drop_last(), i);
        assert(s[i].0@ != s[s.len() - 1].0@);
    }
}

/// Replacing the text of the entry at `i` inserts into the map.
proof fn lemma_entries_map_update(s: Seq<(String, String)>, i: int, p: (String, String))
    requires
        forall|a: int, b: int| 0 <= a < b < s.len() ==> (#[trigger] s[a]).0@ != (#[trigger] s[b]).0@,
        0 <= i < s.len(),
        p.0@ == s[i].0@,
    ensures
        entries_map(s.update(i, p)) == entries_map(s).insert(p.0@, p.1@),
    decreases s.len(),
{
    let s2 = s.update(i, p);
    assert(s.last() == s[s.len() - 1]);
    assert(s2.last() == s2[s.len() - 1]);
    if i == s.len() - 1 {
        assert(s2.drop_last() =~= s.drop_last());
        assert(entries_map(s2) == entries_map(s.drop_last()).insert(p.0@, p.1@));
        assert(entries_map(s.drop_last()).insert(s.last().0@, s.last().1@).insert(p.0@, p.1@)
            =~= entries_map(s.drop_last()).insert(p.0@, p.1@));
    } else {
        assert(forall|a: int, b: int| 0 <= a < b < s.drop_last().len() ==> (#[trigger] s.drop_last()[a]).0@
            != (#[trigger] s.drop_last()[b]).0@);
        lemma_entries_map_update(s.drop_last(), i, p);
        assert(s2.drop_last() =~= s.drop_last().update(i, p));
        assert(s2.last() == s.last());
        assert(s[i].0@ != s.last().0@);
        assert(entries_map(s2) == entries_map(s.drop_last()).insert(p.0@, p.1@).insert(
            s.last().0@,
            s.last().1@,
        ));
        assert(entries_map(s.drop_last()).insert(p.0@, p.1@).insert(s.last().0@, s.last().1@)
            =~= entries_map(s.drop_last()).insert(s.last().0@, s.last().1@).insert(p.0@, p.1@));
    }
}

impl View for DocumentStore {
    type V = Map<Seq<char>, Seq<char>>;

    closed spec fn view(&self) -> Map<Seq<char>, Seq<char>> {
        entries_map(self.entries@)
    }
}

impl DocumentStore {
    /// No document's URI occurs twice.
    pub closed spec fn wf(&self) -> bool {
        forall|a: int, b: int|
            0 <= a < b < self.entries@.len() ==> (#[trigger] self.entries@[a]).0@
                != (#[trigger] self.entries@[b]).0@
    }

    pub fn new() -> (s: DocumentStore)
        ensures
            s.wf(),
            s@ == Map::<Seq<char>, Seq<char>>::empty(),
    {
        DocumentStore { entries: Vec::new() }
    }

    /// The index of the entry for `uri`, when the document is known.
    fn find_index(&self, uri: &String) -> (r: Option<usize>)
        ensures
            match r {
                Some(i) => i < self.entries@.len() && self.entries@[i as int].0@ == uri@,
                None => forall|t: int|
                    0 <= t < self.entries@.len() ==> (#[trigger] self.entries@[t]).0@ != uri@,
            },
    {
        let n = self.entries.len();
        let mut idx: usize = 0;
        while idx < n
            invariant
                idx <= n,
                n == self.entries@.len(),
                forall|t: int| 0 <= t < idx ==> (#[trigger] self.entries@[t]).0@ != uri@,
            decreases n - idx,
        {
            if self.entries[idx].0 == *uri {
                return Some(idx);
            }
            idx += 1;
        }
        None
    }

    /// Stores `text` as the full current text of `uri`, replacing any
    /// earlier text wholesale.
    fn set_text(&mut self, uri: String, text: String)
        requires
            old(self).wf(),
        ensures
            final(self).wf(),
            final(self)@ == old(self)@.insert(uri@, text@),
    {
        match self.find_index(&uri) {
            Some(i) => {
                proof {
                    lemma_entries_map_update(self.entries@, i as int, (uri, text));
                }
                let ghost pre = self.entries@;
                self.entries.set(i, (uri, text));
                proof {
                    assert forall|a: int, b: int| 0 <= a < b < self.entries@.len() implies (
                    #[trigger] self.entries@[a]).0@ != (#[trigger] self.entries@[b]).0@ by {
                        assert(pre[a].0@ != pre[b].0@);
                    }
                }
            },
            None => {
                proof {
                    lemma_entries_map_absent(self.entries@, uri@);
                }
                let ghost pre = self.entries@;
                self.entries.push((uri, text));
                proof {
                    assert(self.entries@.drop_last() =~= pre);
                    assert forall|a: int, b: int| 0 <= a < b < self.entries@.len() implies (
                    #[trigger] self.entries@[a]).0@ != (#[trigger] self.entries@[b]).0@ by {
                        if b < self.entries@.len() - 1 {
                            assert(pre[a].0@ != pre[b].0@);
                        } else {
                            assert(pre[a].0@ != uri@);
                        }
                    }
                }
            },
        }
    }

    /// Records a newly opened document's text.
    pub fn open(&mut self, uri: String, text: String)
        requires
            old(self).wf(),
        ensures
            final(self).wf(),
            final(self)@ == old(self)@.insert(uri@, text@),
    {
        self.set_text(uri, text);
    }

    /// Replaces a document's text; for an unknown URI this acts as an
    /// implicit open rather than an error.
    pub fn update(&mut self, uri: String, text: String)
        requires
            old(self).wf(),
        ensures
            final(self).wf(),
            final(self)@ == old(self)@.insert(uri@, text@),
    {
        self.set_text(uri, text);
    }

    /// The current text of `uri`, or nothing for a document never seen.
    pub fn get(&self, uri: &String) -> (r: Option<String>)
        requires
            self.wf(),
        ensures
            match r {
                Some(t) => self@.contains_key(uri@) && t@ == self@[uri@],
                None => !self@.contains_key(uri@),
            },
    {
        match self.find_index(uri) {
            Some(i) => {
                proof {
                    lemma_entries_map_at(self.entries@, i as int);
                }
                Some(self.entries[i].1.clone())
            },
            None => {
                proof {
                    lemma_entries_map_absent(self.entries@, uri@);
                }
                None
            },
        }
    }
}

/// Writing then reading gives back the text just written: an update of an
/// unknown URI behaves as an implicit open, and a second write for the same
/// URI replaces the first wholesale.
pub proof fn lemma_store_write_then_read(
    m: Map<Seq<char>, Seq<char>>,
    uri: Seq<char>,
    text1: Seq<char>,
    text2: Seq<char>,
)
    ensures
        m.insert(uri, text1).contains_key(uri),
        m.insert(uri, text1)[uri] == text1,
        m.insert(uri, text1).insert(uri, text2)[uri] == text2,
{
}

} // verus!
