//! What is known of the files and directories under analysis.
use vstd::prelude::*;
use vstd::string::*;
use crate::declaration::Declaration;
use crate::syntax::{parse_declarations, top_level_item_count};

verus! {

/// What stands at one path.
#[derive(Debug)]
pub enum Entry {
    /// Nothing.
    Absent,
    /// A directory.
    Directory,
    /// A file whose text is not at hand: not read, or unreadable.
    File,
    /// A text file that is not valid syntax.
    Malformed,
    /// A source file, with its top-level declarations in order.
    Source(Vec<Declaration>),
}

/// A snapshot of the disk: for each path probed so far, what stands there.
/// A path recorded twice is known by its latest record.
#[derive(Debug)]
pub struct SourceTree {
    entries: Vec<(String, Entry)>,
}

/// The latest record of `p` among `es`.
pub open spec fn latest_entry(es: Seq<(String, Entry)>, p: Seq<char>) -> Option<Entry>
    decreases es.len(),
{
    if es.len() == 0 {
        None
    } else if es.last().0@ == p {
        Some(es.last().1)
    } else {
        latest_entry(es.drop_last(), p)
    }
}

/// The length of the longest path among `es`.
pub open spec fn longest_path(es: Seq<(String, Entry)>) -> nat
    decreases es.len(),
{
    if es.len() == 0 {
        0
    } else {
        let rest = longest_path(es.drop_last());
        if es.last().0@.len() > rest {
            es.last().0@.len()
        } else {
            rest
        }
    }
}

proof fn lemma_recorded_path_bounded(es: Seq<(String, Entry)>, p: Seq<char>)
    ensures
        latest_entry(es, p) is Some ==> p.len() <= longest_path(es),
    decreases es.len(),
{
    if es.len() > 0 {
        lemma_recorded_path_bounded(es.drop_last(), p);
    }
}

impl SourceTree {
    /// What is known to stand at `p`; `None` when `p` has not been probed.
    pub closed spec fn entry(&self, p: Seq<char>) -> Option<Entry> {
        latest_entry(self.entries@, p)
    }

    /// The length of the longest path probed.
    pub closed spec fn longest(&self) -> nat {
        longest_path(self.entries@)
    }

    /// Every probed path is no longer than the longest.
    pub proof fn lemma_known_path_bounded(&self, p: Seq<char>)
        ensures
            self.entry(p) is Some ==> p.len() <= self.longest(),
    {
        lemma_recorded_path_bounded(self.entries@, p);
    }

    /// A snapshot in which nothing has been probed.
    pub fn new() -> (r: SourceTree)
        ensures
            forall|p: Seq<char>| r.entry(p) is None,
    {
        SourceTree { entries: Vec::new() }
    }

    /// Records what stands at `path`.
    pub fn record(&mut self, path: String, e: Entry)
        ensures
            final(self).entry(path@) == Some(e),
            forall|p: Seq<char>| p != path@ ==> final(self).entry(p) == old(self).entry(p),
    {
        let ghost before = self.entries@;
        self.entries.push((path, e));
        assert(self.entries@.drop_last() =~= before);
    }

    /// Records the file at `path` with the given text: its declarations, one for
    /// each top-level item, when the text parses; `Malformed` when it does not.
    pub fn record_source(&mut self, path: String, text: &str)
        ensures
            final(self).entry(path@) is Some,
            final(self).entry(path@)->0 is Source <==> top_level_item_count(text@) is Some,
            final(self).entry(path@)->0 is Malformed <==> top_level_item_count(text@) is None,
            final(self).entry(path@)->0 is Source ==> final(self).entry(path@)->0->Source_0@.len()
                == top_level_item_count(text@)->0,
            forall|p: Seq<char>| p != path@ ==> final(self).entry(p) == old(self).entry(p),
    {
        match parse_declarations(text) {
            Some(ds) => self.record(path, Entry::Source(ds)),
            None => self.record(path, Entry::Malformed),
        }
    }

    /// What is known to stand at `p`.
    pub fn lookup(&self, p: &str) -> (r: Option<&Entry>)
        ensures
            match r {
                Some(e) => self.entry(p@) == Some(*e),
                None => self.entry(p@) is None,
            },
    {
        let key = String::from_str(p);
        let mut i: usize = self.entries.len();
        assert(self.entries@.take(i as int) =~= self.entries@);
        while i > 0
            invariant
                i <= self.entries@.len(),
                key@ == p@,
                latest_entry(self.entries@, p@) == latest_entry(self.entries@.take(i as int), p@),
            decreases i,
        {
            assert(self.entries@.take(i as int).drop_last() =~= self.entries@.take(i - 1));
            if self.entries[i - 1].0 == key {
                return Some(&self.entries[i - 1].1);
            }
            i = i - 1;
        }
        None
    }
}

} // verus!
