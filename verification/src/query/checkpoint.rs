//! The set of fingerprints that have reached a terminal outcome.
//!
//! A checkpoint is persisted as text, one fingerprint per line. Reading such a
//! text skips blank lines and keeps each fingerprint once, at its first
//! occurrence.

use vstd::prelude::*;
use vstd::string::StringExecFns;
use crate::lines::{lines, no_newline, split_lines, lemma_lines_break};
use crate::text::{push_char, views};
use crate::unique::UniqueStrings;

verus! {

/// The non-empty lines among `all`, each kept once, at its first occurrence.
pub open spec fn distinct_nonempty(all: Seq<Seq<char>>) -> Seq<Seq<char>>
    decreases all.len(),
{
    if all.len() == 0 {
        seq![]
    } else {
        let before = distinct_nonempty(all.drop_last());
        let line = all.last();
        if line.len() == 0 || before.contains(line) {
            before
        } else {
            before.push(line)
        }
    }
}

/// The entries that reading the persisted `text` yields.
pub open spec fn loaded_entries(text: Seq<char>) -> Seq<Seq<char>> {
    distinct_nonempty(lines(text))
}

/// The persisted form of `entries`: each entry followed by a line feed.
pub open spec fn rendered(entries: Seq<Seq<char>>) -> Seq<char>
    decreases entries.len(),
{
    if entries.len() == 0 {
        seq![]
    } else {
        entries[0] + seq!['\n'] + rendered(entries.skip(1))
    }
}

/// Whether `entry` survives being written as a line and read back: it is not
/// empty, holds no line feed and does not end in a carriage return.
pub open spec fn line_safe(entry: Seq<char>) -> bool {
    &&& entry.len() > 0
    &&& no_newline(entry)
    &&& entry.last() != '\r'
}

/// The set of processed fingerprints, with the path of the file that persists
/// it. Entries keep the order in which they were first marked.
pub struct Checkpoint {
    path: String,
    processed: UniqueStrings,
}

impl View for Checkpoint {
    type V = Set<Seq<char>>;

    open spec fn view(&self) -> Set<Seq<char>> {
        self.entries().to_set()
    }
}

impl Checkpoint {
    /// The entries in the order in which they were first marked.
    pub closed spec fn entries(&self) -> Seq<Seq<char>> {
        self.processed.entries()
    }

    /// The path of the file that persists this checkpoint.
    pub closed spec fn path_view(&self) -> Seq<char> {
        self.path@
    }

    /// Whether the representation is sound.
    pub closed spec fn consistent(&self) -> bool {
        self.processed.wf()
    }

    /// Well-formedness: no entry occurs twice.
    pub open spec fn wf(&self) -> bool {
        &&& self.entries().no_duplicates()
        &&& self.consistent()
    }

    /// An empty checkpoint that is to be persisted at `path`.
    pub fn new(path: &str) -> (cp: Checkpoint)
        ensures
            cp.wf(),
            cp.path_view() == path@,
            cp.entries() == Seq::<Seq<char>>::empty(),
            cp@ == Set::<Seq<char>>::empty(),
    {
        Checkpoint { path: path.to_owned(), processed: UniqueStrings::new() }
    }

    /// The checkpoint persisted at `path`, whose file holds `contents`, or
    /// holds nothing where the file does not exist.
    pub fn load(path: &str, contents: Option<&str>) -> (cp: Checkpoint)
        ensures
            cp.wf(),
            cp.path_view() == path@,
            cp.entries() == match contents {
                Some(text) => loaded_entries(text@),
                None => Seq::<Seq<char>>::empty(),
            },
    {
        let mut cp = Checkpoint::new(path);
        match contents {
            None => {},
            Some(text) => {
                let all = split_lines(text);
                let mut i: usize = 0;
                assert(views(all@).take(0) =~= Seq::<Seq<char>>::empty());
                while i < all.len()
                    invariant
                        i <= all.len(),
                        views(all@) == lines(text@),
                        cp.wf(),
                        cp.path_view() == path@,
                        cp.entries() == distinct_nonempty(views(all@).take(i as int)),
                    decreases all.len() - i,
                {
                    let ghost upto = views(all@).take(i as int + 1);
                    assert(upto.drop_last() =~= views(all@).take(i as int));
                    assert(upto.last() == all@[i as int]@);
                    let line = all[i].as_str();
                    if !line.is_empty() {
                        cp.mark_processed(line);
                    }
                    i = i + 1;
                }
                assert(views(all@).take(all.len() as int) =~= views(all@));
            },
        }
        cp
    }

    /// Marks `hash` as processed. Marking it again changes nothing.
    pub fn mark_processed(&mut self, hash: &str)
        requires
            old(self).wf(),
        ensures
            final(self).wf(),
            final(self).path_view() == old(self).path_view(),
            final(self)@ == old(self)@.insert(hash@),
            final(self).entries() == if old(self)@.contains(hash@) {
                old(self).entries()
            } else {
                old(self).entries().push(hash@)
            },
    {
        self.processed.insert(hash);
    }

    /// Whether `hash` has been marked as processed.
    pub fn is_processed(&self, hash: &str) -> (r: bool)
        requires
            self.wf(),
        ensures
            r == self@.contains(hash@),
    {
        self.processed.contains(hash)
    }

    /// The persisted form of this checkpoint: one entry per line, in the
    /// order in which the entries were first marked.
    pub fn save(&self) -> (text: String)
        requires
            self.wf(),
        ensures
            text@ == rendered(self.entries()),
    {
        let mut out = String::new();
        let n = self.processed.len();
        let mut i: usize = 0;
        assert(self.entries().skip(0) =~= self.entries());
        assert(out@ + rendered(self.entries()) =~= rendered(self.entries()));
        while i < n
            invariant
                i <= n,
                n == self.entries().len(),
                rendered(self.entries()) == out@ + rendered(self.entries().skip(i as int)),
            decreases n - i,
        {
            let ghost rest = self.entries().skip(i as int);
            assert(rest[0] == self.entries()[i as int]);
            assert(rest.skip(1) =~= self.entries().skip(i as int + 1));
            let ghost prev = out@;
            out.append(self.processed.get(i));
            push_char(&mut out, '\n');
            assert(out@ + rendered(rest.skip(1)) =~= prev + rendered(rest));
            i = i + 1;
        }
        assert(out@ + Seq::<char>::empty() =~= out@);
        out
    }

    /// The path of the file that persists this checkpoint.
    pub fn path(&self) -> (p: &str)
        ensures
            p@ == self.path_view(),
    {
        self.path.as_str()
    }

    /// The number of processed fingerprints.
    pub fn len(&self) -> (n: usize)
        requires
            self.wf(),
        ensures
            n == self@.len(),
            n == self.entries().len(),
    {
        self.processed.len()
    }
}

/// Reading back what was written of entries that are safe as lines yields
/// those lines unchanged.
pub proof fn lemma_lines_of_rendered(entries: Seq<Seq<char>>)
    requires
        forall|i: int| 0 <= i < entries.len() ==> line_safe(#[trigger] entries[i]),
    ensures
        lines(rendered(entries)) == entries,
    decreases entries.len(),
{
    if entries.len() == 0 {
    } else {
        let rest = entries.skip(1);
        assert forall|i: int| 0 <= i < rest.len() implies line_safe(#[trigger] rest[i]) by {
            assert(rest[i] == entries[i + 1]);
        }
        lemma_lines_of_rendered(rest);
        assert(line_safe(entries[0]));
        lemma_lines_break(entries[0], rendered(rest));
        assert(seq![entries[0]] + rest =~= entries);
    }
}

/// Distinct non-empty lines are all kept, in their order.
pub proof fn lemma_distinct_nonempty_keeps(entries: Seq<Seq<char>>)
    requires
        entries.no_duplicates(),
        forall|i: int| 0 <= i < entries.len() ==> (#[trigger] entries[i]).len() > 0,
    ensures
        distinct_nonempty(entries) == entries,
    decreases entries.len(),
{
    if entries.len() == 0 {
    } else {
        let before = entries.drop_last();
        lemma_distinct_nonempty_keeps(before);
        assert(!before.contains(entries.last()));
        assert(before.push(entries.last()) =~= entries);
    }
}

/// Saving a checkpoint and loading what was saved gives back the same
/// entries, in the same order, provided that every entry is safe as a line.
/// The processed set of the loaded checkpoint is then the set that was saved.
pub proof fn lemma_save_load_round_trip(entries: Seq<Seq<char>>)
    requires
        entries.no_duplicates(),
        forall|i: int| 0 <= i < entries.len() ==> line_safe(#[trigger] entries[i]),
    ensures
        loaded_entries(rendered(entries)) == entries,
        loaded_entries(rendered(entries)).to_set() == entries.to_set(),
{
    lemma_lines_of_rendered(entries);
    lemma_distinct_nonempty_keeps(entries);
}

/// A fingerprint is safe as a line: it is made of sixteen hexadecimal
/// digits. So a checkpoint that holds fingerprints alone is read back as it
/// was saved.
pub proof fn lemma_fingerprint_is_line_safe(affiliation: Seq<char>)
    ensures
        line_safe(crate::fingerprint(affiliation)),
{
    let f = crate::fingerprint(affiliation);
    crate::lemma_fingerprint_shape(affiliation);
    assert forall|i: int| 0 <= i < f.len() implies f[i] != '\n' by {
        assert(crate::hex::is_hex_digit(f[i]));
    }
    assert(crate::hex::is_hex_digit(f[15]));
}

} // verus!
