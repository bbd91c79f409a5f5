use vstd::prelude::*;
use crate::text::same_text;

verus! {

/// The count stored for `word` among `entries`, if any.
pub open spec fn count_in(entries: Seq<(String, i64)>, word: Seq<char>) -> Option<i64>
    decreases entries.len(),
{
    if entries.len() == 0 {
        None
    } else if entries.last().0@ == word {
        Some(entries.last().1)
    } else {
        count_in(entries.drop_last(), word)
    }
}

/// Counts of words, one entry per distinct word.
pub struct WordCountTable {
    table: Vec<(String, i64)>,
}

impl WordCountTable {
    /// The count of `word`, if it was seen.
    pub closed spec fn count(&self, word: Seq<char>) -> Option<i64> {
        count_in(self.table@, word)
    }

    /// The entries, in the order in which their words were first seen.
    pub closed spec fn entries(&self) -> Seq<(String, i64)> {
        self.table@
    }

    /// An empty table.
    pub fn new() -> (r: Self)
        ensures
            forall|w: Seq<char>| #[trigger] r.count(w) is None,
    {
        WordCountTable { table: Vec::new() }
    }

    fn position(&self, word: &str) -> (r: Option<usize>)
        ensures
            match r {
                Some(i) => i < self.table@.len() && self.count(word@) == Some(self.table@[i as int].1)
                    && count_in(self.table@.subrange(i + 1, self.table@.len() as int), word@) is None
                    && self.table@[i as int].0@ == word@,
                None => self.count(word@) is None,
            },
    {
        let mut i: usize = self.table.len();
        proof {
            assert(self.table@.subrange(0, i as int) =~= self.table@);
        }
        while i > 0
            invariant
                i <= self.table@.len(),
                count_in(self.table@, word@) == count_in(self.table@.subrange(0, i as int), word@),
                count_in(self.table@.subrange(i as int, self.table@.len() as int), word@) is None,
            decreases i,
        {
            proof {
                assert(self.table@.subrange(0, i as int).drop_last() =~= self.table@.subrange(0, i - 1));
                assert(self.table@.subrange(0, i as int).last() == self.table@[i - 1]);
                assert(self.table@.subrange(i - 1, self.table@.len() as int).drop_first()
                    =~= self.table@.subrange(i as int, self.table@.len() as int));
                assert(self.table@.subrange(i - 1, self.table@.len() as int)[0] == self.table@[i - 1]);
            }
            if same_text(self.table[i - 1].0.as_str(), word) {
                return Some(i - 1);
            }
            proof {
                lemma_count_in_front(self.table@.subrange(i - 1, self.table@.len() as int), word@);
            }
            i = i - 1;
        }
        None
    }

    /// The count of `word`: a word seen for the first time is stored with 0,
    /// and each later sighting adds one.
    pub fn count_word(&mut self, word: &String)
        requires
            old(self).count(word@) matches Some(c) ==> c < i64::MAX,
        ensures
            final(self).count(word@) == match old(self).count(word@) {
                Some(c) => Some((c + 1) as i64),
                None => Some(0i64),
            },
            forall|w: Seq<char>| w != word@ ==> #[trigger] final(self).count(w) == old(self).count(w),
    {
        let ghost pre = self.table@;
        match self.position(word.as_str()) {
            Some(i) => {
                let key = self.table[i].0.clone();
                let n = self.table[i].1;
                self.table.set(i, (key, n + 1));
                proof {
                    lemma_count_in_update(pre, i as int, self.table@[i as int]);
                    assert(self.table@ == pre.update(i as int, self.table@[i as int]));
                }
            },
            None => {
                self.table.push((word.clone(), 0));
                proof {
                    assert(self.table@.drop_last() =~= pre);
                }
            },
        }
    }

    /// The words and their counts, in the order in which the words were first seen.
    pub fn totals(&self) -> (r: Vec<(String, i64)>)
        ensures
            r@.len() == self.entries().len(),
            forall|i: int| 0 <= i < r@.len() ==> (#[trigger] r@[i]).0@ == self.entries()[i].0@ && r@[i].1
                == self.entries()[i].1,
            forall|i: int| 0 <= i < r@.len() ==> self.count((#[trigger] r@[i]).0@) is Some,
    {
        let mut r: Vec<(String, i64)> = Vec::new();
        let mut i: usize = 0;
        while i < self.table.len()
            invariant
                i <= self.table@.len(),
                r@.len() == i,
                forall|k: int| 0 <= k < i ==> (#[trigger] r@[k]).0@ == self.table@[k].0@ && r@[k].1
                    == self.table@[k].1,
            decreases self.table@.len() - i,
        {
            r.push((self.table[i].0.clone(), self.table[i].1));
            i = i + 1;
        }
        proof {
            assert forall|k: int| 0 <= k < r@.len() implies self.count((#[trigger] r@[k]).0@) is Some by {
                lemma_count_in_present(self.table@, k);
            }
        }
        r
    }

    /// The count stored for `word`, if it was seen.
    pub fn get(&self, word: &str) -> (r: Option<i64>)
        ensures
            r == self.count(word@),
    {
        match self.position(word) {
            Some(i) => Some(self.table[i].1),
            None => None,
        }
    }
}

/// A word held by some entry has a count.
pub proof fn lemma_count_in_present(entries: Seq<(String, i64)>, k: int)
    requires
        0 <= k < entries.len(),
    ensures
        count_in(entries, entries[k].0@) is Some,
    decreases entries.len(),
{
    if entries.last().0@ != entries[k].0@ {
        assert(k < entries.len() - 1);
        assert(entries.drop_last()[k] == entries[k]);
        lemma_count_in_present(entries.drop_last(), k);
    }
}

/// A word missing from the entries after the first one is found in them only
/// if the first entry holds it.
pub proof fn lemma_count_in_front(entries: Seq<(String, i64)>, word: Seq<char>)
    requires
        entries.len() > 0,
        count_in(entries.drop_first(), word) is None,
        entries[0].0@ != word,
    ensures
        count_in(entries, word) is None,
    decreases entries.len(),
{
    if entries.len() == 1 {
        assert(entries.last() == entries[0]);
        assert(entries.drop_last().len() == 0);
    } else {
        assert(entries.drop_last().drop_first() =~= entries.drop_first().drop_last());
        assert(entries.drop_first().last() == entries.last());
        assert(entries.drop_last()[0] == entries[0]);
        if entries.last().0@ != word {
            lemma_count_in_front(entries.drop_last(), word);
        }
    }
}

/// Replacing the entry at `i`, where no later entry holds its word, by one for
/// the same word changes that word's count alone.
pub proof fn lemma_count_in_update(entries: Seq<(String, i64)>, i: int, e: (String, i64))
    requires
        0 <= i < entries.len(),
        e.0@ == entries[i].0@,
        count_in(entries.subrange(i + 1, entries.len() as int), entries[i].0@) is None,
    ensures
        count_in(entries.update(i, e), e.0@) == Some(e.1),
        forall|w: Seq<char>| w != e.0@ ==> #[trigger] count_in(entries.update(i, e), w) == count_in(entries, w),
    decreases entries.len(),
{
    let n = entries.len() as int;
    let u = entries.update(i, e);
    if i == n - 1 {
        assert(u.drop_last() =~= entries.drop_last());
        assert(u.last() == e);
        assert(entries.last() == entries[i]);
        assert forall|w: Seq<char>| w != e.0@ implies #[trigger] count_in(u, w) == count_in(entries, w) by {
            assert(count_in(u, w) == count_in(u.drop_last(), w));
            assert(count_in(entries, w) == count_in(entries.drop_last(), w));
        }
    } else {
        let tail = entries.subrange(i + 1, n);
        assert(tail.last() == entries.last());
        assert(u.last() == entries.last());
        assert(tail.drop_last() =~= entries.drop_last().subrange(i + 1, n - 1));
        assert(u.drop_last() =~= entries.drop_last().update(i, e));
        lemma_count_in_update(entries.drop_last(), i, e);
        assert forall|w: Seq<char>| w != e.0@ implies #[trigger] count_in(u, w) == count_in(entries, w) by {
            if entries.last().0@ != w {
                assert(count_in(u, w) == count_in(u.drop_last(), w));
                assert(count_in(u.drop_last(), w) == count_in(entries.drop_last(), w));
            }
        }
    }
}

} // verus!
