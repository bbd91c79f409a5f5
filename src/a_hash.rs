use vstd::prelude::*;
use vstd::string::StrSliceExecFns;
use crate::text::same_text;

verus! {

/// Number of buckets: one per lower-case letter, and one for the character after `z`.
pub const BUCKETS: usize = 27;

/// Keys that the table can hold: empty, or starting with a character from `a`
/// to the one after `z`.
pub open spec fn valid_key(key: Seq<char>) -> bool {
    key.len() == 0 || (97 <= key[0] as u32 && (key[0] as u32) < 124)
}

/// The bucket of `key`: its first character's distance from `a`; none for an empty key.
pub open spec fn slot(key: Seq<char>) -> Option<int> {
    if key.len() == 0 {
        None
    } else {
        Some(key[0] as u32 - 97)
    }
}

/// The value of the first entry of `entries` under `key`.
pub open spec fn first_match(entries: Seq<(Seq<char>, i32)>, key: Seq<char>) -> Option<i32>
    decreases entries.len(),
{
    if entries.len() == 0 {
        None
    } else if entries[0].0 == key {
        Some(entries[0].1)
    } else {
        first_match(entries.drop_first(), key)
    }
}

/// A hash table of `i32` values keyed by strings, chained per bucket; a key's
/// bucket is its first letter. Entries are kept in the order of insertion.
pub struct AHash {
    table: Vec<Vec<(String, i32)>>,
}

impl AHash {
    pub closed spec fn wf(&self) -> bool {
        self.table@.len() == BUCKETS
    }

    /// The entries of bucket `b`, in the order of insertion.
    pub closed spec fn bucket(&self, b: int) -> Seq<(Seq<char>, i32)> {
        self.table@[b]@.map_values(|e: (String, i32)| (e.0@, e.1))
    }

    /// An empty table.
    pub fn new() -> (r: Self)
        ensures
            r.wf(),
            forall|b: int| 0 <= b < BUCKETS ==> #[trigger] r.bucket(b).len() == 0,
    {
        let mut table: Vec<Vec<(String, i32)>> = Vec::new();
        let mut i: usize = 0;
        while i < BUCKETS
            invariant
                i <= BUCKETS,
                table@.len() == i,
                forall|b: int| 0 <= b < i ==> (#[trigger] table@[b])@.len() == 0,
            decreases BUCKETS - i,
        {
            table.push(Vec::new());
            i = i + 1;
        }
        AHash { table }
    }

    /// The bucket of `key`, if it has one.
    fn hash_function(&self, key: &str) -> (r: Option<u32>)
        requires
            valid_key(key@),
        ensures
            match slot(key@) {
                None => r is None,
                Some(b) => r == Some(b as u32),
            },
            r matches Some(b) ==> b < BUCKETS,
    {
        if key.unicode_len() == 0 {
            None
        } else {
            Some(key.get_char(0) as u32 - 97)
        }
    }

    /// Appends `(key, value)` to the bucket of `key` and returns the value; an
    /// empty key has no bucket and changes nothing.
    pub fn insert(&mut self, key: String, value: i32) -> (r: Option<i32>)
        requires
            old(self).wf(),
            valid_key(key@),
        ensures
            final(self).wf(),
            match slot(key@) {
                None => r is None && forall|b: int| 0 <= b < BUCKETS ==> #[trigger] final(self).bucket(b) == old(self).bucket(b),
                Some(s) => {
                    &&& r == Some(value)
                    &&& final(self).bucket(s) == old(self).bucket(s).push((key@, value))
                    &&& forall|b: int| 0 <= b < BUCKETS && b != s ==> #[trigger] final(self).bucket(b) == old(self).bucket(b)
                },
            },
    {
        match self.hash_function(key.as_str()) {
            None => None,
            Some(pos) => {
                let ghost k = key@;
                let ghost pre = self.bucket(pos as int);
                let ghost old_table = self.table@;
                let mut list = Vec::new();
                std::mem::swap(&mut list, &mut self.table[pos as usize]);
                list.push((key, value));
                std::mem::swap(&mut list, &mut self.table[pos as usize]);
                proof {
                    assert(self.bucket(pos as int) =~= pre.push((k, value)));
                    assert forall|b: int| 0 <= b < BUCKETS && b != pos as int implies #[trigger] self.bucket(b) == old(self).bucket(b) by {
                        assert(self.table@[b] == old_table[b]);
                    }
                }
                Some(value)
            },
        }
    }

    /// The value of the first entry under `key`, if any.
    pub fn search(&self, key: String) -> (r: Option<i32>)
        requires
            self.wf(),
            valid_key(key@),
        ensures
            r == match slot(key@) {
                None => None,
                Some(s) => first_match(self.bucket(s), key@),
            },
    {
        match self.hash_function(key.as_str()) {
            None => None,
            Some(pos) => {
                let list = &self.table[pos as usize];
                let ghost entries = self.bucket(pos as int);
                let mut i: usize = 0;
                proof {
                    assert(slot(key@) == Some(pos as int));
                    assert(entries.subrange(0, entries.len() as int) =~= entries);
                }
                while i < list.len()
                    invariant
                        entries == list@.map_values(|e: (String, i32)| (e.0@, e.1)),
                        entries == self.bucket(pos as int),
                        slot(key@) == Some(pos as int),
                        i <= list@.len(),
                        first_match(entries, key@) == first_match(entries.subrange(i as int, entries.len() as int), key@),
                    decreases list@.len() - i,
                {
                    proof {
                        assert(entries.subrange(i as int, entries.len() as int).drop_first() =~= entries.subrange(i + 1, entries.len() as int));
                    }
                    if same_text(list[i].0.as_str(), key.as_str()) {
                        proof {
                            assert(entries[i as int] == (list@[i as int].0@, list@[i as int].1));
                            assert(entries.subrange(i as int, entries.len() as int)[0] == entries[i as int]);
                            assert(first_match(entries.subrange(i as int, entries.len() as int), key@) == Some(list@[i as int].1));
                        }
                        return Some(list[i].1);
                    }
                    i = i + 1;
                }
                None
            },
        }
    }
}

} // verus!
