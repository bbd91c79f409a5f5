use vstd::prelude::*;
use crate::text::same_text;

verus! {

pub struct Book {
    pub title: String,
    pub checkout_out: bool,
}

pub struct Library {
    pub books: Vec<Book>,
}

impl Library {
    /// Marks every book titled `title` as checked out; the others keep their state.
    pub fn checkout_book(&mut self, title: String)
        ensures
            final(self).books@.len() == old(self).books@.len(),
            forall|i: int| 0 <= i < old(self).books@.len() ==> {
                &&& (#[trigger] final(self).books@[i]).title == old(self).books@[i].title
                &&& final(self).books@[i].checkout_out == (old(self).books@[i].checkout_out
                    || old(self).books@[i].title@ == title@)
            },
    {
        let n = self.books.len();
        let mut i: usize = 0;
        while i < n
            invariant
                n == self.books@.len() == old(self).books@.len(),
                i <= n,
                forall|k: int| 0 <= k < n ==> (#[trigger] self.books@[k]).title == old(self).books@[k].title,
                forall|k: int| 0 <= k < i ==> (#[trigger] self.books@[k]).checkout_out == (old(self).books@[k].checkout_out
                    || old(self).books@[k].title@ == title@),
                forall|k: int| i <= k < n ==> (#[trigger] self.books@[k]).checkout_out == old(self).books@[k].checkout_out,
            decreases n - i,
        {
            if same_text(self.books[i].title.as_str(), title.as_str()) {
                self.books[i].checkout_out = true;
            }
            i = i + 1;
        }
    }
}

} // verus!
