use vstd::prelude::*;

verus! {

/// A value computed at most once and shared afterwards: a one-way latch from
/// empty to initialized.
pub struct MyOnceCell<T> {
    data: Option<T>,
}

impl<T> MyOnceCell<T> {
    /// The value the cell holds, once initialized.
    pub closed spec fn value(&self) -> Option<T> {
        self.data
    }

    /// What `get_or_init(f)` does to `pre`, giving `post` and the value `r`.
    pub open spec fn get_or_init_post<F: FnOnce() -> T>(pre: Self, f: F, post: Self, r: T) -> bool {
        match pre.value() {
            Some(v) => r == v && post == pre,
            None => f.ensures((), r) && post.value() == Some(r),
        }
    }

    /// An empty cell.
    pub fn new() -> (r: Self)
        ensures
            r.value() is None,
    {
        MyOnceCell { data: None }
    }

    /// The value, if the cell was initialized.
    pub fn get(&self) -> (r: Option<&T>)
        ensures
            match r {
                Some(v) => self.value() == Some(*v),
                None => self.value() is None,
            },
    {
        self.data.as_ref()
    }

    /// Returns the cell's value. On an empty cell `f` runs, exactly once, and its
    /// result is stored; on an initialized one `f` is not called and the stored
    /// value is returned.
    pub fn get_or_init<F: FnOnce() -> T>(&mut self, f: F) -> (r: &T)
        requires
            old(self).value() is None ==> f.requires(()),
        ensures
            Self::get_or_init_post(*old(self), f, *final(self), *r),
    {
        if self.data.is_none() {
            let value = f();
            self.data = Some(value);
        }
        self.data.as_ref().unwrap()
    }
}

/// Single execution: once a cell was initialized, every later call returns
/// the same value and leaves the cell as it was, whatever initializer it brings.
pub proof fn lemma_single_initialization<T, F: FnOnce() -> T, G: FnOnce() -> T>(
    c0: MyOnceCell<T>,
    f: F,
    c1: MyOnceCell<T>,
    r1: T,
    g: G,
    c2: MyOnceCell<T>,
    r2: T,
)
    requires
        MyOnceCell::get_or_init_post(c0, f, c1, r1),
        MyOnceCell::get_or_init_post(c1, g, c2, r2),
    ensures
        r2 == r1,
        c2 == c1,
        c1.value() == Some(r1),
{
}

} // verus!
