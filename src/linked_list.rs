use vstd::prelude::*;
use vstd::std_specs::cmp::PartialEqSpec;
use crate::indexed_list::{first_equal, lemma_first_equal_in_range};

verus! {

/// A list of borrowed elements, open at both ends.
pub struct LinkedList<'a, T> {
    items: Vec<&'a T>,
}

/// Walks the elements of a list from head to tail.
pub struct LinkedListIterator<'a, T> {
    data: Vec<&'a T>,
    cursor: usize,
}

impl<'a, T> LinkedListIterator<'a, T> {
    /// What is left to walk.
    pub closed spec fn rest(&self) -> Seq<&'a T> {
        self.data@.subrange(self.cursor as int, self.data@.len() as int)
    }

    pub closed spec fn wf(&self) -> bool {
        self.cursor <= self.data@.len()
    }

    /// A walk over `data`, from its first element.
    pub fn new(data: Vec<&'a T>) -> (r: Self)
        ensures
            r.wf(),
            r.rest() == data@,
    {
        let r = LinkedListIterator { data, cursor: 0 };
        proof {
            assert(r.rest() =~= r.data@);
        }
        r
    }

    /// The next element, if any.
    pub fn next(&mut self) -> (r: Option<&'a T>)
        requires
            old(self).wf(),
        ensures
            final(self).wf(),
            old(self).rest().len() == 0 ==> r is None && final(self).rest() == old(self).rest(),
            old(self).rest().len() > 0 ==> r == Some(old(self).rest()[0])
                && final(self).rest() == old(self).rest().drop_first(),
    {
        if self.cursor < self.data.len() {
            let item = self.data[self.cursor];
            self.cursor = self.cursor + 1;
            proof {
                assert(self.rest() =~= old(self).rest().drop_first());
            }
            Some(item)
        } else {
            None
        }
    }
}

impl<'a, T> LinkedList<'a, T> {
    /// The elements, from head to tail.
    pub closed spec fn view(&self) -> Seq<&'a T> {
        self.items@
    }

    /// An empty list.
    pub fn new() -> (r: Self)
        ensures
            r@.len() == 0,
    {
        LinkedList { items: Vec::new() }
    }

    /// Number of elements.
    pub fn len(&self) -> (r: usize)
        ensures
            r == self@.len(),
    {
        self.items.len()
    }

    /// The head element, if any.
    pub fn head(&self) -> (r: Option<&'a T>)
        ensures
            self@.len() == 0 ==> r is None,
            self@.len() > 0 ==> r == Some(self@[0]),
    {
        if self.items.len() == 0 {
            None
        } else {
            Some(self.items[0])
        }
    }

    /// The tail element, if any.
    pub fn tail(&self) -> (r: Option<&'a T>)
        ensures
            self@.len() == 0 ==> r is None,
            self@.len() > 0 ==> r == Some(self@.last()),
    {
        if self.items.len() == 0 {
            None
        } else {
            Some(self.items[self.items.len() - 1])
        }
    }

    /// Puts `data` before the head.
    pub fn add_to_head(&mut self, data: &'a T)
        ensures
            final(self)@ == seq![data] + old(self)@,
    {
        self.items.insert(0, data);
        proof {
            assert(self@ =~= seq![data] + old(self)@);
        }
    }

    /// Puts `data` after the tail.
    pub fn add_to_tail(&mut self, data: &'a T)
        ensures
            final(self)@ == old(self)@.push(data),
    {
        self.items.push(data);
    }

    /// Walks the elements from head to tail.
    pub fn iter(&self) -> (r: LinkedListIterator<'a, T>)
        ensures
            r.wf(),
            r.rest() == self@,
    {
        let mut data: Vec<&'a T> = Vec::new();
        let mut i: usize = 0;
        while i < self.items.len()
            invariant
                i <= self.items@.len(),
                data@ == self.items@.subrange(0, i as int),
            decreases self.items@.len() - i,
        {
            data.push(self.items[i]);
            i = i + 1;
            proof {
                assert(data@ =~= self.items@.subrange(0, i as int));
            }
        }
        proof {
            assert(data@ =~= self.items@);
        }
        LinkedListIterator::new(data)
    }

    /// Takes the head element off, if any.
    pub fn pop_front(&mut self) -> (r: Option<&'a T>)
        ensures
            old(self)@.len() == 0 ==> r is None && final(self)@ == old(self)@,
            old(self)@.len() > 0 ==> r == Some(old(self)@[0]) && final(self)@ == old(self)@.drop_first(),
    {
        if self.items.len() == 0 {
            None
        } else {
            let item = self.items.remove(0);
            proof {
                assert(self@ =~= old(self)@.drop_first());
            }
            Some(item)
        }
    }

    /// Takes the tail element off, if any.
    pub fn pop_back(&mut self) -> (r: Option<&'a T>)
        ensures
            old(self)@.len() == 0 ==> r is None && final(self)@ == old(self)@,
            old(self)@.len() > 0 ==> r == Some(old(self)@.last()) && final(self)@ == old(self)@.drop_last(),
    {
        self.items.pop()
    }
}

impl<'a, T: PartialEq> LinkedList<'a, T> {
    /// Removes the first element equal to `value`; returns it.
    pub fn delete_by_value(&mut self, value: T) -> (r: Option<&'a T>)
        ensures
            T::obeys_eq_spec() ==> match first_equal(old(self)@, &value) {
                None => r is None && final(self)@ == old(self)@,
                Some(p) => r == Some(old(self)@[p]) && final(self)@ == old(self)@.remove(p),
            },
    {
        proof {
            lemma_first_equal_in_range(self@, &value);
        }
        match self.position_of(&value) {
            Some(p) => {
                let item = self.items.remove(p);
                Some(item)
            },
            None => None,
        }
    }

    fn position_of(&self, value: &T) -> (r: Option<usize>)
        ensures
            r matches Some(p) ==> p < self@.len(),
            T::obeys_eq_spec() ==> match first_equal(self@, value) {
                None => r is None,
                Some(p) => r matches Some(q) && q as int == p,
            },
    {
        let mut i: usize = 0;
        proof {
            assert(self@.subrange(0, self@.len() as int) =~= self@);
        }
        while i < self.items.len()
            invariant
                i <= self.items@.len(),
                T::obeys_eq_spec() ==> first_equal(self@, value) == match first_equal(self@.subrange(i as int, self@.len() as int), value) {
                    Some(k) => Some(k + i),
                    None => None,
                },
            decreases self.items@.len() - i,
        {
            proof {
                assert(self@.subrange(i as int, self@.len() as int).drop_first() =~= self@.subrange(i + 1, self@.len() as int));
            }
            if *self.items[i] == *value {
                return Some(i);
            }
            i = i + 1;
        }
        None
    }
}

} // verus!
