use vstd::prelude::*;
use vstd::std_specs::cmp::PartialEqSpec;

verus! {

/// The position of the first element of `s` equal to `value`.
pub open spec fn first_equal<T: PartialEq>(s: Seq<&T>, value: &T) -> Option<int>
    decreases s.len(),
{
    if s.len() == 0 {
        None
    } else if s[0].eq_spec(value) {
        Some(0)
    } else {
        match first_equal(s.drop_first(), value) {
            Some(i) => Some(i + 1),
            None => None,
        }
    }
}

/// The position that [`first_equal`] gives lies inside the sequence.
pub proof fn lemma_first_equal_in_range<T: PartialEq>(s: Seq<&T>, value: &T)
    ensures
        first_equal(s, value) matches Some(i) ==> 0 <= i < s.len(),
    decreases s.len(),
{
    if s.len() > 0 {
        lemma_first_equal_in_range(s.drop_first(), value);
    }
}

/// An element of a list seen with its position, counted from 1.
pub struct Node<'a, T> {
    pub data: &'a T,
    pub index: usize,
}

/// A list of borrowed elements, open at both ends, whose positions count from 1.
pub struct LinkedList<'a, T> {
    items: Vec<&'a T>,
}

/// Walks the elements of a list from head to tail.
pub struct LinkedListIterator<'a, T> {
    data: Vec<&'a T>,
    cursor: usize,
}

/// Walks the elements of a list from head to tail with their positions.
pub struct LinkedListMutIterator<'a, T> {
    data: Vec<&'a T>,
    cursor: usize,
}

impl<'a, T> LinkedListIterator<'a, T> {
    /// What is left to walk.
    pub closed spec fn rest(&self) -> Seq<&'a T> {
        self.data@.subrange(self.cursor as int, self.data@.len() as int)
    }

    pub closed spec fn wf(&self) -> bool {
        self.cursor <= self.data@.len()
    }

    /// A walk over `data`, from its first element.
    pub fn new(data: Vec<&'a T>) -> (r: Self)
        ensures
            r.wf(),
            r.rest() == data@,
    {
        let r = LinkedListIterator { data, cursor: 0 };
        proof {
            assert(r.rest() =~= r.data@);
        }
        r
    }

    /// The next element, if any.
    pub fn next(&mut self) -> (r: Option<&'a T>)
        requires
            old(self).wf(),
        ensures
            final(self).wf(),
            old(self).rest().len() == 0 ==> r is None && final(self).rest() == old(self).rest(),
            old(self).rest().len() > 0 ==> r == Some(old(self).rest()[0])
                && final(self).rest() == old(self).rest().drop_first(),
    {
        if self.cursor < self.data.len() {
            let item = self.data[self.cursor];
            self.cursor = self.cursor + 1;
            proof {
                assert(self.rest() =~= old(self).rest().drop_first());
            }
            Some(item)
        } else {
            None
        }
    }
}

impl<'a, T> LinkedListMutIterator<'a, T> {
    /// What is left to walk.
    pub closed spec fn rest(&self) -> Seq<&'a T> {
        self.data@.subrange(self.cursor as int, self.data@.len() as int)
    }

    /// How many elements were walked already.
    pub closed spec fn walked(&self) -> nat {
        self.cursor as nat
    }

    pub closed spec fn wf(&self) -> bool {
        self.cursor <= self.data@.len()
    }

    /// A walk over `data`, from its first element.
    pub fn new(data: Vec<&'a T>) -> (r: Self)
        ensures
            r.wf(),
            r.rest() == data@,
            r.walked() == 0,
    {
        let r = LinkedListMutIterator { data, cursor: 0 };
        proof {
            assert(r.rest() =~= r.data@);
        }
        r
    }

    /// The next element with its position, if any.
    pub fn next(&mut self) -> (r: Option<Node<'a, T>>)
        requires
            old(self).wf(),
        ensures
            final(self).wf(),
            old(self).rest().len() == 0 ==> r is None && final(self).rest() == old(self).rest(),
            old(self).rest().len() > 0 ==> (r matches Some(node) && node.data == old(self).rest()[0]
                && node.index == old(self).walked() + 1),
            old(self).rest().len() > 0 ==> final(self).rest() == old(self).rest().drop_first()
                && final(self).walked() == old(self).walked() + 1,
    {
        if self.cursor < self.data.len() {
            let item = self.data[self.cursor];
            self.cursor = self.cursor + 1;
            proof {
                assert(self.rest() =~= old(self).rest().drop_first());
            }
            Some(Node { data: item, index: self.cursor })
        } else {
            None
        }
    }
}

impl<'a, T> LinkedList<'a, T> {
    /// The elements, from head to tail.
    pub closed spec fn view(&self) -> Seq<&'a T> {
        self.items@
    }

    /// An empty list.
    pub fn new() -> (r: Self)
        ensures
            r@.len() == 0,
    {
        LinkedList { items: Vec::new() }
    }

    /// Number of elements.
    pub fn len(&self) -> (r: usize)
        ensures
            r == self@.len(),
    {
        self.items.len()
    }

    /// The head element, if any.
    pub fn head(&self) -> (r: Option<&'a T>)
        ensures
            self@.len() == 0 ==> r is None,
            self@.len() > 0 ==> r == Some(self@[0]),
    {
        if self.items.len() == 0 {
            None
        } else {
            Some(self.items[0])
        }
    }

    /// The tail element, if any.
    pub fn tail(&self) -> (r: Option<&'a T>)
        ensures
            self@.len() == 0 ==> r is None,
            self@.len() > 0 ==> r == Some(self@.last()),
    {
        if self.items.len() == 0 {
            None
        } else {
            Some(self.items[self.items.len() - 1])
        }
    }

    /// Puts `data` before the head.
    pub fn add_to_head(&mut self, data: &'a T)
        ensures
            final(self)@ == seq![data] + old(self)@,
    {
        self.items.insert(0, data);
        proof {
            assert(self@ =~= seq![data] + old(self)@);
        }
    }

    /// Puts `data` after the tail.
    pub fn add_to_tail(&mut self, data: &'a T)
        ensures
            final(self)@ == old(self)@.push(data),
    {
        self.items.push(data);
    }

    /// Walks the elements from head to tail.
    pub fn iter(&self) -> (r: LinkedListIterator<'a, T>)
        ensures
            r.wf(),
            r.rest() == self@,
    {
        let mut data: Vec<&'a T> = Vec::new();
        let mut i: usize = 0;
        while i < self.items.len()
            invariant
                i <= self.items@.len(),
                data@ == self.items@.subrange(0, i as int),
            decreases self.items@.len() - i,
        {
            data.push(self.items[i]);
            i = i + 1;
            proof {
                assert(data@ =~= self.items@.subrange(0, i as int));
            }
        }
        proof {
            assert(data@ =~= self.items@);
        }
        LinkedListIterator::new(data)
    }

    /// Walks the elements from head to tail with their positions.
    pub fn iter_mut(&self) -> (r: LinkedListMutIterator<'a, T>)
        ensures
            r.wf(),
            r.rest() == self@,
            r.walked() == 0,
    {
        let mut data: Vec<&'a T> = Vec::new();
        let mut i: usize = 0;
        while i < self.items.len()
            invariant
                i <= self.items@.len(),
                data@ == self.items@.subrange(0, i as int),
            decreases self.items@.len() - i,
        {
            data.push(self.items[i]);
            i = i + 1;
            proof {
                assert(data@ =~= self.items@.subrange(0, i as int));
            }
        }
        proof {
            assert(data@ =~= self.items@);
        }
        LinkedListMutIterator::new(data)
    }

    /// Removes every element.
    pub fn clear(&mut self)
        ensures
            final(self)@.len() == 0,
    {
        self.items = Vec::new();
    }

    /// Takes the head element off, if any.
    pub fn pop_front(&mut self) -> (r: Option<&'a T>)
        ensures
            old(self)@.len() == 0 ==> r is None && final(self)@ == old(self)@,
            old(self)@.len() > 0 ==> r == Some(old(self)@[0]) && final(self)@ == old(self)@.drop_first(),
    {
        if self.items.len() == 0 {
            None
        } else {
            let item = self.items.remove(0);
            proof {
                assert(self@ =~= old(self)@.drop_first());
            }
            Some(item)
        }
    }

    /// Takes the tail element off, if any.
    pub fn pop_back(&mut self) -> (r: Option<&'a T>)
        ensures
            old(self)@.len() == 0 ==> r is None && final(self)@ == old(self)@,
            old(self)@.len() > 0 ==> r == Some(old(self)@.last()) && final(self)@ == old(self)@.drop_last(),
    {
        self.items.pop()
    }

    /// Removes the element at `pos`, counted from 0, if there is one.
    pub fn delete_by_pos(&mut self, pos: usize) -> (r: Option<&'a T>)
        ensures
            pos >= old(self)@.len() ==> r is None && final(self)@ == old(self)@,
            pos < old(self)@.len() ==> r == Some(old(self)@[pos as int])
                && final(self)@ == old(self)@.remove(pos as int),
    {
        if pos >= self.items.len() {
            None
        } else {
            Some(self.items.remove(pos))
        }
    }

    /// Removes the first element for whose node, with its position counted
    /// from 1, `predicate` holds; returns it.
    pub fn delete_by_predicate<F: Fn(&Node<'a, T>) -> bool>(&mut self, predicate: F) -> (r: Option<&'a T>)
        requires
            forall|n: &Node<'a, T>| #[trigger] predicate.requires((n,)),
        ensures
            match r {
                None => final(self)@ == old(self)@ && forall|i: int| 0 <= i < old(self)@.len() ==>
                    #[trigger] predicate.ensures((&Node { data: old(self)@[i], index: (i + 1) as usize },), false),
                Some(x) => exists|p: int| {
                    &&& 0 <= p < old(self)@.len()
                    &&& x == old(self)@[p]
                    &&& final(self)@ == old(self)@.remove(p)
                    &&& #[trigger] predicate.ensures((&Node { data: old(self)@[p], index: (p + 1) as usize },), true)
                    &&& forall|i: int| 0 <= i < p ==>
                        #[trigger] predicate.ensures((&Node { data: old(self)@[i], index: (i + 1) as usize },), false)
                },
            },
    {
        let mut i: usize = 0;
        while i < self.items.len()
            invariant
                self@ == old(self)@,
                i <= self.items@.len(),
                forall|n: &Node<'a, T>| #[trigger] predicate.requires((n,)),
                forall|k: int| 0 <= k < i ==>
                    #[trigger] predicate.ensures((&Node { data: old(self)@[k], index: (k + 1) as usize },), false),
            decreases self.items@.len() - i,
        {
            let node = Node { data: self.items[i], index: i + 1 };
            if predicate(&node) {
                let item = self.items.remove(i);
                return Some(item);
            }
            i = i + 1;
        }
        None
    }
}

impl<'a, T: PartialEq> LinkedList<'a, T> {
    /// Removes the first element equal to `value`; returns it.
    pub fn delete_by_value(&mut self, value: T) -> (r: Option<&'a T>)
        ensures
            T::obeys_eq_spec() ==> match first_equal(old(self)@, &value) {
                None => r is None && final(self)@ == old(self)@,
                Some(p) => r == Some(old(self)@[p]) && final(self)@ == old(self)@.remove(p),
            },
    {
        proof {
            lemma_first_equal_in_range(self@, &value);
        }
        match self.position_of(&value) {
            Some(p) => {
                let item = self.items.remove(p);
                Some(item)
            },
            None => None,
        }
    }

    /// Puts `new_data` right after the first element equal to `value`; changes
    /// nothing when there is none.
    pub fn insert_after(&mut self, value: T, new_data: &'a T)
        ensures
            T::obeys_eq_spec() ==> match first_equal(old(self)@, &value) {
                None => final(self)@ == old(self)@,
                Some(p) => final(self)@ == old(self)@.insert(p + 1, new_data),
            },
    {
        proof {
            lemma_first_equal_in_range(self@, &value);
        }
        match self.position_of(&value) {
            Some(p) => {
                let n = self.items.len();
                assert(p < n);
                self.items.insert(p + 1, new_data);
            },
            None => {},
        }
    }

    fn position_of(&self, value: &T) -> (r: Option<usize>)
        ensures
            r matches Some(p) ==> p < self@.len(),
            T::obeys_eq_spec() ==> match first_equal(self@, value) {
                None => r is None,
                Some(p) => r matches Some(q) && q as int == p,
            },
    {
        let mut i: usize = 0;
        proof {
            assert(self@.subrange(0, self@.len() as int) =~= self@);
        }
        while i < self.items.len()
            invariant
                i <= self.items@.len(),
                T::obeys_eq_spec() ==> first_equal(self@, value) == match first_equal(self@.subrange(i as int, self@.len() as int), value) {
                    Some(k) => Some(k + i),
                    None => None,
                },
            decreases self.items@.len() - i,
        {
            proof {
                assert(self@.subrange(i as int, self@.len() as int).drop_first() =~= self@.subrange(i + 1, self@.len() as int));
            }
            if *self.items[i] == *value {
                return Some(i);
            }
            i = i + 1;
        }
        None
    }
}

} // verus!
