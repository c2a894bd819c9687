use vstd::prelude::*;
use vstd::std_specs::cmp::PartialEqSpec;

verus! {

/// A singly linked list with a count of its elements.
pub struct LinkedList<T> {
    head: Option<Box<Node<T>>>,
    size: usize,
}

/// One cell of a linked list.
pub struct Node<T> {
    value: T,
    next: Option<Box<Node<T>>>,
}

/// The values of a chain of cells, from the first on.
pub closed spec fn values_of<T>(link: Option<Box<Node<T>>>) -> Seq<T>
    decreases link,
{
    match link {
        None => Seq::empty(),
        Some(node) => seq![node.value] + values_of(node.next),
    }
}

impl<T> Node<T> {
    /// The value of the cell.
    pub closed spec fn spec_value(&self) -> T {
        self.value
    }

    /// The values of the chain that follows the cell.
    pub closed spec fn spec_rest(&self) -> Seq<T> {
        values_of(self.next)
    }

    /// A cell holding `value`, followed by the chain `next`.
    pub fn new(value: T, next: Option<Box<Node<T>>>) -> (r: Node<T>)
        ensures
            r.spec_value() == value,
            r.spec_rest() == values_of(next),
    {
        Node { value, next }
    }
}

impl<T> View for LinkedList<T> {
    type V = Seq<T>;

    /// The elements, from the front.
    closed spec fn view(&self) -> Seq<T> {
        values_of(self.head)
    }
}

impl<T> LinkedList<T> {
    /// The list's invariant: the count is the number of elements.
    pub closed spec fn wf(&self) -> bool {
        self.size == self@.len()
    }

    /// An empty list.
    pub fn new() -> (r: LinkedList<T>)
        ensures
            r.wf(),
            r@ == Seq::<T>::empty(),
    {
        LinkedList { head: None, size: 0 }
    }

    /// The number of elements.
    pub fn get_size(&self) -> (r: usize)
        requires
            self.wf(),
        ensures
            r == self@.len(),
    {
        self.size
    }

    /// Whether the list has no element.
    pub fn is_empty(&self) -> (r: bool)
        requires
            self.wf(),
        ensures
            r == (self@.len() == 0),
    {
        self.get_size() == 0
    }

    /// Puts `value` in front of the list.
    pub fn push_front(&mut self, value: T)
        requires
            old(self).wf(),
            old(self)@.len() < usize::MAX,
        ensures
            final(self).wf(),
            final(self)@ == seq![value] + old(self)@,
    {
        let new_node: Box<Node<T>> = Box::new(Node::new(value, self.head.take()));
        self.head = Some(new_node);
        self.size += 1;
    }

    /// Takes the front element out of the list, or `None` where it is empty.
    pub fn pop_front(&mut self) -> (r: Option<T>)
        requires
            old(self).wf(),
        ensures
            final(self).wf(),
            old(self)@.len() == 0 ==> r is None && final(self)@ == old(self)@,
            old(self)@.len() > 0 ==> r == Some(old(self)@[0]) && final(self)@ == old(self)@.skip(1),
    {
        match self.head.take() {
            None => None,
            Some(node) => {
                let node = *node;
                assert(values_of(node.next) =~= old(self)@.skip(1));
                self.head = node.next;
                self.size -= 1;
                Some(node.value)
            },
        }
    }

    /// An iterator that takes the elements out of the list, from the front.
    pub fn into_iter(self) -> (r: LinkedListIter1<T>)
        ensures
            r@ == self@,
    {
        LinkedListIter1 { current: self.head }
    }

    /// An iterator over clones of the elements, from the front.
    pub fn iter(&self) -> (r: LinkedListIter<'_, T>)
        ensures
            r@ == self@,
    {
        LinkedListIter { current: &self.head }
    }
}

/// An iterator that owns the remaining cells of a list.
pub struct LinkedListIter1<T> {
    current: Option<Box<Node<T>>>,
}

impl<T> View for LinkedListIter1<T> {
    type V = Seq<T>;

    /// The elements not yet returned.
    closed spec fn view(&self) -> Seq<T> {
        values_of(self.current)
    }
}

impl<T> LinkedListIter1<T> {
    /// The next element, or `None` once all were returned.
    pub fn next(&mut self) -> (r: Option<T>)
        ensures
            old(self)@.len() == 0 ==> r is None && final(self)@ == old(self)@,
            old(self)@.len() > 0 ==> r == Some(old(self)@[0]) && final(self)@ == old(self)@.skip(1),
    {
        match self.current.take() {
            None => None,
            Some(node) => {
                let node = *node;
                assert(values_of(node.next) =~= old(self)@.skip(1));
                self.current = node.next;
                Some(node.value)
            },
        }
    }
}

/// An iterator over a borrowed list, returning clones of the elements.
pub struct LinkedListIter<'a, T> {
    current: &'a Option<Box<Node<T>>>,
}

impl<'a, T> View for LinkedListIter<'a, T> {
    type V = Seq<T>;

    /// The elements not yet visited.
    closed spec fn view(&self) -> Seq<T> {
        values_of(*self.current)
    }
}

impl<'a, T: Clone> LinkedListIter<'a, T> {
    /// A clone of the next element, or `None` once all were visited.
    pub fn next(&mut self) -> (r: Option<T>)
        ensures
            old(self)@.len() == 0 ==> r is None && final(self)@ == old(self)@,
            old(self)@.len() > 0 ==> r is Some && cloned(old(self)@[0], r->0) && final(self)@
                == old(self)@.skip(1),
    {
        match self.current {
            None => None,
            Some(node) => {
                assert(values_of(node.next) =~= old(self)@.skip(1));
                self.current = &node.next;
                Some(node.value.clone())
            },
        }
    }
}

/// Whether `b` holds, one for one, clones of the elements of `a`.
pub open spec fn clones_of<T: Clone>(a: Seq<T>, b: Seq<T>) -> bool {
    &&& a.len() == b.len()
    &&& forall|i: int| 0 <= i < a.len() ==> cloned(#[trigger] a[i], b[i])
}

impl<T> Node<T> {
    /// The values of the cell and of the chain that follows it.
    pub closed spec fn chain(&self) -> Seq<T> {
        seq![self.value] + values_of(self.next)
    }
}

impl<T: Clone> Clone for Node<T> {
    fn clone(&self) -> (r: Self)
        ensures
            clones_of(self.chain(), r.chain()),
        decreases self,
    {
        let next = match &self.next {
            Some(node) => Some(Box::new((&**node).clone())),
            None => None,
        };
        let r = Node { value: self.value.clone(), next };
        proof {
            if self.next is Some {
                assert(values_of(self.next) == self.next->0.chain());
                assert(values_of(r.next) == r.next->0.chain());
            }
            assert forall|i: int| 0 <= i < self.chain().len() implies cloned(
                #[trigger] self.chain()[i],
                r.chain()[i],
            ) by {
                if i > 0 {
                    assert(self.chain()[i] == values_of(self.next)[i - 1]);
                    assert(r.chain()[i] == values_of(r.next)[i - 1]);
                }
            }
        }
        r
    }
}

impl<T: Clone> Clone for LinkedList<T> {
    fn clone(&self) -> (r: Self)
        ensures
            self.wf() ==> r.wf(),
            clones_of(self@, r@),
    {
        let head = match &self.head {
            Some(node) => Some(Box::new((&**node).clone())),
            None => None,
        };
        let r = LinkedList { head, size: self.size };
        proof {
            if self.head is Some {
                assert(values_of(self.head) == self.head->0.chain());
                assert(values_of(r.head) == r.head->0.chain());
            }
        }
        r
    }
}

impl<T: PartialEqSpec> PartialEq for Node<T> {
    /// Two cells are equal where their values are: what follows them is not compared.
    fn eq(&self, other: &Self) -> (r: bool) {
        self.value == other.value
    }
}

impl<T: PartialEqSpec> vstd::std_specs::cmp::PartialEqSpecImpl for Node<T> {
    open spec fn obeys_eq_spec() -> bool {
        T::obeys_eq_spec()
    }

    open spec fn eq_spec(&self, other: &Node<T>) -> bool {
        self.spec_value().eq_spec(&other.spec_value())
    }
}

impl<T: PartialEqSpec> PartialEq for LinkedList<T> {
    /// Two lists are equal where they have the same size and equal elements in order.
    fn eq(&self, other: &Self) -> (r: bool) {
        let mut a: &Option<Box<Node<T>>> = &self.head;
        let mut b: &Option<Box<Node<T>>> = &other.head;
        let ghost mut i: int = 0;
        while a.is_some() && b.is_some()
            invariant
                0 <= i <= self@.len(),
                0 <= i <= other@.len(),
                values_of(*a) == self@.skip(i),
                values_of(*b) == other@.skip(i),
                T::obeys_eq_spec() ==> forall|j: int|
                    0 <= j < i ==> (#[trigger] self@[j]).eq_spec(&other@[j]),
            decreases self@.len() - i,
        {
            let na = a.as_ref().unwrap();
            let nb = b.as_ref().unwrap();
            assert(values_of(*a) == seq![na.value] + values_of(na.next));
            assert(values_of(*b) == seq![nb.value] + values_of(nb.next));
            assert(i < self@.len() && i < other@.len());
            assert(values_of(na.next) =~= values_of(*a).skip(1));
            assert(values_of(nb.next) =~= values_of(*b).skip(1));
            assert(self@[i] == na.value && other@[i] == nb.value) by {
                assert(self@.skip(i)[0] == self@[i]);
                assert(other@.skip(i)[0] == other@[i]);
            }
            if !(na.value == nb.value) {
                return false;
            }
            assert(values_of(na.next) =~= self@.skip(i + 1));
            assert(values_of(nb.next) =~= other@.skip(i + 1));
            a = &na.next;
            b = &nb.next;
            proof {
                i = i + 1;
            }
        }
        if a.is_some() || b.is_some() {
            return false;
        }
        true
    }
}

impl<T: PartialEqSpec> vstd::std_specs::cmp::PartialEqSpecImpl for LinkedList<T> {
    open spec fn obeys_eq_spec() -> bool {
        T::obeys_eq_spec()
    }

    open spec fn eq_spec(&self, other: &LinkedList<T>) -> bool {
        &&& self@.len() == other@.len()
        &&& forall|i: int| 0 <= i < self@.len() ==> (#[trigger] self@[i]).eq_spec(&other@[i])
    }
}

} // verus!
