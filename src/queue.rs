use vstd::prelude::*;

verus! {

/// An ordered container of nodes.
///
/// The model is a sequence whose first element is the front: `push` places a
/// node at the back, `pop` takes the front. An implementation meant for the
/// scheduler's hot paths must not allocate in any of these operations.
pub trait Queue<N>: Sized {
    /// The nodes held, front first.
    spec fn items(&self) -> Seq<N>;

    fn empty() -> (r: Self)
        ensures
            r.items() == Seq::<N>::empty(),
    ;

    fn push(&mut self, node: N)
        ensures
            final(self).items() == old(self).items().push(node),
    ;

    fn pop(&mut self) -> (r: Option<N>)
        ensures
            old(self).items().len() == 0 ==> r is None && final(self).items() == old(self).items(),
            old(self).items().len() > 0 ==> r == Some(old(self).items()[0])
                && final(self).items() == old(self).items().drop_first(),
    ;

    fn front(&self) -> (r: Option<&N>)
        ensures
            self.items().len() == 0 ==> r is None,
            self.items().len() > 0 ==> r == Some(&self.items()[0]),
    ;

    fn front_mut(&mut self) -> (r: Option<&mut N>)
        ensures
            old(self).items().len() == 0 ==> r is None && final(self).items() == old(self).items(),
            old(self).items().len() > 0 ==> r is Some && *r->0 == old(self).items()[0]
                && final(self).items() == old(self).items().update(0, *final(r->0)),
    ;

    fn is_empty(&self) -> (r: bool)
        ensures
            r == (self.items().len() == 0),
    ;
}

/// A first-in, first-out queue of nodes. It keeps them in a `Vec`, so `push`
/// may allocate; the other operations do not.
pub struct FifoQueue<N> {
    nodes: Vec<N>,
}

impl<N> Queue<N> for FifoQueue<N> {
    closed spec fn items(&self) -> Seq<N> {
        self.nodes@
    }

    fn empty() -> (r: Self) {
        FifoQueue { nodes: Vec::new() }
    }

    fn push(&mut self, node: N) {
        self.nodes.push(node);
    }

    fn pop(&mut self) -> (r: Option<N>) {
        if self.nodes.len() == 0 {
            None
        } else {
            Some(self.nodes.remove(0))
        }
    }

    fn front(&self) -> (r: Option<&N>) {
        if self.nodes.len() == 0 {
            None
        } else {
            Some(&self.nodes[0])
        }
    }

    fn front_mut(&mut self) -> (r: Option<&mut N>) {
        if self.nodes.len() == 0 {
            None
        } else {
            Some(&mut self.nodes[0])
        }
    }

    fn is_empty(&self) -> (r: bool) {
        self.nodes.len() == 0
    }
}

impl<N> FifoQueue<N> {
    /// The number of nodes held.
    pub fn len(&self) -> (r: usize)
        ensures
            r == self.items().len(),
    {
        self.nodes.len()
    }
}

} // verus!
