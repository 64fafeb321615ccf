use vstd::prelude::*;
use crate::task::Task;

verus! {

/// A first-in, first-out queue.
pub struct LocalQueue<T> {
    vec: std::collections::VecDeque<T>,
}

impl<T> View for LocalQueue<T> {
    type V = Seq<T>;

    closed spec fn view(&self) -> Seq<T> {
        self.vec@
    }
}

impl<T> LocalQueue<T> {
    /// An empty queue.
    pub fn new() -> (r: Self)
        ensures
            r@.len() == 0,
    {
        LocalQueue { vec: std::collections::VecDeque::new() }
    }

    /// The number of queued items.
    pub fn size(&self) -> (r: usize)
        ensures
            r == self@.len(),
    {
        self.vec.len()
    }

    /// Adds `e` at the back.
    pub fn enqueue(&mut self, e: T)
        ensures
            final(self)@ == old(self)@.push(e),
    {
        self.vec.push_back(e);
    }

    /// Removes and returns the front item, if any.
    pub fn dequeue(&mut self) -> (r: Option<T>)
        ensures
            old(self)@.len() == 0 ==> r.is_none() && final(self)@ == old(self)@,
            old(self)@.len() > 0 ==> r == Some(old(self)@[0]) && final(self)@ == old(self)@.drop_first(),
    {
        self.vec.pop_front()
    }
}

/// A task source backed by a queue that it owns: each fetch takes at most one task.
pub struct LocalQueueFetcher {
    pub queue: LocalQueue<Task>,
}

impl LocalQueueFetcher {
    /// A fetcher over an empty queue.
    pub fn new() -> (r: Self)
        ensures
            r.queue@.len() == 0,
    {
        LocalQueueFetcher { queue: LocalQueue::new() }
    }

    /// Takes the front task of the queue, if any.
    pub fn fetch(&mut self) -> (r: Vec<Task>)
        ensures
            old(self).queue@.len() == 0 ==> r@.len() == 0 && final(self).queue@ == old(
                self,
            ).queue@,
            old(self).queue@.len() > 0 ==> r@ == seq![old(self).queue@[0]] && final(self).queue@
                == old(self).queue@.drop_first(),
    {
        match self.queue.dequeue() {
            Some(task) => {
                let mut v = Vec::new();
                v.push(task);
                v
            },
            None => Vec::new(),
        }
    }
}

} // verus!
