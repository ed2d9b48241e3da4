use vstd::prelude::*;

verus! {

/// A first-in, first-out queue: values come out in the order they were added.
pub struct Queue<T>(Vec<T>);

impl<T> View for Queue<T> {
    type V = Seq<T>;

    /// The values in the order they were added.
    closed spec fn view(&self) -> Seq<T> {
        self.0@
    }
}

/// The values after `value` is added to `q`.
pub open spec fn enqueued<T>(q: Seq<T>, value: T) -> Seq<T> {
    q.push(value)
}

/// What taking a value out of `q` gives: the value added first and the values
/// that stay, or nothing for an empty queue.
pub open spec fn dequeued<T>(q: Seq<T>) -> (Option<T>, Seq<T>) {
    if q.len() > 0 {
        (Some(q[0]), q.drop_first())
    } else {
        (None, q)
    }
}

impl<T> Queue<T> {
    /// An empty queue.
    pub fn new() -> (q: Self)
        ensures
            q@ == Seq::<T>::empty(),
    {
        Queue(Vec::new())
    }

    /// A queue holding the values of `vec`, the first of them to come out first.
    pub fn from(vec: Vec<T>) -> (q: Self)
        ensures
            q@ == vec@,
    {
        Queue(vec)
    }

    /// The number of values in the queue.
    pub fn size(&self) -> (n: usize)
        ensures
            n == self@.len(),
    {
        self.0.len()
    }

    /// Whether the queue holds no value.
    pub fn is_empty(&self) -> (b: bool)
        ensures
            b == (self@.len() == 0),
    {
        self.0.len() == 0
    }

    /// Adds a value.
    pub fn enqueue(&mut self, value: T)
        ensures
            final(self)@ == enqueued(old(self)@, value),
    {
        self.0.push(value);
    }

    /// Takes out the value added first, if there is one.
    pub fn dequeue(&mut self) -> (r: Option<T>)
        ensures
            (r, final(self)@) == dequeued(old(self)@),
    {
        if self.0.len() > 0 {
            let v = self.0.remove(0);
            assert(old(self)@.drop_first() =~= self.0@);
            return Some(v);
        }
        None
    }
}

/// Taking a value out right after adding one to an empty queue gives back
/// that value and leaves the queue empty; on a queue that holds values, it
/// gives the value added first and the added value waits behind the others.
pub proof fn law_dequeue_after_enqueue<T>(q: Seq<T>, value: T)
    ensures
        dequeued(enqueued(q, value)) == (if q.len() == 0 {
            (Some(value), q)
        } else {
            (Some(q[0]), enqueued(q.drop_first(), value))
        }),
{
    if q.len() == 0 {
        assert(q.push(value).drop_first() =~= q);
    } else {
        assert(q.push(value).drop_first() =~= q.drop_first().push(value));
    }
}

/// Values come out in the order they went in: the values of a queue are
/// handed out one by one from the first added to the last.
pub proof fn law_first_in_first_out<T>(q: Seq<T>, i: int)
    requires
        0 <= i < q.len(),
    ensures
        dequeued(q.subrange(i, q.len() as int)).0 == Some(q[i]),
        dequeued(q.subrange(i, q.len() as int)).1 == q.subrange(i + 1, q.len() as int),
{
    assert(q.subrange(i, q.len() as int).drop_first() =~= q.subrange(i + 1, q.len() as int));
}

/// Adding a value makes the queue one longer, and taking one out of a queue
/// that holds some makes it one shorter; an empty queue gives nothing and
/// stays empty.
pub proof fn law_queue_sizes<T>(q: Seq<T>, value: T)
    ensures
        enqueued(q, value).len() == q.len() + 1,
        q.len() > 0 ==> dequeued(q).0 is Some && dequeued(q).1.len() == q.len() - 1,
        q.len() == 0 ==> dequeued(q) == (None::<T>, q),
{
}

} // verus!
