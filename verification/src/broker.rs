use vstd::prelude::*;

verus! {

/// An event handed out by a reader: it can be looked at, or consumed so that
/// no later reader sees it.
pub struct Ref<'a, T> {
    pub entry: &'a mut Option<T>,
}

impl<'a, T> Ref<'a, T> {
    /// The entry this reference points to.
    pub open spec fn current(&self) -> Option<T> {
        *self.entry
    }

    pub fn get(&self) -> (r: &T)
        requires self.current().is_some(),
        ensures Some(*r) == self.current(),
    {
        self.entry.as_ref().unwrap()
    }

    pub fn consume(self) -> (r: T)
        requires self.current().is_some(),
        ensures Some(r) == *old(self.entry), *final(self.entry) == None::<T>,
    {
        self.entry.take().unwrap()
    }
}

/// Distributes events among readers: events are added in order, every reader
/// sees those not consumed yet, in that order.
pub struct EventBroker<T> {
    pool: Vec<Option<T>>,
}

impl<T> EventBroker<T> {
    /// The events added since the last clear, in order; consumed ones are `None`.
    pub closed spec fn events(&self) -> Seq<Option<T>> { self.pool@ }

    pub fn new() -> (r: Self)
        ensures r.events() == Seq::<Option<T>>::empty(),
    {
        Self::with_capacity(1024)
    }

    pub fn with_capacity(capacity: usize) -> (r: Self)
        ensures r.events() == Seq::<Option<T>>::empty(),
    {
        EventBroker { pool: Vec::with_capacity(capacity) }
    }

    /// Starts reading the events from the first; what the reader leaves in
    /// its entries (consumed events become `None`) is what the broker holds after.
    pub fn read(&mut self) -> (r: Iter<'_, T>)
        ensures
            r.pool() == old(self).events(),
            r.pos() == 0,
            final(self).events() == final(r.pool)@,
    {
        Iter { pool: &mut self.pool, pos: 0 }
    }

    pub fn add(&mut self, event: T)
        ensures final(self).events() == old(self).events().push(Some(event)),
    {
        self.pool.push(Some(event));
    }

    pub fn clear(&mut self)
        ensures final(self).events() == Seq::<Option<T>>::empty(),
    {
        self.pool.clear();
    }
}

/// The position of the first entry at or after `pos` that holds an event, or
/// the length where none does.
pub open spec fn first_event<T>(pool: Seq<Option<T>>, pos: int) -> int
    decreases pool.len() - pos,
{
    if pos < 0 || pos >= pool.len() {
        pool.len() as int
    } else if pool[pos] is Some {
        pos
    } else {
        first_event(pool, pos + 1)
    }
}

/// The position `first_event` gives is in range, holds an event unless it is
/// the length, and only empty entries lie before it.
pub proof fn lemma_first_event<T>(pool: Seq<Option<T>>, pos: int)
    requires
        0 <= pos <= pool.len(),
    ensures
        pos <= first_event(pool, pos) <= pool.len(),
        first_event(pool, pos) < pool.len() ==> pool[first_event(pool, pos)] is Some,
        forall|j: int| pos <= j < first_event(pool, pos) ==> pool[j] is None,
    decreases pool.len() - pos,
{
    if pos < pool.len() && pool[pos] is None {
        lemma_first_event(pool, pos + 1);
    }
}

/// Reads a broker's events, skipping consumed ones.
pub struct Iter<'a, T> {
    pub pool: &'a mut Vec<Option<T>>,
    pub pos: usize,
}

impl<'a, T> Iter<'a, T> {
    /// The entries being read.
    pub open spec fn pool(&self) -> Seq<Option<T>> { self.pool@ }

    /// How many entries have been passed.
    pub open spec fn pos(&self) -> int { self.pos as int }

    /// At most the entries not visited yet are left; any of them may be empty.
    pub fn size_hint(&self) -> (r: (usize, Option<usize>))
        requires
            self.pos() <= self.pool().len(),
        ensures
            r == (0usize, Some((self.pool().len() - self.pos()) as usize)),
    {
        (0, Some(self.pool.len() - self.pos))
    }

    pub fn next<'b>(&'b mut self) -> (r: Option<Ref<'b, T>>)
        requires
            old(self).pos() <= old(self).pool().len(),
        ensures
            *final(final(self).pool) == *final(old(self).pool),
            ({
                let k = first_event(old(self).pool(), old(self).pos());
                if k == old(self).pool().len() {
                    &&& r is None
                    &&& final(self).pool() == old(self).pool()
                    &&& final(self).pos() == old(self).pool().len()
                } else {
                    &&& r matches Some(rf) && {
                        &&& rf.current() == old(self).pool()[k]
                        &&& rf.current() is Some
                        &&& final(self).pool() == old(self).pool().update(k, *final(rf.entry))
                    }
                    &&& final(self).pos() == k + 1
                }
            }),
    {
        while self.pos < self.pool.len()
            invariant old(self).pos() <= self.pos <= self.pool.len(),
              self.pool@ == old(self).pool(),
              *final(self.pool) == *final(old(self).pool),
              first_event(self.pool@, old(self).pos()) == first_event(self.pool@, self.pos as int),
            decreases self.pool.len() - self.pos,
        {
            let i: usize = self.pos;
            self.pos = self.pos + 1;
            if self.pool[i].is_some() {
                return Some(Ref { entry: &mut self.pool[i] });
            }
        }
        None
    }
}


/// The events not consumed, in order.
pub open spec fn pending<T>(events: Seq<Option<T>>) -> Seq<T>
    decreases events.len(),
{
    if events.len() == 0 {
        Seq::empty()
    } else {
        let rest = pending(events.drop_first());
        match events[0] {
            Some(e) => seq![e] + rest,
            None => rest,
        }
    }
}

/// What a reader at `pos` yields by calling `next` until it gives `None`.
pub open spec fn read_from<T>(pool: Seq<Option<T>>, pos: int) -> Seq<T>
    decreases pool.len() - pos,
{
    if pos < 0 || pos >= pool.len() {
        Seq::empty()
    } else {
        let k = first_event(pool, pos);
        proof {
            lemma_first_event(pool, pos);
        }
        if k >= pool.len() {
            Seq::empty()
        } else {
            seq![pool[k]->0] + read_from(pool, k + 1)
        }
    }
}

proof fn lemma_read_from_pending<T>(pool: Seq<Option<T>>, pos: int)
    requires
        0 <= pos <= pool.len(),
    ensures
        read_from(pool, pos) == pending(pool.subrange(pos, pool.len() as int)),
    decreases pool.len() - pos,
{
    let rest = pool.subrange(pos, pool.len() as int);
    if pos == pool.len() {
        assert(rest.len() == 0);
    } else {
        lemma_read_from_pending(pool, pos + 1);
        assert(rest.drop_first() =~= pool.subrange(pos + 1, pool.len() as int));
        assert(rest[0] == pool[pos]);
        if pool[pos] is None {
            assert(first_event(pool, pos) == first_event(pool, pos + 1));
            if pos + 1 < pool.len() {
                lemma_first_event(pool, pos + 1);
            }
        }
    }
}

proof fn lemma_pending_concat<T>(a: Seq<Option<T>>, b: Seq<Option<T>>)
    ensures
        pending(a + b) == pending(a) + pending(b),
    decreases a.len(),
{
    if a.len() == 0 {
        assert(a + b =~= b);
    } else {
        lemma_pending_concat(a.drop_first(), b);
        assert((a + b).drop_first() =~= a.drop_first() + b);
        assert((a + b)[0] == a[0]);
        match a[0] {
            Some(e) => {
                assert(seq![e] + (pending(a.drop_first()) + pending(b)) =~= (seq![e] + pending(a.drop_first())) + pending(b));
            },
            None => {},
        }
    }
}

/// A whole read, calling `next` until it gives `None`, yields the events not
/// consumed, in the order they were added.
pub proof fn law_read_yields_pending<T>(events: Seq<Option<T>>)
    ensures
        read_from(events, 0) == pending(events),
{
    lemma_read_from_pending(events, 0);
    assert(events.subrange(0, events.len() as int) =~= events);
}

/// A reader that leaves an entry as it found it (the event is looked at and
/// not consumed) leaves the events, and so what a later read yields, as they
/// were.
pub proof fn law_unconsumed_read_keeps_events<T>(events: Seq<Option<T>>, k: int)
    requires
        0 <= k < events.len(),
    ensures
        events.update(k, events[k]) == events,
        pending(events.update(k, events[k])) == pending(events),
{
    assert(events.update(k, events[k]) =~= events);
}

/// Consuming the event at `k` removes exactly that event: later reads yield
/// the other events not consumed, in their order.
pub proof fn law_consume_removes_one<T>(events: Seq<Option<T>>, k: int)
    requires
        0 <= k < events.len(),
        events[k] is Some,
    ensures
        pending(events) == pending(events.take(k)) + seq![events[k]->0] + pending(events.skip(k + 1)),
        pending(events.update(k, None)) == pending(events.take(k)) + pending(events.skip(k + 1)),
{
    let e = events[k]->0;
    let before = events.take(k);
    let after = events.skip(k + 1);
    assert(events =~= before + (seq![Some(e)] + after));
    assert(events.update(k, None) =~= before + (seq![None::<T>] + after));
    lemma_pending_concat(before, seq![Some(e)] + after);
    lemma_pending_concat(seq![Some(e)], after);
    lemma_pending_concat(before, seq![None::<T>] + after);
    lemma_pending_concat(seq![None::<T>], after);
    assert(pending(seq![Some(e)]) =~= seq![e]) by {
        reveal_with_fuel(pending, 2);
        assert(seq![Some(e)].drop_first() =~= Seq::<Option<T>>::empty());
    }
    assert(pending(seq![None::<T>]) =~= Seq::<T>::empty()) by {
        reveal_with_fuel(pending, 2);
        assert(seq![None::<T>].drop_first() =~= Seq::<Option<T>>::empty());
    }
    assert(pending(before) + (seq![e] + pending(after)) =~= pending(before) + seq![e] + pending(after));
    assert(pending(before) + (Seq::<T>::empty() + pending(after)) =~= pending(before) + pending(after));
}

}
