use vstd::prelude::*;

verus! {

/// How many of the queued items came from source `s`.
pub open spec fn count_from<T>(q: Seq<(usize, T)>, s: usize) -> nat
    decreases q.len(),
{
    if q.len() == 0 {
        0
    } else {
        count_from(q.drop_last(), s) + if q.last().0 == s {
            1nat
        } else {
            0nat
        }
    }
}

/// The queue after source `s` offers `item` to queue `q`, where `capacities[s]`
/// bounds how many items of `s` may wait: `None` when that bound is reached
/// and the producer must wait.
pub open spec fn offer<T>(q: Seq<(usize, T)>, capacities: Seq<usize>, s: usize, item: T) -> Option<
    Seq<(usize, T)>,
> {
    if count_from(q, s) < capacities[s as int] {
        Some(q.push((s, item)))
    } else {
        None
    }
}

/// Source `s` offers `items` in order to queue `q` while nothing is taken
/// out; `None` as soon as one offer would have to wait.
pub open spec fn offer_all<T>(
    q: Seq<(usize, T)>,
    capacities: Seq<usize>,
    s: usize,
    items: Seq<T>,
) -> Option<Seq<(usize, T)>>
    decreases items.len(),
{
    if items.len() == 0 {
        Some(q)
    } else {
        match offer_all(q, capacities, s, items.drop_last()) {
            Some(q2) => offer(q2, capacities, s, items.last()),
            None => None,
        }
    }
}

/// Items of source `s`, tagged with it.
pub open spec fn tagged<T>(s: usize, items: Seq<T>) -> Seq<(usize, T)> {
    items.map_values(|x: T| (s, x))
}

/// The fan-in point between the event sources and the one consumer that owns
/// the device: every source has a bounded share of one queue, and the consumer
/// takes events in the order in which they arrived, whatever their source.
pub struct Dispatcher<T> {
    pending: std::collections::VecDeque<(usize, T)>,
    capacities: Vec<usize>,
    counts: Vec<usize>,
}

impl<T> View for Dispatcher<T> {
    type V = Seq<(usize, T)>;

    /// The queued events with their sources, oldest first.
    closed spec fn view(&self) -> Seq<(usize, T)> {
        self.pending@
    }
}

proof fn lemma_count_first<T>(q: Seq<(usize, T)>, s: usize)
    requires
        q.len() > 0,
    ensures
        count_from(q, s) == count_from(q.drop_first(), s) + if q[0].0 == s {
            1nat
        } else {
            0nat
        },
    decreases q.len(),
{
    if q.len() > 1 {
        lemma_count_first(q.drop_last(), s);
        assert(q.drop_last().drop_first() =~= q.drop_first().drop_last());
        assert(count_from(q.drop_first(), s) == count_from(q.drop_first().drop_last(), s) + if q.last().0 == s {
            1nat
        } else {
            0nat
        });
    } else {
        assert(q.drop_first().len() == 0);
        assert(q.drop_last().len() == 0);
        assert(count_from(q.drop_last(), s) == 0);
        assert(count_from(q.drop_first(), s) == 0);
    }
}

impl<T> Dispatcher<T> {
    /// How many events each source may have waiting.
    pub closed spec fn capacities(&self) -> Seq<usize> {
        self.capacities@
    }

    pub closed spec fn wf(&self) -> bool {
        &&& self.counts@.len() == self.capacities@.len()
        &&& forall|s: int|
            0 <= s < self.counts@.len() ==> #[trigger] self.counts@[s] == count_from(
                self.pending@,
                s as usize,
            ) && self.counts@[s] <= self.capacities@[s]
        &&& forall|i: int| 0 <= i < self.pending@.len() ==> #[trigger] self.pending@[i].0 < self.counts@.len()
    }

    /// An empty dispatcher for sources `0 .. capacities.len()`.
    pub fn new(capacities: Vec<usize>) -> (r: Self)
        ensures
            r.wf(),
            r@ == Seq::<(usize, T)>::empty(),
            r.capacities() == capacities@,
    {
        let mut counts: Vec<usize> = Vec::new();
        let mut i: usize = 0;
        while i < capacities.len()
            invariant
                i <= capacities@.len(),
                counts@ == Seq::new(i as nat, |k: int| 0usize),
            decreases capacities@.len() - i,
        {
            counts.push(0);
            i += 1;
            assert(counts@ =~= Seq::new(i as nat, |k: int| 0usize));
        }
        Dispatcher { pending: std::collections::VecDeque::new(), capacities, counts }
    }

    /// The number of sources.
    pub fn sources(&self) -> (r: usize)
        requires
            self.wf(),
        ensures
            r == self.capacities().len(),
    {
        self.capacities.len()
    }

    /// How many events of `source` wait.
    pub fn waiting_from(&self, source: usize) -> (r: usize)
        requires
            self.wf(),
            source < self.capacities().len(),
        ensures
            r == count_from(self@, source),
    {
        self.counts[source]
    }

    /// Enqueues `item` from `source` if that source has room; otherwise hands
    /// the item back untouched and leaves the queue as it was, so that the
    /// producer waits and retries: nothing is dropped or reordered.
    pub fn offer(&mut self, source: usize, item: T) -> (r: Result<(), T>)
        requires
            old(self).wf(),
            source < old(self).capacities().len(),
        ensures
            final(self).wf(),
            final(self).capacities() == old(self).capacities(),
            match offer(old(self)@, old(self).capacities(), source, item) {
                Some(q) => r is Ok && final(self)@ == q,
                None => r == Err::<(), T>(item) && final(self)@ == old(self)@,
            },
    {
        // `len` bounds every source index by `usize::MAX`.
        let sources = self.counts.len();
        assert(source < sources);
        let n = self.counts[source];
        if n < self.capacities[source] {
            let ghost before = self.pending@;
            self.pending.push_back((source, item));
            assert(self.pending@.drop_last() =~= before);
            self.counts.set(source, n + 1);
            assert forall|s: int| 0 <= s < self.counts@.len() implies #[trigger] self.counts@[s]
                == count_from(self.pending@, s as usize) && self.counts@[s] <= self.capacities@[s] by {
                assert(old(self).counts@[s] == count_from(before, s as usize));
                assert(self.pending@.last().0 == source);
                assert((s as usize) as int == s);
                assert(count_from(self.pending@, s as usize) == count_from(before, s as usize) + if s
                    == source {
                    1nat
                } else {
                    0nat
                });
            }
            assert forall|i: int| 0 <= i < self.pending@.len() implies #[trigger] self.pending@[i].0
                < self.counts@.len() by {
                if i < before.len() {
                    assert(self.pending@[i] == before[i]);
                }
            }
            Ok(())
        } else {
            Err(item)
        }
    }

    /// Takes the event that arrived first, with its source.
    pub fn next(&mut self) -> (r: Option<(usize, T)>)
        requires
            old(self).wf(),
        ensures
            final(self).wf(),
            final(self).capacities() == old(self).capacities(),
            old(self)@.len() == 0 ==> r is None && final(self)@ == old(self)@,
            old(self)@.len() > 0 ==> r == Some(old(self)@[0]) && final(self)@ == old(self)@.drop_first(),
    {
        let ghost before = self.pending@;
        // `len` bounds every source index by `usize::MAX`.
        let sources = self.counts.len();
        match self.pending.pop_front() {
            Some(entry) => {
                proof {
                    lemma_count_first(before, entry.0);
                }
                assert(self.pending@ =~= before.drop_first());
                let s = entry.0;
                assert(before[0].0 < sources);
                let n = self.counts[s];
                self.counts.set(s, n - 1);
                assert forall|t: int| 0 <= t < self.counts@.len() implies #[trigger] self.counts@[t]
                    == count_from(self.pending@, t as usize) && self.counts@[t] <= self.capacities@[t] by {
                    lemma_count_first(before, t as usize);
                }
                Some(entry)
            },
            None => None,
        }
    }
}

proof fn lemma_fill<T>(q: Seq<(usize, T)>, capacities: Seq<usize>, s: usize, items: Seq<T>)
    requires
        s < capacities.len(),
        count_from(q, s) == 0,
        items.len() <= capacities[s as int],
    ensures
        offer_all(q, capacities, s, items) == Some(q + tagged(s, items)),
        count_from(q + tagged(s, items), s) == items.len(),
    decreases items.len(),
{
    if items.len() == 0 {
        assert(q + tagged(s, items) =~= q);
    } else {
        let prev = items.drop_last();
        lemma_fill(q, capacities, s, prev);
        let before = q + tagged(s, prev);
        let after = q + tagged(s, items);
        assert(after =~= before.push((s, items.last())));
        assert(after.drop_last() =~= before);
    }
}

/// Offering `capacities[s] + 1` events from source `s`, which has none
/// waiting, while the consumer takes nothing, enqueues the first
/// `capacities[s]` in order behind what was queued and makes the last one
/// wait: nothing is dropped and nothing is reordered.
pub proof fn lemma_backpressure<T>(q: Seq<(usize, T)>, capacities: Seq<usize>, s: usize, items: Seq<T>)
    requires
        s < capacities.len(),
        count_from(q, s) == 0,
        items.len() == capacities[s as int] + 1,
    ensures
        offer_all(q, capacities, s, items.take(capacities[s as int] as int)) == Some(
            q + tagged(s, items.take(capacities[s as int] as int)),
        ),
        offer(
            q + tagged(s, items.take(capacities[s as int] as int)),
            capacities,
            s,
            items[capacities[s as int] as int],
        ) is None,
        offer_all(q, capacities, s, items) is None,
{
    let c = capacities[s as int] as int;
    lemma_fill(q, capacities, s, items.take(c));
    assert(items.drop_last() =~= items.take(c));
}

/// One action on the dispatcher: a source offers an event, or the consumer
/// takes the oldest one.
pub enum Step<T> {
    Offer(usize, T),
    Take,
}

/// The state of a run: the queue, the events it accepted, and the events the
/// consumer took, each with its source.
pub open spec fn step<T>(
    state: (Seq<(usize, T)>, Seq<(usize, T)>, Seq<(usize, T)>),
    capacities: Seq<usize>,
    st: Step<T>,
) -> (Seq<(usize, T)>, Seq<(usize, T)>, Seq<(usize, T)>) {
    let (q, accepted, taken) = state;
    match st {
        Step::Offer(s, x) => match offer(q, capacities, s, x) {
            Some(q2) => (q2, accepted.push((s, x)), taken),
            None => state,
        },
        Step::Take => if q.len() > 0 {
            (q.drop_first(), accepted, taken.push(q[0]))
        } else {
            state
        },
    }
}

/// The state after `steps`, starting from an empty dispatcher.
pub open spec fn run<T>(capacities: Seq<usize>, steps: Seq<Step<T>>) -> (
    Seq<(usize, T)>,
    Seq<(usize, T)>,
    Seq<(usize, T)>,
)
    decreases steps.len(),
{
    if steps.len() == 0 {
        (Seq::empty(), Seq::empty(), Seq::empty())
    } else {
        step(run(capacities, steps.drop_last()), capacities, steps.last())
    }
}

/// The events of source `s`, in order.
pub open spec fn of_source<T>(q: Seq<(usize, T)>, s: usize) -> Seq<(usize, T)> {
    q.filter(|e: (usize, T)| e.0 == s)
}

/// Over any run of offers and takes, every accepted event is either taken
/// once or still queued, in the order of acceptance: the events taken, then
/// those queued, are exactly those accepted. So within each source the
/// consumer receives what the source sent, in sending order, and nothing is
/// dropped or overwritten (a refused offer hands the event back).
pub proof fn lemma_run_keeps_order<T>(capacities: Seq<usize>, steps: Seq<Step<T>>)
    ensures
        run(capacities, steps).1 == run(capacities, steps).2 + run(capacities, steps).0,
        forall|s: usize|
            of_source(#[trigger] run(capacities, steps).1, s) == of_source(run(capacities, steps).2, s)
                + of_source(run(capacities, steps).0, s),
    decreases steps.len(),
{
    if steps.len() == 0 {
        let r = run(capacities, steps);
        assert(r.1 =~= r.2 + r.0);
    } else {
        lemma_run_keeps_order(capacities, steps.drop_last());
        let (q, a, t) = run(capacities, steps.drop_last());
        let r = run(capacities, steps);
        match steps.last() {
            Step::Offer(s, x) => {
                if offer(q, capacities, s, x) is Some {
                    assert(r.1 =~= r.2 + r.0);
                }
            },
            Step::Take => {
                if q.len() > 0 {
                    assert(r.1 =~= r.2 + r.0);
                }
            },
        }
    }
    let r = run(capacities, steps);
    assert forall|s: usize| of_source(#[trigger] run(capacities, steps).1, s) == of_source(
        run(capacities, steps).2,
        s,
    ) + of_source(run(capacities, steps).0, s) by {
        Seq::filter_distributes_over_add(r.2, r.0, |e: (usize, T)| e.0 == s);
    }
}

} // verus!
