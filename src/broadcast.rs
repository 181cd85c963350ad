use vstd::prelude::*;

verus! {

/// The state of a channel as its subscribers see it: for each subscription
/// slot, the items it has still to read, oldest first, or `None` once the
/// subscription was dropped.
pub type ChannelModel<T> = Seq<Option<Seq<T>>>;

/// How many items a subscription has still to read; none once dropped.
pub open spec fn unread_len<T>(q: Option<Seq<T>>) -> nat {
    match q {
        Some(p) => p.len(),
        None => 0,
    }
}

/// Some live subscription holds `capacity` unread items or more.
pub open spec fn at_capacity<T>(v: ChannelModel<T>, capacity: nat) -> bool {
    exists|k: int| 0 <= k < v.len() && v[k] is Some && #[trigger] unread_len(v[k]) >= capacity
}

/// `x` appended to the queue of every live subscription.
pub open spec fn delivered<T>(v: ChannelModel<T>, x: T) -> ChannelModel<T> {
    v.map_values(|q: Option<Seq<T>>| match q {
        Some(p) => Some(p.push(x)),
        None => None,
    })
}

/// Each item of `xs` delivered in turn.
pub open spec fn delivered_all<T>(v: ChannelModel<T>, xs: Seq<T>) -> ChannelModel<T>
    decreases xs.len(),
{
    if xs.len() == 0 {
        v
    } else {
        delivered(delivered_all(v, xs.drop_last()), xs.last())
    }
}

/// A new subscription that has nothing to read yet.
pub open spec fn subscribed<T>(v: ChannelModel<T>) -> ChannelModel<T> {
    v.push(Some(Seq::empty()))
}

/// Subscription `k` has read its oldest item.
pub open spec fn drained<T>(v: ChannelModel<T>, k: int) -> ChannelModel<T> {
    match v[k] {
        Some(p) => v.update(k, Some(p.drop_first())),
        None => v,
    }
}

proof fn lemma_delivered_all<T>(v: ChannelModel<T>, xs: Seq<T>)
    ensures
        delivered_all(v, xs).len() == v.len(),
        forall|k: int|
            0 <= k < v.len() ==> #[trigger] delivered_all(v, xs)[k] == match v[k] {
                Some(p) => Some(p + xs),
                None => None,
            },
    decreases xs.len(),
{
    if xs.len() > 0 {
        lemma_delivered_all(v, xs.drop_last());
        assert forall|k: int| 0 <= k < v.len() && v[k] is Some implies v[k].unwrap() + xs.drop_last()
            + seq![xs.last()] == v[k].unwrap() + xs by {
            assert(v[k].unwrap() + xs.drop_last() + seq![xs.last()] =~= v[k].unwrap() + xs);
        }
    } else {
        assert forall|k: int| 0 <= k < v.len() && v[k] is Some implies v[k].unwrap() + xs
            == v[k].unwrap() by {
            assert(v[k].unwrap() + xs =~= v[k].unwrap());
        }
    }
}

/// A subscription opened before a run of publications reads all of them,
/// in the order they were published; one opened after the first `xs.len()`
/// of them reads only those that follow.
pub proof fn delivery_follows_subscription<T>(v: ChannelModel<T>, xs: Seq<T>, ys: Seq<T>)
    ensures
        ({
            let early = v.len() as int;
            let w1 = delivered_all(subscribed(v), xs);
            let late = w1.len() as int;
            let w2 = delivered_all(subscribed(w1), ys);
            w2[early] == Some(xs + ys) && w2[late] == Some(ys)
        }),
{
    let early = v.len() as int;
    let w1 = delivered_all(subscribed(v), xs);
    lemma_delivered_all(subscribed(v), xs);
    lemma_delivered_all(subscribed(w1), ys);
    assert(Seq::<T>::empty() + xs =~= xs);
    assert(Seq::<T>::empty() + ys =~= ys);
}

/// When the one subscription at capacity reads an item, publishing is no
/// longer refused, and the next item lands behind the ones it still holds:
/// the order of delivery is kept across the wait.
pub proof fn draining_releases_publisher<T>(v: ChannelModel<T>, capacity: nat, k: int, x: T)
    requires
        capacity > 0,
        0 <= k < v.len(),
        v[k] is Some,
        unread_len(v[k]) == capacity,
        forall|j: int| 0 <= j < v.len() && j != k ==> #[trigger] unread_len(v[j]) < capacity,
    ensures
        at_capacity(v, capacity),
        !at_capacity(drained(v, k), capacity),
        delivered(drained(v, k), x)[k] == Some(v[k].unwrap().drop_first().push(x)),
        forall|j: int|
            0 <= j < v.len() && j != k ==> #[trigger] delivered(drained(v, k), x)[j] == match v[j] {
                Some(p) => Some(p.push(x)),
                None => None,
            },
{
    let w = drained(v, k);
    assert(unread_len(w[k]) == capacity - 1);
    assert forall|j: int| 0 <= j < w.len() implies #[trigger] unread_len(w[j]) < capacity by {
        if j != k {
            assert(w[j] == v[j]);
        }
    }
}

/// A bounded fan-out channel. Every item published reaches every
/// subscription that is live at that moment, in publication order. While
/// any live subscription holds `capacity` unread items, publishing is
/// refused: one slow reader holds back the publisher and so all the others.
pub struct Broadcast<T> {
    capacity: usize,
    /// The items that some subscription has still to read, oldest first.
    buffer: Vec<T>,
    /// For each subscription slot, how many of the newest items of `buffer`
    /// it has still to read; `None` once dropped.
    unread: Vec<Option<usize>>,
}

impl<T: Clone> Broadcast<T> {
    pub closed spec fn capacity(&self) -> nat {
        self.capacity as nat
    }

    pub closed spec fn queue_of(&self, c: Option<usize>) -> Option<Seq<T>> {
        match c {
            Some(n) => Some(
                self.buffer@.subrange(self.buffer.len() - n, self.buffer.len() as int),
            ),
            None => None,
        }
    }

    pub closed spec fn view(&self) -> ChannelModel<T> {
        Seq::new(self.unread.len() as nat, |k: int| self.queue_of(self.unread@[k]))
    }

    pub closed spec fn wf(&self) -> bool {
        &&& self.capacity > 0
        &&& self.buffer.len() <= self.capacity
        &&& forall|k: int|
            0 <= k < self.unread.len() ==> (#[trigger] self.unread@[k] matches Some(n) ==> n
                <= self.buffer.len())
        &&& self.buffer.len() > 0 ==> exists|k: int|
            0 <= k < self.unread.len() && #[trigger] self.unread@[k] == Some(
                self.buffer.len() as usize,
            )
    }

    /// Every live subscription has at most `buffer.len()` items to read.
    closed spec fn counts_fit(&self) -> bool {
        forall|k: int|
            0 <= k < self.unread.len() ==> (#[trigger] self.unread@[k] matches Some(n) ==> n
                <= self.buffer.len())
    }

    /// Drops the oldest items of the buffer that no subscription has still
    /// to read.
    fn trim(&mut self)
        requires
            old(self).counts_fit(),
            old(self).capacity > 0,
            old(self).buffer.len() <= old(self).capacity,
        ensures
            final(self).wf(),
            final(self).capacity == old(self).capacity,
            final(self).view() == old(self).view(),
    {
        let n = self.unread.len();
        let mut m: usize = 0;
        let mut k: usize = 0;
        while k < n
            invariant
                n == self.unread.len(),
                k <= n,
                self.counts_fit(),
                m <= self.buffer.len(),
                forall|j: int|
                    0 <= j < k ==> (#[trigger] self.unread@[j] matches Some(c) ==> c <= m),
                m > 0 ==> exists|j: int| 0 <= j < k && #[trigger] self.unread@[j] == Some(m),
            decreases n - k,
        {
            if let Some(c) = self.unread[k] {
                if c > m {
                    m = c;
                }
            }
            k = k + 1;
        }
        let ghost old_buf = self.buffer@;
        let ghost len0 = old_buf.len();
        while self.buffer.len() > m
            invariant
                n == self.unread.len(),
                self.unread == old(self).unread,
                self.capacity == old(self).capacity,
                m <= self.buffer.len(),
                self.buffer.len() <= len0,
                len0 == old_buf.len(),
                self.buffer@ == old_buf.subrange(len0 - self.buffer.len(), len0 as int),
                forall|j: int|
                    0 <= j < n ==> (#[trigger] self.unread@[j] matches Some(c) ==> c <= m),
                m > 0 ==> exists|j: int| 0 <= j < n && #[trigger] self.unread@[j] == Some(m),
            decreases self.buffer.len(),
        {
            let ghost prev = self.buffer@;
            self.buffer.remove(0);
            assert(self.buffer@ =~= old_buf.subrange(len0 - self.buffer.len(), len0 as int)) by {
                assert(self.buffer@ =~= prev.subrange(1, prev.len() as int));
            }
        }
        assert forall|j: int| 0 <= j < n implies #[trigger] self.view()[j] == old(self).view()[j] by {
            if let Some(c) = self.unread@[j] {
                assert(self.buffer@.subrange(self.buffer.len() - c, self.buffer.len() as int)
                    =~= old_buf.subrange(len0 - c, len0 as int));
            }
        }
        assert(self.view() =~= old(self).view());
    }

    /// A channel with no subscription that holds up to `capacity` unread
    /// items per subscription.
    pub fn new(capacity: usize) -> (r: Self)
        requires
            capacity > 0,
        ensures
            r.wf(),
            r.capacity() == capacity,
            r.view() == Seq::<Option<Seq<T>>>::empty(),
    {
        let r = Broadcast { capacity, buffer: Vec::new(), unread: Vec::new() };
        assert(r.view() =~= Seq::<Option<Seq<T>>>::empty());
        r
    }

    /// The number of subscription slots handed out so far.
    pub fn slots(&self) -> (r: usize)
        ensures
            r == self.view().len(),
    {
        self.unread.len()
    }

    /// Opens a subscription that will read every item published from now on,
    /// and none before; returns its slot.
    pub fn subscribe(&mut self) -> (slot: usize)
        requires
            old(self).wf(),
            old(self).view().len() < usize::MAX,
        ensures
            final(self).wf(),
            final(self).capacity() == old(self).capacity(),
            final(self).view() == subscribed(old(self).view()),
            slot == old(self).view().len(),
    {
        let slot = self.unread.len();
        self.unread.push(Some(0));
        proof {
            if self.buffer.len() > 0 {
                let k = choose|k: int|
                    0 <= k < old(self).unread.len() && #[trigger] old(self).unread@[k] == Some(
                        self.buffer.len() as usize,
                    );
                assert(self.unread@[k] == Some(self.buffer.len() as usize));
            }
            assert(self.buffer@.subrange(self.buffer.len() as int, self.buffer.len() as int)
                =~= Seq::<T>::empty());
        }
        assert(self.view() =~= subscribed(old(self).view()));
        slot
    }

    /// Whether a publish would be refused now.
    pub fn is_full(&self) -> (r: bool)
        requires
            self.wf(),
        ensures
            r == at_capacity(self.view(), self.capacity()),
    {
        let mut k: usize = 0;
        while k < self.unread.len()
            invariant
                self.wf(),
                k <= self.unread.len(),
                forall|j: int|
                    0 <= j < k ==> !(#[trigger] self.unread@[j] matches Some(n) && n
                        >= self.capacity),
            decreases self.unread.len() - k,
        {
            if let Some(n) = self.unread[k] {
                if n >= self.capacity {
                    assert(unread_len(self.view()[k as int]) >= self.capacity());
                    return true;
                }
            }
            k = k + 1;
        }
        assert forall|j: int|
            0 <= j < self.view().len() && self.view()[j] is Some implies #[trigger] unread_len(
                self.view()[j],
            ) < self.capacity() by {
            assert(self.unread@[j] is Some);
        }
        false
    }

    /// Hands `item` to every live subscription, unless one of them is at
    /// capacity: then the channel is left as it was and `item` comes back.
    pub fn try_publish(&mut self, item: T) -> (r: Result<(), T>)
        requires
            old(self).wf(),
        ensures
            final(self).wf(),
            final(self).capacity() == old(self).capacity(),
            at_capacity(old(self).view(), old(self).capacity()) ==> r == Err::<(), T>(item)
                && final(self).view() == old(self).view(),
            !at_capacity(old(self).view(), old(self).capacity()) ==> r is Ok && final(self).view()
                == delivered(old(self).view(), item),
    {
        if self.is_full() {
            return Err(item);
        }
        let ghost before = self.view();
        if self.buffer.len() > 0 {
            let ghost k = choose|k: int|
                0 <= k < self.unread.len() && #[trigger] self.unread@[k] == Some(
                    self.buffer.len() as usize,
                );
            assert(unread_len(self.view()[k]) == self.buffer.len());
        }
        let n = self.unread.len();
        let mut k: usize = 0;
        while k < n
            invariant
                n == self.unread.len(),
                k <= n,
                self.capacity > 0,
                self.capacity == old(self).capacity,
                self.buffer.len() < self.capacity,
                before == Seq::new(
                    n as nat,
                    |j: int| self.queue_of(old(self).unread@[j]),
                ),
                forall|j: int|
                    0 <= j < n ==> (#[trigger] old(self).unread@[j] matches Some(c) ==> c
                        <= self.buffer.len()),
                old(self).unread.len() == n,
                forall|j: int|
                    0 <= j < k ==> #[trigger] self.unread@[j] == match old(self).unread@[j] {
                        Some(c) => Some((c + 1) as usize),
                        None => None,
                    },
                forall|j: int| k <= j < n ==> #[trigger] self.unread@[j] == old(self).unread@[j],
            decreases n - k,
        {
            if let Some(c) = self.unread[k] {
                self.unread.set(k, Some(c + 1));
            }
            k = k + 1;
        }
        let ghost old_buf = self.buffer@;
        self.buffer.push(item);
        assert forall|j: int| 0 <= j < n implies #[trigger] self.view()[j] == delivered(
            before,
            item,
        )[j] by {
            if let Some(c) = old(self).unread@[j] {
                assert(self.buffer@.subrange(self.buffer.len() - (c + 1), self.buffer.len() as int)
                    =~= old_buf.subrange(old_buf.len() - c, old_buf.len() as int).push(item));
            }
        }
        assert(self.view() =~= delivered(before, item));
        self.trim();
        Ok(())
    }

    /// Takes the oldest item that subscription `slot` has still to read; a
    /// clone of it, as every subscription gets its own copy. `None` when
    /// there is none, or the subscription was dropped.
    pub fn try_recv(&mut self, slot: usize) -> (r: Option<T>)
        requires
            old(self).wf(),
            slot < old(self).view().len(),
        ensures
            final(self).wf(),
            final(self).capacity() == old(self).capacity(),
            unread_len(old(self).view()[slot as int]) == 0 ==> r is None && final(self).view()
                == old(self).view(),
            unread_len(old(self).view()[slot as int]) > 0 ==> (r matches Some(x) && cloned(
                old(self).view()[slot as int].unwrap()[0],
                x,
            )) && final(self).view() == drained(old(self).view(), slot as int),
    {
        let c = match self.unread[slot] {
            Some(c) => c,
            None => return None,
        };
        if c == 0 {
            return None;
        }
        let ghost before = self.view();
        let ghost p = before[slot as int].unwrap();
        let len = self.buffer.len();
        let x = self.buffer[len - c].clone();
        self.unread.set(slot, Some(c - 1));
        assert forall|j: int| 0 <= j < self.unread.len() implies #[trigger] self.view()[j]
            == drained(before, slot as int)[j] by {
            if j == slot {
                assert(self.buffer@.subrange(len - (c - 1), len as int) =~= p.drop_first());
            }
        }
        assert(self.view() =~= drained(before, slot as int));
        self.trim();
        Some(x)
    }

    /// Drops subscription `slot`: it reads nothing more, and no longer holds
    /// back the publisher.
    pub fn unsubscribe(&mut self, slot: usize)
        requires
            old(self).wf(),
            slot < old(self).view().len(),
        ensures
            final(self).wf(),
            final(self).capacity() == old(self).capacity(),
            final(self).view() == old(self).view().update(slot as int, None),
    {
        self.unread.set(slot, None);
        assert(self.view() =~= old(self).view().update(slot as int, None));
        self.trim();
    }
}

} // verus!
