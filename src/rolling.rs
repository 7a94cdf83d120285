use vstd::prelude::*;

verus! {

/// One point of a series: a timestamp in milliseconds and a value.
pub type Point = (u64, u64);

/// The contents of a series after `p` is pushed onto `s` with room for `cap` points.
pub open spec fn push_model(s: Seq<Point>, p: Point, cap: nat) -> Seq<Point> {
    let t = s.push(p);
    if t.len() > cap {
        t.drop_first()
    } else {
        t
    }
}

/// The contents of an empty series of capacity `cap` after each point of `ps` is pushed in turn.
pub open spec fn pushes_model(ps: Seq<Point>, cap: nat) -> Seq<Point>
    decreases ps.len(),
{
    if ps.len() == 0 {
        Seq::empty()
    } else {
        push_model(pushes_model(ps.drop_last(), cap), ps.last(), cap)
    }
}

/// The last `n` elements of `ps` (all of them when there are fewer), in order.
pub open spec fn last_n(ps: Seq<Point>, n: nat) -> Seq<Point> {
    if ps.len() <= n {
        ps
    } else {
        ps.subrange(ps.len() - n, ps.len() as int)
    }
}

/// After any sequence of pushes into an empty series of capacity `cap`, the series
/// holds `min(M, cap)` points for `M` pushes, and they are exactly the last ones
/// pushed, in the order they were pushed.
pub proof fn lemma_series_keeps_last_pushed(ps: Seq<Point>, cap: nat)
    ensures
        pushes_model(ps, cap) == last_n(ps, cap),
        pushes_model(ps, cap).len() == if ps.len() <= cap { ps.len() } else { cap },
    decreases ps.len(),
{
    if ps.len() > 0 {
        let prev = ps.drop_last();
        lemma_series_keeps_last_pushed(prev, cap);
        let t = last_n(prev, cap).push(ps.last());
        if prev.len() < cap {
            assert(t =~= ps);
        } else {
            assert(t.drop_first() =~= ps.subrange(ps.len() - cap, ps.len() as int));
        }
    }
}

/// A fixed-capacity series of points that drops its oldest point on overflow.
pub struct RollingSeries {
    points: Vec<Point>,
    capacity: usize,
}

impl View for RollingSeries {
    type V = Seq<Point>;

    closed spec fn view(&self) -> Seq<Point> {
        self.points@
    }
}

impl RollingSeries {
    pub closed spec fn cap(&self) -> nat {
        self.capacity as nat
    }

    pub closed spec fn wf(&self) -> bool {
        self.points@.len() <= self.capacity
    }

    pub fn new(capacity: usize) -> (r: RollingSeries)
        ensures
            r.wf(),
            r@ == Seq::<Point>::empty(),
            r.cap() == capacity,
    {
        RollingSeries { points: Vec::new(), capacity }
    }

    pub fn push(&mut self, timestamp: u64, value: u64)
        requires
            old(self).wf(),
        ensures
            final(self).wf(),
            final(self)@.len() <= final(self).cap(),
            final(self).cap() == old(self).cap(),
            final(self)@ == push_model(old(self)@, (timestamp, value), old(self).cap()),
    {
        self.points.push((timestamp, value));
        if self.points.len() > self.capacity {
            self.points.remove(0);
        }
    }

    pub fn capacity(&self) -> (r: usize)
        ensures
            r == self.cap(),
    {
        self.capacity
    }

    pub fn len(&self) -> (r: usize)
        ensures
            r == self@.len(),
    {
        self.points.len()
    }

    /// The value of the newest point, if any.
    pub fn latest(&self) -> (r: Option<u64>)
        ensures
            self@.len() == 0 ==> r is None,
            self@.len() > 0 ==> r == Some(self@.last().1),
    {
        let n = self.points.len();
        if n == 0 {
            None
        } else {
            Some(self.points[n - 1].1)
        }
    }

    /// The timestamp of the oldest point, if any.
    pub fn first_timestamp(&self) -> (r: Option<u64>)
        ensures
            self@.len() == 0 ==> r is None,
            self@.len() > 0 ==> r == Some(self@[0].0),
    {
        if self.points.len() == 0 {
            None
        } else {
            Some(self.points[0].0)
        }
    }

    /// The timestamp of the newest point, if any.
    pub fn last_timestamp(&self) -> (r: Option<u64>)
        ensures
            self@.len() == 0 ==> r is None,
            self@.len() > 0 ==> r == Some(self@.last().0),
    {
        let n = self.points.len();
        if n == 0 {
            None
        } else {
            Some(self.points[n - 1].0)
        }
    }

    /// The points, oldest first.
    pub fn points(&self) -> (r: Vec<Point>)
        ensures
            r@ == self@,
    {
        let mut r: Vec<Point> = Vec::new();
        let mut i: usize = 0;
        while i < self.points.len()
            invariant
                i <= self.points@.len(),
                r@ == self.points@.subrange(0, i as int),
            decreases self.points@.len() - i,
        {
            r.push(self.points[i]);
            i += 1;
            assert(r@ =~= self.points@.subrange(0, i as int));
        }
        assert(r@ =~= self.points@);
        r
    }
}

} // verus!
