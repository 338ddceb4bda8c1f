use vstd::prelude::*;

verus! {

/// A fixed-length window of the most recent samples of one measurement.
///
/// The oldest sample comes first and the newest last. A new window is filled
/// with a neutral value, so that a chart over it always spans the whole window.
#[derive(Clone, Debug)]
pub struct History<T = u64> {
    samples: Vec<T>,
}

impl<T> View for History<T> {
    type V = Seq<T>;

    closed spec fn view(&self) -> Seq<T> {
        self.samples@
    }
}

/// The window `s` after `value` came in: the oldest sample leaves, the value
/// is appended as the newest one.
pub open spec fn pushed<T>(s: Seq<T>, value: T) -> Seq<T> {
    if s.len() == 0 {
        seq![value]
    } else {
        s.drop_first().push(value)
    }
}

/// The window `s` brought to `len` samples: the newest samples are kept, and
/// a window that grows is padded with `fill` in front, as older samples.
pub open spec fn resized<T>(s: Seq<T>, len: nat, fill: T) -> Seq<T> {
    if len <= s.len() {
        s.subrange(s.len() - len, s.len() as int)
    } else {
        Seq::new((len - s.len()) as nat, |i: int| fill) + s
    }
}

impl<T: Copy> History<T> {
    /// A window of `capacity` samples, each of them `fill`.
    pub fn filled(capacity: usize, fill: T) -> (h: Self)
        ensures
            h@ == Seq::new(capacity as nat, |i: int| fill),
    {
        let mut samples: Vec<T> = Vec::new();
        let mut i: usize = 0;
        while i < capacity
            invariant
                i <= capacity,
                samples@ == Seq::new(i as nat, |j: int| fill),
            decreases capacity - i,
        {
            samples.push(fill);
            i = i + 1;
        }
        History { samples }
    }

    /// How many samples the window holds.
    pub fn len(&self) -> (n: usize)
        ensures
            n == self@.len(),
    {
        self.samples.len()
    }

    /// Whether the window holds no sample at all.
    pub fn is_empty(&self) -> (b: bool)
        ensures
            b == (self@.len() == 0),
    {
        self.samples.len() == 0
    }

    /// The sample at position `i`, counted from the oldest.
    pub fn get(&self, i: usize) -> (v: T)
        requires
            i < self@.len(),
        ensures
            v == self@[i as int],
    {
        self.samples[i]
    }

    /// The newest sample, if there is one.
    pub fn latest(&self) -> (v: Option<T>)
        ensures
            v == (if self@.len() == 0 { None } else { Some(self@.last()) }),
    {
        if self.samples.len() == 0 {
            None
        } else {
            Some(self.samples[self.samples.len() - 1])
        }
    }

    /// The samples, oldest first.
    pub fn to_vec(&self) -> (v: Vec<T>)
        ensures
            v@ == self@,
    {
        let mut v: Vec<T> = Vec::new();
        let mut i: usize = 0;
        while i < self.samples.len()
            invariant
                i <= self.samples@.len(),
                v@ == self.samples@.subrange(0, i as int),
            decreases self.samples@.len() - i,
        {
            v.push(self.samples[i]);
            i = i + 1;
            assert(v@ == self.samples@.subrange(0, i as int));
        }
        assert(v@ == self.samples@);
        v
    }

    /// Records a new sample: the oldest one leaves the window and `value`
    /// becomes the newest, so that the window keeps its length.
    pub fn push(&mut self, value: T)
        ensures
            final(self)@ == pushed(old(self)@, value),
    {
        if self.samples.len() > 0 {
            self.samples.remove(0);
        }
        self.samples.push(value);
        assert(self.samples@ == pushed(old(self)@, value));
    }

    /// Brings the window to `len` samples. The newest samples stay; a window
    /// that grows gets `fill` in front of them.
    pub fn resize_with(&mut self, len: usize, fill: T)
        ensures
            final(self)@ == resized(old(self)@, len as nat, fill),
    {
        let n = self.samples.len();
        let mut next: Vec<T> = Vec::new();
        if len <= n {
            let start = n - len;
            let mut i: usize = start;
            while i < n
                invariant
                    start <= i <= n,
                    n == self.samples@.len(),
                    next@ == self.samples@.subrange(start as int, i as int),
                decreases n - i,
            {
                next.push(self.samples[i]);
                i = i + 1;
                assert(next@ == self.samples@.subrange(start as int, i as int));
            }
        } else {
            let pad = len - n;
            let mut i: usize = 0;
            while i < pad
                invariant
                    i <= pad,
                    next@ == Seq::new(i as nat, |j: int| fill),
                decreases pad - i,
            {
                next.push(fill);
                i = i + 1;
            }
            let mut k: usize = 0;
            while k < n
                invariant
                    k <= n,
                    n == self.samples@.len(),
                    next@ == Seq::new(pad as nat, |j: int| fill) + self.samples@.subrange(0, k as int),
                decreases n - k,
            {
                next.push(self.samples[k]);
                k = k + 1;
                assert(next@ == Seq::new(pad as nat, |j: int| fill) + self.samples@.subrange(0, k as int));
            }
            assert(self.samples@.subrange(0, n as int) == self.samples@);
        }
        self.samples = next;
    }
}

impl History<u64> {
    /// A window of `capacity` samples, all of them zero.
    pub fn with_capacity(capacity: usize) -> (h: Self)
        ensures
            h@ == Seq::new(capacity as nat, |i: int| 0u64),
    {
        History::filled(capacity, 0u64)
    }

    /// The newest sample, or zero for an empty window.
    pub fn latest_or_zero(&self) -> (v: u64)
        ensures
            v == (if self@.len() == 0 { 0 } else { self@.last() }),
    {
        match self.latest() {
            Some(v) => v,
            None => 0,
        }
    }

    /// Brings the window to `len` samples, as `resize_with` does with zero
    /// as the padding.
    pub fn resize(&mut self, len: usize)
        ensures
            final(self)@ == resized(old(self)@, len as nat, 0u64),
    {
        self.resize_with(len, 0u64);
    }
}

} // verus!

verus! {

/// The largest sample of a window, or zero for an empty one.
pub open spec fn seq_max(s: Seq<u64>) -> u64
    decreases s.len(),
{
    if s.len() == 0 {
        0
    } else {
        let m = seq_max(s.drop_last());
        if s.last() > m {
            s.last()
        } else {
            m
        }
    }
}

/// No sample of a window exceeds its largest sample.
pub proof fn lemma_seq_max_is_upper_bound(s: Seq<u64>)
    ensures
        forall|i: int| 0 <= i < s.len() ==> s[i] <= seq_max(s),
    decreases s.len(),
{
    if s.len() > 0 {
        lemma_seq_max_is_upper_bound(s.drop_last());
        assert forall|i: int| 0 <= i < s.len() implies s[i] <= seq_max(s) by {
            if i < s.len() - 1 {
                assert(s[i] == s.drop_last()[i]);
            }
        }
    }
}

/// The largest sample of a non-empty window is one of its samples; that of
/// an empty window is zero.
pub proof fn lemma_seq_max_is_attained(s: Seq<u64>)
    ensures
        s.len() == 0 ==> seq_max(s) == 0,
        s.len() > 0 ==> s.contains(seq_max(s)),
    decreases s.len(),
{
    if s.len() > 0 {
        lemma_seq_max_is_attained(s.drop_last());
        if s.last() > seq_max(s.drop_last()) {
            assert(s[s.len() - 1] == seq_max(s));
        } else if s.len() > 1 {
            let k = choose|k: int| 0 <= k < s.drop_last().len() && s.drop_last()[k] == seq_max(s.drop_last());
            assert(s[k] == seq_max(s));
        } else {
            assert(s[0] == seq_max(s));
        }
    }
}

impl History<u64> {
    /// The largest sample of the window, or zero for an empty window.
    pub fn peak(&self) -> (m: u64)
        ensures
            m == seq_max(self@),
    {
        let mut m: u64 = 0;
        let mut i: usize = 0;
        while i < self.samples.len()
            invariant
                i <= self.samples@.len(),
                m == seq_max(self.samples@.subrange(0, i as int)),
            decreases self.samples@.len() - i,
        {
            assert(self.samples@.subrange(0, i + 1).drop_last() == self.samples@.subrange(0, i as int));
            if self.samples[i] > m {
                m = self.samples[i];
            }
            i = i + 1;
        }
        assert(self.samples@.subrange(0, i as int) == self.samples@);
        m
    }
}

} // verus!

verus! {

/// A new sample leaves the length of a non-empty window unchanged, becomes
/// its newest sample, and every other sample moves one place towards the
/// oldest end.
pub proof fn lemma_push_slides_window<T>(s: Seq<T>, value: T)
    requires
        s.len() > 0,
    ensures
        pushed(s, value).len() == s.len(),
        pushed(s, value).last() == value,
        forall|i: int| 0 <= i < s.len() - 1 ==> #[trigger] pushed(s, value)[i] == s[i + 1],
{
}

/// A resized window has exactly the asked length, and its newest samples are
/// the newest samples of the old window, as many as both windows can hold.
pub proof fn lemma_resize_keeps_newest<T>(s: Seq<T>, len: nat, fill: T)
    ensures
        resized(s, len, fill).len() == len,
        forall|k: int|
            0 <= k < len && k < s.len() ==> #[trigger] resized(s, len, fill)[len - 1 - k] == s[s.len()
                - 1 - k],
        forall|i: int| 0 <= i < len - s.len() ==> #[trigger] resized(s, len, fill)[i] == fill,
{
}

/// Resizing a window to its own length leaves it as it is.
pub proof fn lemma_resize_to_same_length<T>(s: Seq<T>, fill: T)
    ensures
        resized(s, s.len(), fill) == s,
{
    assert(s.subrange(0, s.len() as int) == s);
}

} // verus!
