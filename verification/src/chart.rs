use vstd::prelude::*;

use crate::color::Color;
use crate::history::{lemma_seq_max_is_attained, lemma_seq_max_is_upper_bound, seq_max, History};

verus! {

/// A line chart over one window of samples, scaled so that `max` reaches the
/// top of the chart.
#[derive(Debug)]
pub struct HistoryChart<'a, T = u64> {
    history: &'a History<T>,
    max: T,
    color: Color,
}

impl<'a, T> HistoryChart<'a, T> {
    /// The samples the chart shows.
    pub closed spec fn samples(&self) -> Seq<T> {
        self.history@
    }

    /// The value drawn at the top of the chart.
    pub closed spec fn top(&self) -> T {
        self.max
    }

    /// The color of the chart.
    pub closed spec fn tint(&self) -> Color {
        self.color
    }

    /// A chart over `history` whose top stands for `max`, drawn in `color`.
    pub fn new(history: &'a History<T>, max: T, color: Color) -> (chart: HistoryChart<'a, T>)
        ensures
            chart.samples() == history@,
            chart.top() == max,
            chart.tint() == color,
    {
        HistoryChart { history, max, color }
    }

    /// The window of samples the chart shows.
    pub fn history(&self) -> (h: &'a History<T>)
        ensures
            h@ == self.samples(),
    {
        self.history
    }

    /// The color of the chart.
    pub fn color(&self) -> (c: Color)
        ensures
            c == self.tint(),
    {
        self.color
    }
}

impl<'a, T: Copy> HistoryChart<'a, T> {
    /// The value drawn at the top of the chart.
    pub fn max(&self) -> (m: T)
        ensures
            m == self.top(),
    {
        self.max
    }
}

impl<'a> HistoryChart<'a> {
    /// A chart whose top is the largest sample of `history`, or zero when
    /// the window is empty.
    pub fn auto_max(history: &'a History, color: Color) -> (chart: HistoryChart<'a>)
        ensures
            chart.samples() == history@,
            chart.top() == seq_max(history@),
            chart.tint() == color,
    {
        HistoryChart::new(history, history.peak(), color)
    }
}


/// The larger of two chart tops.
pub open spec fn larger(a: u64, b: u64) -> u64 {
    if a >= b {
        a
    } else {
        b
    }
}

impl HistoryChart<'_, u64> {
    /// Gives both charts the same top, the larger of their two tops, so that
    /// they share one scale when drawn over each other.
    pub fn link_max(front: &mut HistoryChart<u64>, back: &mut HistoryChart<u64>)
        ensures
            final(front).top() == larger(old(front).top(), old(back).top()),
            final(back).top() == larger(old(front).top(), old(back).top()),
            final(front).samples() == old(front).samples(),
            final(back).samples() == old(back).samples(),
            final(front).tint() == old(front).tint(),
            final(back).tint() == old(back).tint(),
    {
        let max_front = front.max;
        let max_back = back.max;
        let max = if max_front >= max_back {
            max_front
        } else {
            max_back
        };
        front.max = max;
        back.max = max;
    }
}

/// One step of the line that a chart strokes through its samples: it either
/// starts a new piece of line at a sample or continues the current piece to it.
#[derive(Clone, Copy, Debug, PartialEq, Eq, Structural)]
pub enum StrokeStep {
    MoveTo(usize),
    LineTo(usize),
}

/// The steps that stroke the line through a window whose samples are drawn
/// where `drawn` holds. A sample that is not drawn breaks the line; a drawn
/// sample starts a new piece when it is the first sample or follows one that
/// is not drawn, and continues the line otherwise.
pub open spec fn stroke_spec(drawn: Seq<bool>) -> Seq<StrokeStep>
    decreases drawn.len(),
{
    if drawn.len() == 0 {
        Seq::empty()
    } else {
        let i = drawn.len() - 1;
        let before = stroke_spec(drawn.drop_last());
        if drawn[i] {
            before.push(step_at(drawn, i))
        } else {
            before
        }
    }
}

/// Which samples of a window the line is drawn through: the non-zero ones.
pub open spec fn nonzero_samples(s: Seq<u64>) -> Seq<bool> {
    Seq::new(s.len(), |i: int| s[i] != 0)
}

/// The steps that stroke a line through a window whose samples are drawn
/// where `drawn` holds.
pub fn stroke_plan(drawn: &Vec<bool>) -> (steps: Vec<StrokeStep>)
    ensures
        steps@ == stroke_spec(drawn@),
{
    let n = drawn.len();
    let mut steps: Vec<StrokeStep> = Vec::new();
    let mut need_move = true;
    let mut i: usize = 0;
    while i < n
        invariant
            i <= n,
            n == drawn@.len(),
            steps@ == stroke_spec(drawn@.subrange(0, i as int)),
            need_move == (i == 0 || !drawn@[i - 1]),
        decreases n - i,
    {
        assert(drawn@.subrange(0, i + 1).drop_last() == drawn@.subrange(0, i as int));
        if !drawn[i] {
            need_move = true;
        } else if need_move {
            steps.push(StrokeStep::MoveTo(i));
            need_move = false;
        } else {
            steps.push(StrokeStep::LineTo(i));
        }
        i = i + 1;
    }
    assert(drawn@.subrange(0, n as int) == drawn@);
    steps
}

impl HistoryChart<'_, u64> {
    /// The steps that stroke the chart's line through its samples: zero
    /// samples are left out and break the line.
    pub fn stroke_steps(&self) -> (steps: Vec<StrokeStep>)
        ensures
            steps@ == stroke_spec(nonzero_samples(self.samples())),
    {
        let n = self.history.len();
        let mut drawn: Vec<bool> = Vec::new();
        let mut i: usize = 0;
        while i < n
            invariant
                i <= n,
                n == self.history@.len(),
                drawn@ == nonzero_samples(self.history@).subrange(0, i as int),
            decreases n - i,
        {
            drawn.push(self.history.get(i) != 0);
            i = i + 1;
            assert(drawn@ == nonzero_samples(self.history@).subrange(0, i as int));
        }
        assert(drawn@ == nonzero_samples(self.history@));
        stroke_plan(&drawn)
    }
}

/// A chart over one window of samples, drawn over the panel's background.
#[derive(Debug)]
pub struct SimpleHistoryChart<'a, T = u64> {
    history: HistoryChart<'a, T>,
}

impl<'a, T> SimpleHistoryChart<'a, T> {
    /// The chart drawn over the background.
    pub closed spec fn inner(&self) -> HistoryChart<'a, T> {
        self.history
    }

    /// A chart over `history` whose top stands for `max`, drawn in `color`.
    pub fn new(history: &'a History<T>, max: T, color: Color) -> (chart: SimpleHistoryChart<'a, T>)
        ensures
            chart.inner().samples() == history@,
            chart.inner().top() == max,
            chart.inner().tint() == color,
    {
        SimpleHistoryChart { history: HistoryChart { history, max, color } }
    }

    /// The chart drawn over the background.
    pub fn chart(&self) -> (c: &HistoryChart<'a, T>)
        ensures
            *c == self.inner(),
    {
        &self.history
    }
}

impl<'a> SimpleHistoryChart<'a> {
    /// A chart whose top is the largest sample of `history`, or zero when
    /// the window is empty.
    pub fn auto_max(history: &'a History, color: Color) -> (chart: SimpleHistoryChart<'a>)
        ensures
            chart.inner().samples() == history@,
            chart.inner().top() == seq_max(history@),
            chart.inner().tint() == color,
    {
        SimpleHistoryChart::new(history, history.peak(), color)
    }
}

/// Two charts drawn over each other on one background: `back` first, then
/// `front` over it.
#[derive(Debug)]
pub struct SuperimposedHistoryChart<'a> {
    pub back: HistoryChart<'a>,
    pub front: HistoryChart<'a>,
}

impl<'a> SuperimposedHistoryChart<'a> {
    /// Two charts with their own tops and colors.
    pub fn new(
        data_front: &'a History,
        max_front: u64,
        color_front: &Color,
        data_back: &'a History,
        max_back: u64,
        color_back: &Color,
    ) -> (chart: Self)
        ensures
            chart.front.samples() == data_front@,
            chart.front.top() == max_front,
            chart.front.tint() == *color_front,
            chart.back.samples() == data_back@,
            chart.back.top() == max_back,
            chart.back.tint() == *color_back,
    {
        let back = HistoryChart::new(data_back, max_back, *color_back);
        let front = HistoryChart::new(data_front, max_front, *color_front);
        Self { back, front }
    }

    /// Two charts on one scale: both tops are the largest sample of the two
    /// windows together.
    pub fn new_linked(
        data_front: &'a History<u64>,
        color_front: &Color,
        data_back: &'a History<u64>,
        color_back: &Color,
    ) -> (chart: Self)
        ensures
            chart.front.samples() == data_front@,
            chart.back.samples() == data_back@,
            chart.front.tint() == *color_front,
            chart.back.tint() == *color_back,
            chart.front.top() == larger(seq_max(data_front@), seq_max(data_back@)),
            chart.back.top() == larger(seq_max(data_front@), seq_max(data_back@)),
    {
        let mut back = HistoryChart::auto_max(data_back, *color_back);
        let mut front = HistoryChart::auto_max(data_front, *color_front);
        HistoryChart::link_max(&mut front, &mut back);
        Self { back, front }
    }
}

/// The layers of two charts drawn over each other: the first layer of the
/// back chart, then the first of the front chart, and so on, as long as both
/// have layers left.
pub fn interleave<G>(back: Vec<G>, front: Vec<G>) -> (layers: Vec<G>)
    ensures
        layers@.len() == 2 * (if back@.len() <= front@.len() { back@.len() } else { front@.len() }),
        forall|i: int|
            #![trigger layers@[2 * i]]
            0 <= i < layers@.len() / 2 ==> layers@[2 * i] == back@[i] && layers@[2 * i + 1] == front@[i],
{
    let ghost b0 = back@;
    let ghost f0 = front@;
    let mut back = back;
    let mut front = front;
    let mut layers: Vec<G> = Vec::new();
    let ghost mut k: int = 0;
    while back.len() > 0 && front.len() > 0
        invariant
            0 <= k <= b0.len(),
            k <= f0.len(),
            back@ == b0.subrange(k, b0.len() as int),
            front@ == f0.subrange(k, f0.len() as int),
            layers@.len() == 2 * k,
            forall|i: int|
                #![trigger layers@[2 * i]]
                0 <= i < k ==> layers@[2 * i] == b0[i] && layers@[2 * i + 1] == f0[i],
        decreases back@.len(),
    {
        let ghost prev = layers@;
        let b = back.remove(0);
        let f = front.remove(0);
        layers.push(b);
        layers.push(f);
        proof {
            assert forall|i: int| #![trigger layers@[2 * i]] 0 <= i < k + 1 implies
                layers@[2 * i] == b0[i] && layers@[2 * i + 1] == f0[i] by {
                if i < k {
                    assert(layers@[2 * i] == prev[2 * i]);
                    assert(layers@[2 * i + 1] == prev[2 * i + 1]);
                }
            }
            k = k + 1;
        }
    }
    layers
}

} // verus!

verus! {

/// The shared top of two linked charts is one of their two tops and no less
/// than either; it does not depend on which chart is in front, and linking
/// two charts that already share a top changes nothing.
pub proof fn lemma_linked_top(a: u64, b: u64)
    ensures
        larger(a, b) >= a,
        larger(a, b) >= b,
        larger(a, b) == a || larger(a, b) == b,
        larger(a, b) == larger(b, a),
        larger(larger(a, b), larger(a, b)) == larger(a, b),
{
}

/// On a chart made by `auto_max`, no sample goes above the top, and the top
/// of a chart over a non-empty window is reached by one of its samples.
pub proof fn lemma_auto_max_fits_samples(s: Seq<u64>)
    ensures
        forall|i: int| 0 <= i < s.len() ==> s[i] <= seq_max(s),
        s.len() > 0 ==> s.contains(seq_max(s)),
{
    lemma_seq_max_is_upper_bound(s);
    lemma_seq_max_is_attained(s);
}

/// On the two charts of `new_linked`, no sample of either window goes above
/// their shared top.
pub proof fn lemma_linked_charts_fit_samples(front: Seq<u64>, back: Seq<u64>)
    ensures
        forall|i: int|
            0 <= i < front.len() ==> #[trigger] front[i] <= larger(seq_max(front), seq_max(back)),
        forall|i: int|
            0 <= i < back.len() ==> #[trigger] back[i] <= larger(seq_max(front), seq_max(back)),
{
    lemma_seq_max_is_upper_bound(front);
    lemma_seq_max_is_upper_bound(back);
}

/// The step that a drawn sample at position `i` adds to the line.
pub open spec fn step_at(drawn: Seq<bool>, i: int) -> StrokeStep {
    if i == 0 || !drawn[i - 1] {
        StrokeStep::MoveTo(i as usize)
    } else {
        StrokeStep::LineTo(i as usize)
    }
}

/// The steps through a non-empty window are those through all but its newest
/// sample, followed by the step to the newest one when it is drawn; the
/// earlier steps all go to earlier samples.
proof fn lemma_stroke_unfold(drawn: Seq<bool>)
    requires
        0 < drawn.len() <= usize::MAX,
    ensures
        drawn[drawn.len() - 1] ==> stroke_spec(drawn) == stroke_spec(drawn.drop_last()).push(
            step_at(drawn, drawn.len() - 1),
        ),
        !drawn[drawn.len() - 1] ==> stroke_spec(drawn) == stroke_spec(drawn.drop_last()),
{
}

/// Every step of the line goes to a drawn sample of the window, and starts a
/// new piece exactly when that sample is the first one or follows one that is
/// not drawn.
proof fn lemma_stroke_steps_valid(drawn: Seq<bool>)
    requires
        drawn.len() <= usize::MAX,
    ensures
        forall|j: int|
            0 <= j < stroke_spec(drawn).len() ==> {
                let i = step_index(#[trigger] stroke_spec(drawn)[j]) as int;
                &&& i < drawn.len()
                &&& drawn[i]
                &&& (stroke_spec(drawn)[j] is MoveTo <==> (i == 0 || !drawn[i - 1]))
            },
    decreases drawn.len(),
{
    if drawn.len() > 0 {
        let p = drawn.drop_last();
        lemma_stroke_steps_valid(p);
        lemma_stroke_unfold(drawn);
        let before = stroke_spec(p);
        let all = stroke_spec(drawn);
        assert forall|j: int|
            0 <= j < all.len() implies {
                let i = step_index(#[trigger] all[j]) as int;
                &&& i < drawn.len()
                &&& drawn[i]
                &&& (all[j] is MoveTo <==> (i == 0 || !drawn[i - 1]))
            } by {
            if j < before.len() {
                assert(all[j] == before[j]);
                let i = step_index(before[j]) as int;
                assert(drawn[i] == p[i]);
                if i > 0 {
                    assert(drawn[i - 1] == p[i - 1]);
                }
            }
        }
    }
}

/// The steps of the line visit the samples from oldest to newest.
proof fn lemma_stroke_steps_increasing(drawn: Seq<bool>)
    requires
        drawn.len() <= usize::MAX,
    ensures
        forall|j: int, k: int|
            0 <= j < k < stroke_spec(drawn).len() ==> step_index(#[trigger] stroke_spec(drawn)[j])
                < step_index(#[trigger] stroke_spec(drawn)[k]),
    decreases drawn.len(),
{
    if drawn.len() > 0 {
        let p = drawn.drop_last();
        let n = drawn.len() - 1;
        lemma_stroke_steps_increasing(p);
        lemma_stroke_steps_valid(p);
        lemma_stroke_unfold(drawn);
        let before = stroke_spec(p);
        let all = stroke_spec(drawn);
        assert forall|j: int| 0 <= j < before.len() implies step_index(#[trigger] before[j]) < n by {}
        assert forall|j: int, k: int|
            0 <= j < k < all.len() implies step_index(#[trigger] all[j]) < step_index(#[trigger] all[k]) by {
            assert(all[j] == before[j]);
            if k < before.len() {
                assert(all[k] == before[k]);
            }
        }
    }
}

/// Every drawn sample of the window is visited by a step of the line.
proof fn lemma_stroke_steps_cover(drawn: Seq<bool>)
    requires
        drawn.len() <= usize::MAX,
    ensures
        forall|i: int|
            0 <= i < drawn.len() && #[trigger] drawn[i] ==> exists|j: int|
                0 <= j < stroke_spec(drawn).len() && step_index(#[trigger] stroke_spec(drawn)[j]) == i,
    decreases drawn.len(),
{
    if drawn.len() > 0 {
        let p = drawn.drop_last();
        let n = drawn.len() - 1;
        lemma_stroke_steps_cover(p);
        lemma_stroke_unfold(drawn);
        let before = stroke_spec(p);
        let all = stroke_spec(drawn);
        assert forall|i: int| 0 <= i < drawn.len() && #[trigger] drawn[i] implies exists|j: int|
            0 <= j < all.len() && step_index(#[trigger] all[j]) == i by {
            if i < n {
                assert(p[i]);
                let j = choose|j: int| 0 <= j < before.len() && step_index(#[trigger] before[j]) == i;
                assert(all[j] == before[j]);
            } else {
                assert(step_index(all[all.len() - 1]) == i);
            }
        }
    }
}

/// Every step of the stroked line goes to a drawn sample of the window; it
/// starts a new piece exactly when that sample is the first one or follows
/// one that is not drawn; the steps visit the samples from oldest to newest;
/// and every drawn sample is visited.
pub proof fn lemma_stroke_steps(drawn: Seq<bool>)
    requires
        drawn.len() <= usize::MAX,
    ensures
        forall|j: int|
            0 <= j < stroke_spec(drawn).len() ==> {
                let i = step_index(#[trigger] stroke_spec(drawn)[j]) as int;
                &&& i < drawn.len()
                &&& drawn[i]
                &&& (stroke_spec(drawn)[j] is MoveTo <==> (i == 0 || !drawn[i - 1]))
            },
        forall|j: int, k: int|
            0 <= j < k < stroke_spec(drawn).len() ==> step_index(#[trigger] stroke_spec(drawn)[j])
                < step_index(#[trigger] stroke_spec(drawn)[k]),
        forall|i: int|
            0 <= i < drawn.len() && #[trigger] drawn[i] ==> exists|j: int|
                0 <= j < stroke_spec(drawn).len() && step_index(#[trigger] stroke_spec(drawn)[j]) == i,
{
    lemma_stroke_steps_valid(drawn);
    lemma_stroke_steps_increasing(drawn);
    lemma_stroke_steps_cover(drawn);
}

/// The sample position a stroke step goes to.
pub open spec fn step_index(step: StrokeStep) -> usize {
    match step {
        StrokeStep::MoveTo(i) => i,
        StrokeStep::LineTo(i) => i,
    }
}

} // verus!

verus! {

/// The stroked line of a chart goes exactly through its non-zero samples:
/// every step goes to a sample that is not zero, every such sample is
/// visited, oldest first, and a step starts a new piece exactly when its
/// sample is the first one or follows a zero sample.
pub proof fn lemma_chart_stroke_skips_zeros(s: Seq<u64>)
    requires
        s.len() <= usize::MAX,
    ensures
        forall|j: int|
            0 <= j < stroke_spec(nonzero_samples(s)).len() ==> {
                let i = step_index(#[trigger] stroke_spec(nonzero_samples(s))[j]) as int;
                &&& 0 <= i < s.len()
                &&& s[i] != 0
                &&& (stroke_spec(nonzero_samples(s))[j] is MoveTo <==> (i == 0 || s[i - 1] == 0))
            },
        forall|j: int, k: int|
            0 <= j < k < stroke_spec(nonzero_samples(s)).len() ==> step_index(
                #[trigger] stroke_spec(nonzero_samples(s))[j],
            ) < step_index(#[trigger] stroke_spec(nonzero_samples(s))[k]),
        forall|i: int|
            0 <= i < s.len() && #[trigger] s[i] != 0 ==> exists|j: int|
                0 <= j < stroke_spec(nonzero_samples(s)).len() && step_index(
                    #[trigger] stroke_spec(nonzero_samples(s))[j],
                ) == i,
{
    let d = nonzero_samples(s);
    lemma_stroke_steps(d);
    assert forall|i: int| 0 <= i < s.len() && #[trigger] s[i] != 0 implies exists|j: int|
        0 <= j < stroke_spec(d).len() && step_index(#[trigger] stroke_spec(d)[j]) == i by {
        assert(d[i]);
    }
}

} // verus!
