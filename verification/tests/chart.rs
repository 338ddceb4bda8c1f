use sysmon::chart::{interleave, stroke_plan, HistoryChart, SimpleHistoryChart, StrokeStep, SuperimposedHistoryChart};
use sysmon::color::Color;
use sysmon::history::History;

fn window(values: &[u64]) -> History {
    let mut h = History::with_capacity(values.len());
    for v in values {
        h.push(*v);
    }
    h
}

const RED: Color = Color::Rgb { red: 255, green: 0, blue: 0 };

#[test]
fn new_keeps_its_arguments() {
    let h = window(&[1, 2]);
    let c = HistoryChart::new(&h, 10u64, RED);
    assert_eq!(c.max(), 10);
    assert_eq!(c.color(), RED);
    assert_eq!(c.history().to_vec(), vec![1, 2]);
}

#[test]
fn auto_max_takes_largest_sample() {
    let h = window(&[5, 40, 12]);
    let c = HistoryChart::auto_max(&h, Color::Accent);
    assert_eq!(c.max(), 40);
    assert_eq!(c.color(), Color::Accent);
}

#[test]
fn auto_max_of_empty_window_is_zero() {
    let h = History::with_capacity(0);
    assert_eq!(HistoryChart::auto_max(&h, RED).max(), 0);
    assert_eq!(SimpleHistoryChart::auto_max(&h, RED).chart().max(), 0);
}

#[test]
fn link_max_shares_the_larger_top() {
    let a = window(&[1]);
    let b = window(&[2]);
    let mut front = HistoryChart::new(&a, 30u64, RED);
    let mut back = HistoryChart::new(&b, 70u64, Color::Accent);
    HistoryChart::link_max(&mut front, &mut back);
    assert_eq!(front.max(), 70);
    assert_eq!(back.max(), 70);
    assert_eq!(front.color(), RED);
    assert_eq!(back.color(), Color::Accent);
    HistoryChart::link_max(&mut front, &mut back);
    assert_eq!(front.max(), 70);
    assert_eq!(back.max(), 70);
}

#[test]
fn link_max_does_not_depend_on_order() {
    let a = window(&[1]);
    let mut x = HistoryChart::new(&a, 9u64, RED);
    let mut y = HistoryChart::new(&a, 4u64, RED);
    HistoryChart::link_max(&mut y, &mut x);
    assert_eq!(x.max(), 9);
    assert_eq!(y.max(), 9);
}

#[test]
fn simple_chart_new_and_auto_max() {
    let h = window(&[3, 8, 1]);
    let s = SimpleHistoryChart::new(&h, 100u64, RED);
    assert_eq!(s.chart().max(), 100);
    assert_eq!(s.chart().color(), RED);
    let s = SimpleHistoryChart::auto_max(&h, RED);
    assert_eq!(s.chart().max(), 8);
}

#[test]
fn superimposed_new_keeps_both_charts() {
    let f = window(&[1, 2]);
    let b = window(&[3]);
    let c = SuperimposedHistoryChart::new(&f, 11, &RED, &b, 22, &Color::Accent);
    assert_eq!(c.front.max(), 11);
    assert_eq!(c.back.max(), 22);
    assert_eq!(c.front.color(), RED);
    assert_eq!(c.back.color(), Color::Accent);
    assert_eq!(c.front.history().to_vec(), vec![1, 2]);
    assert_eq!(c.back.history().to_vec(), vec![3]);
}

#[test]
fn superimposed_new_linked_shares_scale() {
    let f = window(&[100, 250, 3]);
    let b = window(&[900, 0]);
    let c = SuperimposedHistoryChart::new_linked(&f, &RED, &b, &Color::Accent);
    assert_eq!(c.front.max(), 900);
    assert_eq!(c.back.max(), 900);
    let c = SuperimposedHistoryChart::new_linked(&b, &RED, &f, &Color::Accent);
    assert_eq!(c.front.max(), 900);
    assert_eq!(c.back.max(), 900);
}

#[test]
fn stroke_skips_zero_samples() {
    let h = window(&[0, 5, 6, 0, 0, 7, 8, 0]);
    let c = HistoryChart::new(&h, 8u64, RED);
    assert_eq!(
        c.stroke_steps(),
        vec![
            StrokeStep::MoveTo(1),
            StrokeStep::LineTo(2),
            StrokeStep::MoveTo(5),
            StrokeStep::LineTo(6),
        ]
    );
}

#[test]
fn stroke_of_all_zero_window_is_empty() {
    let h = History::with_capacity(5);
    assert!(HistoryChart::new(&h, 0u64, RED).stroke_steps().is_empty());
    let h = window(&[3, 4]);
    assert_eq!(
        HistoryChart::new(&h, 4u64, RED).stroke_steps(),
        vec![StrokeStep::MoveTo(0), StrokeStep::LineTo(1)]
    );
}

#[test]
fn interleave_alternates_back_and_front() {
    assert_eq!(interleave(vec![1, 3, 5], vec![2, 4, 6]), vec![1, 2, 3, 4, 5, 6]);
    assert_eq!(interleave(vec!['a', 'b', 'c'], vec!['x']), vec!['a', 'x']);
    assert_eq!(interleave(Vec::<u8>::new(), vec![1]), Vec::<u8>::new());
}

#[test]
fn stroke_plan_over_drawn_flags() {
    assert_eq!(
        stroke_plan(&vec![true, false, true, true, true]),
        vec![
            StrokeStep::MoveTo(0),
            StrokeStep::MoveTo(2),
            StrokeStep::LineTo(3),
            StrokeStep::LineTo(4),
        ]
    );
    assert!(stroke_plan(&vec![]).is_empty());
}
