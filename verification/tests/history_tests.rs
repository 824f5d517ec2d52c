use audio_visualizer::history::HistoryWindow;

#[test]
fn empty_window_reports_zero() {
    let w = HistoryWindow::new(5);
    assert_eq!(w.len(), 0);
    assert_eq!(w.sum(), 0);
    assert_eq!(w.average(), 0);
}

#[test]
fn push_below_capacity_keeps_everything() {
    let mut w = HistoryWindow::new(4);
    w.push(10);
    w.push(20);
    assert_eq!(w.len(), 2);
    assert_eq!(w.sum(), 30);
    assert_eq!(w.average(), 15);
}

#[test]
fn push_beyond_capacity_evicts_oldest() {
    let mut w = HistoryWindow::new(3);
    for v in [1, 2, 3, 4, 5] {
        w.push(v);
    }
    // the window holds [3, 4, 5]
    assert_eq!(w.len(), 3);
    assert_eq!(w.sum(), 12);
    assert_eq!(w.average(), 4);
}

#[test]
fn average_is_mean_of_last_capacity_pushes() {
    // history-window law on concrete values: M = 10 pushes into a
    // window of capacity N = 4; the average is the mean of exactly the
    // last 4 values, whatever came before
    let mut w = HistoryWindow::new(4);
    for v in [900, 1, 77, 13, 5, 8, 100, 200, 300, 400] {
        w.push(v);
    }
    assert_eq!(w.len(), 4);
    assert_eq!(w.sum(), 100 + 200 + 300 + 400);
    assert_eq!(w.average(), 250);
}

#[test]
fn average_truncates_toward_zero() {
    let mut w = HistoryWindow::new(2);
    w.push(1);
    w.push(2);
    assert_eq!(w.average(), 1);
}
