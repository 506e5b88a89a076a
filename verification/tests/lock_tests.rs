use std::sync::Mutex;

use eguiplotlib::error::Error;
use eguiplotlib::store::FigureStore;

// The render loop must never wait for a mutator: while a mutator holds the
// store's lock, the render loop's non-blocking acquisition fails, it skips
// that frame, and it succeeds on the next attempt after the mutator is done.
#[test]
fn render_attempt_skips_while_a_mutator_holds_the_store() {
    let shared = Mutex::new(FigureStore::new());

    // a mutator is inside add_line_at, holding the lock
    let mut mutator_guard = shared.lock().unwrap();
    mutator_guard.add_figure(String::from("a"), 1, 1);
    let x: Vec<u64> = vec![1.0f64.to_bits()];
    let y: Vec<u64> = vec![2.0f64.to_bits()];
    mutator_guard
        .add_line_at(&String::from("a"), 0, 0, &x, &y)
        .unwrap();

    // the render loop's frame tick: a non-blocking attempt, no waiting
    assert!(shared.try_lock().is_err());

    // the mutator returns, releasing the lock; the next frame succeeds and
    // observes the completed mutation, never a torn intermediate state
    drop(mutator_guard);
    let render_guard = shared.try_lock().unwrap();
    assert_eq!(
        render_guard.figure_at(0).plot_rows[0].plots[0].line_data.len(),
        1
    );
}

// Every handle operation funnels lock failure into the same error kind; the
// kinds stay distinguishable for the embedding caller.
#[test]
fn error_kinds_are_distinct() {
    let handle_invalid = Error::HandleInvalid;
    assert!(matches!(handle_invalid, Error::HandleInvalid));
    assert_ne!(handle_invalid, Error::NotFound);
    assert_ne!(handle_invalid, Error::IndexOutOfRange { index: 0, bound: 0 });
}
