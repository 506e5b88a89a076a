use eguiplotlib::error::Error;
use eguiplotlib::plot::{zip_line, Plot, Point};

fn pt(x: f64, y: f64) -> Point {
    Point { x: x.to_bits(), y: y.to_bits() }
}

#[test]
fn new_plot_is_empty() {
    let p = Plot::new();
    assert_eq!(p.line_data.len(), 0);
}

#[test]
fn set_line_at_len_appends() {
    let mut p = Plot::new();
    let r = p.set_line(0, vec![pt(1.0, 2.0)]);
    assert_eq!(r, Ok(()));
    assert_eq!(p.line_data, vec![vec![pt(1.0, 2.0)]]);
}

#[test]
fn set_line_below_len_overwrites() {
    let mut p = Plot::new();
    p.set_line(0, vec![pt(1.0, 2.0)]).unwrap();
    p.set_line(1, vec![pt(3.0, 4.0)]).unwrap();
    let r = p.set_line(0, vec![pt(5.0, 6.0)]);
    assert_eq!(r, Ok(()));
    assert_eq!(p.line_data, vec![vec![pt(5.0, 6.0)], vec![pt(3.0, 4.0)]]);
}

#[test]
fn set_line_above_len_fails_with_index_and_bound() {
    let mut p = Plot::new();
    p.set_line(0, vec![pt(1.0, 2.0)]).unwrap();
    let r = p.set_line(2, vec![pt(9.0, 9.0)]);
    assert_eq!(r, Err(Error::IndexOutOfRange { index: 2, bound: 1 }));
    // the failed write left the plot untouched
    assert_eq!(p.line_data, vec![vec![pt(1.0, 2.0)]]);
}

#[test]
fn add_line_equals_set_line_at_len() {
    let mut a = Plot::new();
    a.set_line(0, vec![pt(0.0, 0.0)]).unwrap();
    let mut b = Plot::new();
    b.set_line(0, vec![pt(0.0, 0.0)]).unwrap();

    let added = vec![pt(7.0, 8.0), pt(9.0, 10.0)];
    let len_before = a.line_data.len();
    assert_eq!(a.add_line(added.clone()), Ok(()));
    assert_eq!(b.set_line(len_before, added), Ok(()));
    assert_eq!(a.line_data, b.line_data);
    assert_eq!(a.line_data.len(), len_before + 1);
}

#[test]
fn zip_line_drops_trailing_coordinates() {
    let x: Vec<u64> = vec![1.0f64.to_bits(), 2.0f64.to_bits(), 3.0f64.to_bits()];
    let y: Vec<u64> = vec![10.0f64.to_bits(), 20.0f64.to_bits()];
    let s = zip_line(&x, &y);
    assert_eq!(s, vec![pt(1.0, 10.0), pt(2.0, 20.0)]);
}

#[test]
fn zip_line_of_empty_is_empty() {
    let x: Vec<u64> = vec![];
    let y: Vec<u64> = vec![1.0f64.to_bits()];
    assert_eq!(zip_line(&x, &y).len(), 0);
    assert_eq!(zip_line(&y, &x).len(), 0);
}

#[test]
fn non_finite_coordinates_are_kept() {
    let mut p = Plot::new();
    let s = vec![pt(f64::NAN, f64::INFINITY), pt(1.0, 2.0)];
    p.add_line(s.clone()).unwrap();
    // never filtered: the bit patterns land in the store as given
    assert_eq!(p.line_data[0][0].x, f64::NAN.to_bits());
    assert_eq!(p.line_data[0][0].y, f64::INFINITY.to_bits());
    assert_eq!(p.line_data[0][1], pt(1.0, 2.0));
}
