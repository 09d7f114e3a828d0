use typst_layout::{Dir, Length, Spec, SpecAxis};

#[test]
fn spec_new_and_get() {
    let s = Spec::new(1i64, 2i64);
    assert_eq!(s.x, 1);
    assert_eq!(s.y, 2);
    assert_eq!(s.get(SpecAxis::Horizontal), 1);
    assert_eq!(s.get(SpecAxis::Vertical), 2);
}

#[test]
fn spec_splat() {
    let s = Spec::splat(7i64);
    assert_eq!(s.x, 7);
    assert_eq!(s.y, 7);
}

#[test]
fn spec_map() {
    let s = Spec::new(2i64, 3i64).map(|v: i64| v * 10);
    assert_eq!(s.x, 20);
    assert_eq!(s.y, 30);
}

#[test]
fn spec_to_gen() {
    let s = Spec::new(1i64, 2i64);
    let horizontal_block = s.to_gen(SpecAxis::Horizontal);
    assert_eq!(horizontal_block.block, 1);
    assert_eq!(horizontal_block.inline, 2);
    let vertical_block = s.to_gen(SpecAxis::Vertical);
    assert_eq!(vertical_block.block, 2);
    assert_eq!(vertical_block.inline, 1);
}

#[test]
fn spec_eq_by() {
    let a = Spec::new(1i64, 2i64);
    let b = Spec::new(1i64, 2i64);
    let c = Spec::new(1i64, 3i64);
    assert!(a.eq_by(&b, |x: &i64, y: &i64| x == y));
    assert!(!a.eq_by(&c, |x: &i64, y: &i64| x == y));
}

#[test]
fn spec_zero_point_size() {
    let z = Spec::<Length>::zero();
    assert_eq!(z.x.units, 0);
    assert_eq!(z.y.units, 0);
    let s = Spec::new(Length::new(3), Length::new(4));
    let p = s.to_point();
    assert_eq!(p.x.units, 3);
    assert_eq!(p.y.units, 4);
    let sz = Spec::new(Length::new(5), Length::new(6)).to_size();
    assert_eq!(sz.x.units, 5);
    assert_eq!(sz.y.units, 6);
}

#[test]
fn spec_unwrap_or() {
    let s: Spec<Option<i64>> = Spec::new(Some(1), None);
    let r = s.unwrap_or(Spec::new(8, 9));
    assert_eq!(r.x, 1);
    assert_eq!(r.y, 9);
}

#[test]
fn axis_dir() {
    assert_eq!(SpecAxis::Horizontal.dir(true), Dir::LTR);
    assert_eq!(SpecAxis::Horizontal.dir(false), Dir::RTL);
    assert_eq!(SpecAxis::Vertical.dir(true), Dir::TTB);
    assert_eq!(SpecAxis::Vertical.dir(false), Dir::BTT);
}

#[test]
fn axis_other() {
    assert_eq!(SpecAxis::Horizontal.other(), SpecAxis::Vertical);
    assert_eq!(SpecAxis::Vertical.other(), SpecAxis::Horizontal);
}

#[test]
fn spec_get_mut() {
    let mut s = Spec::new(1i64, 2i64);
    *s.get_mut(SpecAxis::Horizontal) = 10;
    *s.get_mut(SpecAxis::Vertical) = 20;
    assert_eq!(s.x, 10);
    assert_eq!(s.y, 20);
}
