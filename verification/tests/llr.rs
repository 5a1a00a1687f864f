use drone_fec::llr::zeros;
use drone_fec::symbol::{NewSymbol, Symbol};
use drone_fec::Llr;

#[test]
fn saturating_subtraction() {
    assert_eq!(Llr(3), Llr(10).saturating_sub(Llr(7)));
    assert_eq!(Llr(-128), Llr(-10).saturating_sub(Llr(120)));
    assert_eq!(Llr(127), Llr(0).saturating_sub(Llr(-128)));
    assert_eq!(Llr(127), Llr(127).saturating_sub(Llr(-1)));
    assert_eq!(Llr(-128), Llr(-128).saturating_sub(Llr(1)));
    assert_eq!(Llr(0), Llr(-128).saturating_sub(Llr(-128)));
    for a in -128i16..=127 {
        for b in -128i16..=127 {
            let want = (a - b).clamp(-128, 127) as i8;
            assert_eq!(Llr(want), Llr(a as i8).saturating_sub(Llr(b as i8)));
        }
    }
}

#[test]
fn hard_decision() {
    assert!(Llr(1).hard());
    assert!(Llr(127).hard());
    assert!(!Llr(0).hard());
    assert!(!Llr(-1).hard());
    assert!(!Llr(-128).hard());
}

#[test]
fn zero_is_equiprobable() {
    assert_eq!(Llr(0), Llr::zero());
    assert!(!Llr::zero().hard());
    assert_eq!(vec![Llr(0); 5], zeros(5));
    assert!(zeros(0).is_empty());
}

#[test]
fn from_a_byte() {
    let llr: Llr = (-7_i8).into();
    assert_eq!(Llr(-7), llr);
    assert_eq!(Llr(9), Llr::from(9));
}

#[test]
fn symbols() {
    let a: Symbol = NewSymbol::<Llr>::new(Llr(1), Llr(-2), Llr(3));
    let b: Symbol = NewSymbol::<i8>::new(1, -2, 3);
    assert_eq!(Llr(1), a.lu);
    assert_eq!(Llr(-2), a.lv);
    assert_eq!(Llr(3), a.la);
    assert_eq!(a.lu, b.lu);
    assert_eq!(a.lv, b.lv);
    assert_eq!(a.la, b.la);
}
