use drone_fec::interleavers::lte::LteQpp;
use drone_fec::interleavers::qpp::Qpp;

#[test]
fn get_params() {
    assert_eq!(None, LteQpp::get_params(4 * 8));
    assert_eq!(Some((3, 10)), LteQpp::get_params(5 * 8));
    assert_eq!(Some((31, 64)), LteQpp::get_params(64 * 8));
    assert_eq!(None, LteQpp::get_params(65 * 8));
    assert_eq!(Some((17, 66)), LteQpp::get_params(66 * 8));
    assert_eq!(None, LteQpp::get_params(67 * 8));
    assert_eq!(Some((31, 64)), LteQpp::get_params(128 * 8));
    assert_eq!(None, LteQpp::get_params(129 * 8));
    assert_eq!(None, LteQpp::get_params(131 * 8));
    assert_eq!(Some((17, 66)), LteQpp::get_params(132 * 8));
    assert_eq!(None, LteQpp::get_params(133 * 8));
    assert_eq!(Some((31, 64)), LteQpp::get_params(256 * 8));
    assert_eq!(None, LteQpp::get_params(257 * 8));
    assert_eq!(None, LteQpp::get_params(263 * 8));
    assert_eq!(Some((17, 66)), LteQpp::get_params(264 * 8));
    assert_eq!(Some((263, 480)), LteQpp::get_params(768 * 8));
    assert_eq!(None, LteQpp::get_params(769 * 8));
}

#[test]
fn iterator_and_pi_are_the_same() {
    let qpp = Qpp::new(16, 1, 4);
    for (i, int) in qpp.iter().collect().into_iter().enumerate() {
        assert_eq!(qpp.pi(i), int);
    }

    let qpp = Qpp::new(40, 3, 10);
    for (i, int) in qpp.iter().collect().into_iter().enumerate() {
        assert_eq!(qpp.pi(i), int);
    }
}

#[test]
fn lookup_on_and_off_the_grids() {
    assert_eq!(Some((3, 10)), LteQpp::get_params(40));
    assert_eq!(Some((7, 12)), LteQpp::get_params(48));
    assert_eq!(Some((31, 64)), LteQpp::get_params(512));
    assert_eq!(Some((17, 66)), LteQpp::get_params(528));
    assert_eq!(Some((263, 480)), LteQpp::get_params(6144));
    assert_eq!(None, LteQpp::get_params(0));
    assert_eq!(None, LteQpp::get_params(39));
    assert_eq!(None, LteQpp::get_params(41));
    assert_eq!(None, LteQpp::get_params(47));
    assert_eq!(None, LteQpp::get_params(32));
    assert_eq!(None, LteQpp::get_params(520));
    assert_eq!(None, LteQpp::get_params(536));
    assert_eq!(None, LteQpp::get_params(1040));
    assert_eq!(None, LteQpp::get_params(1072));
    assert_eq!(None, LteQpp::get_params(2080));
    assert_eq!(None, LteQpp::get_params(2144));
    assert_eq!(None, LteQpp::get_params(6145));
    assert_eq!(None, LteQpp::get_params(6208));
    assert_eq!(None, LteQpp::get_params(usize::MAX));
    let on_grid = (0..=7000).filter(|k| LteQpp::get_params(*k).is_some()).count();
    assert_eq!(60 + 32 + 32 + 64, on_grid);
}

#[test]
fn get_gives_the_interleaver_of_the_parameters() {
    assert!(LteQpp::get(32).is_none());
    assert!(LteQpp::get(520).is_none());
    let qpp = LteQpp::get(40).unwrap();
    assert_eq!(Qpp::new(40, 3, 10).iter().collect(), qpp.iter().collect());
    assert_eq!((3 * 7 + 10 * 49) % 40, qpp.pi(7));
    let qpp = LteQpp::get(6144).unwrap();
    assert_eq!((263 * 5 + 480 * 25) % 6144, qpp.pi(5));
}

#[test]
fn every_lte_interleaver_is_a_permutation() {
    for k in 0..=6144usize {
        if let Some(qpp) = LteQpp::get(k) {
            let seq = qpp.iter().collect();
            assert_eq!(k, seq.len());
            let mut seen = vec![false; k];
            for (i, p) in seq.iter().enumerate() {
                assert!(*p < k);
                assert!(!seen[*p]);
                seen[*p] = true;
                assert_eq!(qpp.pi(i), *p);
            }
        }
    }
}

#[test]
fn closed_form() {
    let qpp = Qpp::new(16, 1, 4);
    assert_eq!(0, qpp.pi(0));
    assert_eq!(5, qpp.pi(1));
    assert_eq!(2, qpp.pi(2));
    assert_eq!(7, qpp.pi(3));
    assert_eq!(
        vec![0, 5, 2, 7, 4, 9, 6, 11, 8, 13, 10, 15, 12, 1, 14, 3],
        qpp.iter().collect()
    );
}

#[test]
fn iteration_restarts_and_gives_k_items() {
    let qpp = Qpp::new(40, 3, 10);
    let mut first = qpp.iter();
    assert_eq!((40, Some(40)), first.size_hint());
    assert_eq!(Some(0), first.next());
    assert_eq!(Some(13), first.next());
    assert_eq!((40, Some(40)), first.size_hint());
    assert_eq!(38, first.collect().len());
    let mut again = qpp.iter();
    let mut count = 0;
    while let Some(p) = again.next() {
        assert_eq!(qpp.pi(count), p);
        count += 1;
    }
    assert_eq!(40, count);
    assert_eq!(None, again.next());
    assert_eq!(None, again.next());
    assert!(again.collect().is_empty());
}

#[test]
fn large_parameters_do_not_overflow() {
    let k = usize::MAX;
    let qpp = Qpp::new(k, usize::MAX - 1, usize::MAX - 2);
    // Modulo k the parameters are -1 and -2, so pi(i) is -(i + 2 i^2).
    assert_eq!(k - 3, qpp.pi(1));
    assert_eq!(k - 10, qpp.pi(2));
    let mut it = qpp.iter();
    assert_eq!(Some(0), it.next());
    assert_eq!(Some(k - 3), it.next());
    assert_eq!(Some(k - 10), it.next());
    let qpp = Qpp::new(1, 5, 7);
    assert_eq!(vec![0], qpp.iter().collect());
    assert_eq!(0, qpp.pi(12345));
}
