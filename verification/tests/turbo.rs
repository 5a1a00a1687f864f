use drone_fec::interleavers::qpp::Qpp;
use drone_fec::trellises::umts::UmtsTrellis;
use drone_fec::{Llr, TurboDecoder};

fn llr_vec(values: &[i8]) -> Vec<Llr> {
    values.iter().map(|v| Llr(*v)).collect()
}

fn systematic() -> Vec<Llr> {
    llr_vec(&[-4, -4, -4, 4, -4, -4, 4, 4, -4, -4, -4, -4, -4, -4, 4, -4])
}

fn first_parity() -> Vec<Llr> {
    llr_vec(&[-4, -4, -4, 4, 4, 4, -4, -4, -4, 4, 4, 4, -4, -4, -4, 4, 4, 4, 4])
}

fn second_parity() -> Vec<Llr> {
    llr_vec(&[-4, -4, -4, 4, 4, 4, -4, 4, 4, -4, -4, 4, -4, 4, -4, 4, -4, -4, -4])
}

#[test]
fn decode_excel_example() {
    let systematic = systematic();
    let first_decoder_systematic_termination = llr_vec(&[4, -4, 4]);
    let first_decoder_parity = first_parity();
    let second_decoder_systematic_termination = llr_vec(&[-4, -4, -4]);
    let second_decoder_parity = second_parity();

    let mut turbo = TurboDecoder::new(UmtsTrellis);
    let interleaver = Qpp::new(16, 1, 4);

    let mut iterator = turbo.decode(
        &systematic,
        Some(&first_decoder_systematic_termination),
        &first_decoder_parity,
        Some(&second_decoder_systematic_termination),
        &second_decoder_parity,
        interleaver.iter().collect(),
    );

    let mut iterations = vec![];
    loop {
        iterator.advance();
        iterations.push(iterator.get().to_vec());
        if iterations.len() == 2 {
            break;
        }
    }

    assert_eq!(
        llr_vec(&[-72, -52, -68, 44, -68, -72, 68, 68, -60, -72, -52, -60, -60, -52, 44, -52]),
        iterations[0]
    );

    assert_eq!(
        llr_vec(&[-108, -84, -92, 59, -92, -108, 88, 46, -76, -84, -60, -68, -76, -60, 44, -52]),
        iterations[1]
    );

    drop(iterator);

    assert!(turbo.l_app_deinterleaved().is_empty());
    assert!(turbo.la_second().is_empty());
}

#[test]
fn nothing_to_get_before_the_first_iteration() {
    let systematic = systematic();
    let tail1 = llr_vec(&[4, -4, 4]);
    let parity1 = first_parity();
    let tail2 = llr_vec(&[-4, -4, -4]);
    let parity2 = second_parity();
    let mut turbo = TurboDecoder::new(UmtsTrellis);
    assert!(turbo.l_app_deinterleaved().is_empty());
    assert!(turbo.la_second().is_empty());
    let mut iterator = turbo.decode(
        &systematic,
        Some(&tail1),
        &parity1,
        Some(&tail2),
        &parity2,
        Qpp::new(16, 1, 4).iter().collect(),
    );
    assert!(iterator.get().is_empty());
    iterator.advance();
    assert_eq!(16, iterator.get().len());
}

#[test]
fn one_iteration_keeps_the_hard_decisions_of_a_noise_free_block() {
    let systematic = systematic();
    let tail1 = llr_vec(&[4, -4, 4]);
    let parity1 = first_parity();
    let tail2 = llr_vec(&[-4, -4, -4]);
    let parity2 = second_parity();
    let mut turbo = TurboDecoder::new(UmtsTrellis);
    let mut iterator = turbo.decode(
        &systematic,
        Some(&tail1),
        &parity1,
        Some(&tail2),
        &parity2,
        Qpp::new(16, 1, 4).iter().collect(),
    );
    iterator.advance();
    for (sent, found) in systematic.iter().zip(iterator.get().iter()) {
        assert_eq!(sent.hard(), found.hard());
    }
}

#[test]
fn third_iteration() {
    let systematic = systematic();
    let tail1 = llr_vec(&[4, -4, 4]);
    let parity1 = first_parity();
    let tail2 = llr_vec(&[-4, -4, -4]);
    let parity2 = second_parity();
    let mut turbo = TurboDecoder::new(UmtsTrellis);
    let mut iterator = turbo.decode(
        &systematic,
        Some(&tail1),
        &parity1,
        Some(&tail2),
        &parity2,
        Qpp::new(16, 1, 4).iter().collect(),
    );
    iterator.advance();
    iterator.advance();
    iterator.advance();
    assert_eq!(
        llr_vec(&[-90, -84, -92, 59, -92, -106, 89, 56, -76, -84, -60, -68, -76, -60, 44, -52]),
        iterator.get().to_vec()
    );
}

#[test]
fn decode_without_terminations() {
    let systematic = systematic();
    let parity1 = first_parity()[..16].to_vec();
    let parity2 = second_parity()[..16].to_vec();
    let mut turbo = TurboDecoder::new(UmtsTrellis);
    let mut iterator =
        turbo.decode(&systematic, None, &parity1, None, &parity2, Qpp::new(16, 1, 4).iter().collect());
    iterator.advance();
    assert_eq!(
        llr_vec(&[-64, -36, -60, 28, -48, -60, 52, 44, -40, -44, -24, -40, -20, -32, 20, -16]),
        iterator.get().to_vec()
    );
    iterator.advance();
    assert_eq!(
        llr_vec(&[-84, -52, -76, 40, -60, -72, 60, 52, -44, -48, -28, -44, -28, -36, 20, -16]),
        iterator.get().to_vec()
    );
}

#[test]
fn a_released_decoder_starts_afresh() {
    let systematic = systematic();
    let tail1 = llr_vec(&[4, -4, 4]);
    let parity1 = first_parity();
    let tail2 = llr_vec(&[-4, -4, -4]);
    let parity2 = second_parity();
    let mut turbo = TurboDecoder::new(UmtsTrellis);
    let first = {
        let mut iterator = turbo.decode(
            &systematic,
            Some(&tail1),
            &parity1,
            Some(&tail2),
            &parity2,
            Qpp::new(16, 1, 4).iter().collect(),
        );
        iterator.advance();
        iterator.advance();
        iterator.get().to_vec()
    };
    assert!(turbo.l_app_deinterleaved().is_empty());
    assert!(turbo.la_second().is_empty());
    let mut iterator = turbo.decode(
        &systematic,
        Some(&tail1),
        &parity1,
        Some(&tail2),
        &parity2,
        Qpp::new(16, 1, 4).iter().collect(),
    );
    assert!(iterator.get().is_empty());
    iterator.advance();
    assert_eq!(
        llr_vec(&[-72, -52, -68, 44, -68, -72, 68, 68, -60, -72, -52, -60, -60, -52, 44, -52]),
        iterator.get().to_vec()
    );
    iterator.advance();
    assert_eq!(first, iterator.get().to_vec());
}
