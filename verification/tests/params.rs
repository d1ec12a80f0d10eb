use gmp_ecm::{factor_or_input, EcmMethod, EcmParams, RawEcmParams, NTT};
use rug::Integer;

#[test]
fn default_params_are_ecm_with_automatic_ntt() {
    let p = EcmParams::default();
    assert_eq!(p.method, EcmMethod::Ecm);
    assert!(p.b2.is_none());
    assert!(p.b2_min.is_none());
    assert_eq!(p.ntt, NTT::Auto);
}

#[test]
fn method_codes() {
    assert_eq!(EcmMethod::Ecm.code(), 0);
    assert_eq!(EcmMethod::Pm1.code(), 1);
    assert_eq!(EcmMethod::Pp1.code(), 2);
}

#[test]
fn ntt_codes() {
    assert_eq!(NTT::Disabled.code(), 0);
    assert_eq!(NTT::Auto.code(), 1);
    assert_eq!(NTT::Enabled.code(), 2);
}

#[test]
fn raw_params_of_default() {
    let p = EcmParams::default();
    let raw = RawEcmParams::from(&p);
    assert_eq!(raw.method, 0);
    assert!(raw.b2.is_none());
    assert!(raw.b2_min.is_none());
    assert_eq!(raw.use_ntt, 1);
    assert_eq!(raw.verbose, 1);
}

#[test]
fn raw_params_carry_the_bounds() {
    let p = EcmParams {
        method: EcmMethod::Pp1,
        b2: Some(Integer::from(1_000_000u32)),
        b2_min: Some(Integer::from(5000u32)),
        ntt: NTT::Enabled,
    };
    let raw = RawEcmParams::from(&p);
    assert_eq!(raw.method, 2);
    assert_eq!(raw.b2, Some(&Integer::from(1_000_000u32)));
    assert_eq!(raw.b2_min, Some(&Integer::from(5000u32)));
    assert_eq!(raw.use_ntt, 2);
}

#[test]
fn params_from_flags() {
    let p = EcmParams::from_flags(false, None, None, false, false);
    assert_eq!(p.method, EcmMethod::Ecm);
    assert_eq!(p.ntt, NTT::Auto);
    let p = EcmParams::from_flags(true, Some(Integer::from(7)), None, true, false);
    assert_eq!(p.method, EcmMethod::Pp1);
    assert_eq!(p.b2, Some(Integer::from(7)));
    assert_eq!(p.ntt, NTT::Enabled);
    let p = EcmParams::from_flags(false, None, Some(Integer::from(3)), false, true);
    assert_eq!(p.b2_min, Some(Integer::from(3)));
    assert_eq!(p.ntt, NTT::Disabled);
    let p = EcmParams::from_flags(false, None, None, true, true);
    assert_eq!(p.ntt, NTT::Enabled);
}

#[test]
fn factor_when_found() {
    let n = Integer::from(91);
    assert_eq!(factor_or_input(1, Integer::from(7), &n), Integer::from(7));
    assert_eq!(factor_or_input(2, Integer::from(13), &n), Integer::from(13));
}

#[test]
fn input_when_no_factor_found() {
    let n: Integer = "340282366920938463463374607431768211507".parse().unwrap();
    assert_eq!(factor_or_input(0, Integer::from(0), &n), n);
    assert_eq!(factor_or_input(-1, Integer::from(1), &n), n);
}
