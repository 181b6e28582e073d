use kansuji::{Kansuji, KansujiField, KansujiKeta, parse_kansuji};

#[test]
fn check_kansuji_1() {
    let v: Vec<u128> = vec![0, 1, 2, 3, 10, 11, 15, 200, 76492334, 764923341, 1999999];
    for n in v.iter() {
        let kansuji = Kansuji::from_u128(*n);
        assert_eq!(*n, kansuji.to_u128());
        let s = kansuji.to_string();
        let new_kansuji = parse_kansuji(&s);
        assert_eq!(new_kansuji, Ok(kansuji));
        assert_eq!(s, new_kansuji.unwrap().to_string());
    }
}

#[test]
fn check_kansuji_2() {
    let f = 1.234;
    let n = f as u128;
    let millis = ((f - n as f64) * 1000.0) as u16;
    let kansuji = Kansuji::from_parts(n, millis);
    let s = kansuji.to_string();
    assert_eq!(s, "一二分三厘四毛".to_string());
}

#[test]
fn check_kansuji_3() {
    let f = 1.203;
    let n = f as u128;
    let millis = ((f - n as f64) * 1000.0) as u16;
    let kansuji = Kansuji::from_parts(n, millis);
    let s = kansuji.to_string();
    assert_eq!(s, "一二分三毛".to_string());
}

#[test]
fn render_zero_is_rei() {
    assert_eq!(Kansuji::default().to_string(), "零");
    assert_eq!(Kansuji::from_u128(0).to_string(), "零");
}

#[test]
fn render_keeps_standalone_unit_digit() {
    assert_eq!(Kansuji::from_u64(1).to_string(), "一");
    assert_eq!(Kansuji::from_u64(11).to_string(), "十一");
    assert_eq!(Kansuji::from_u64(21).to_string(), "二十一");
    assert_eq!(Kansuji::from_u64(1111).to_string(), "千百十一");
}

#[test]
fn render_elides_leading_one_before_magnitude_marker() {
    assert_eq!(Kansuji::from_u64(10000).to_string(), "万");
    assert_eq!(Kansuji::from_u64(100000000).to_string(), "億");
    assert_eq!(Kansuji::from_u64(10001).to_string(), "万一");
}

#[test]
fn render_samples() {
    assert_eq!(Kansuji::from_u64(20).to_string(), "二十");
    assert_eq!(Kansuji::from_u64(1000).to_string(), "千");
    assert_eq!(Kansuji::from_u64(1999999).to_string(), "百九十九万九千九百九十九");
    assert_eq!(
        Kansuji::from_u128(764923341).to_string(),
        "七億六千四百九十二万三千三百四十一"
    );
}

#[test]
fn render_fractions() {
    assert_eq!(Kansuji::from_parts(0, 203).to_string(), "二分三毛");
    assert_eq!(Kansuji::from_parts(1, 100).to_string(), "一一分");
    assert_eq!(Kansuji::from_parts(2, 1).to_string(), "二一毛");
    assert_eq!(Kansuji::from_parts(0, 100).to_string(), "一分");
    assert_eq!(Kansuji::from_parts(0, 999).to_string(), "九分九厘九毛");
}

#[test]
fn fractional_round_trip() {
    let v: Vec<u16> = vec![1, 10, 100, 203, 111, 999];
    for millis in v.iter() {
        let kansuji = Kansuji::from_parts(0, *millis);
        let s = kansuji.to_string();
        assert_eq!(parse_kansuji(&s), Ok(kansuji));
    }
}

#[test]
fn frac_millis_recomposes() {
    assert_eq!(Kansuji::from_parts(5, 999).frac_millis(), 999);
    assert_eq!(Kansuji::from_parts(5, 0).frac_millis(), 0);
    assert_eq!(Kansuji::from_parts(5, 203).frac_millis(), 203);
}

#[test]
fn integer_round_trip_large() {
    let v: Vec<u128> = vec![
        9999,
        20000,
        99999999,
        4294967295,
        18446744073709551615,
        999999999999999999999999,
    ];
    for n in v.iter() {
        let kansuji = Kansuji::from_u128(*n);
        assert_eq!(*n, kansuji.to_u128());
        let s = kansuji.to_string();
        assert_eq!(parse_kansuji(&s), Ok(kansuji));
    }
}

#[test]
fn from_u128_truncates_above_the_top_group() {
    let n: u128 = 1000000000000000000000000;
    assert_eq!(Kansuji::from_u128(n).to_u128(), 0);
}

#[test]
fn integer_widths_agree() {
    assert_eq!(Kansuji::from_u8(255).to_u128(), 255);
    assert_eq!(Kansuji::from_u16(65535).to_u128(), 65535);
    assert_eq!(Kansuji::from_u32(4294967295).to_u128(), 4294967295);
    assert_eq!(Kansuji::from_u64(18446744073709551615).to_u128(), 18446744073709551615);
    assert_eq!(Kansuji::from_usize(123456789).to_u128(), 123456789);
}

#[test]
fn field_conversions() {
    for n in 0..=9u8 {
        let f = KansujiField::from_int(n);
        assert_eq!(f.to_int(), n);
    }
    assert_eq!(KansujiField::Zero.to_str(), "");
    assert_eq!(KansujiField::One.to_str(), "");
    assert_eq!(KansujiField::Two.to_str(), "二");
    assert_eq!(KansujiField::Zero.to_unit_str(), "");
    assert_eq!(KansujiField::One.to_unit_str(), "一");
    assert_eq!(KansujiField::Nine.to_unit_str(), "九");
}

#[test]
fn keta_conversions() {
    let keta = KansujiKeta::from_int(1234);
    assert_eq!(keta.to_int(), 1234);
    assert_eq!(keta.to_string(), "千二百三十四");
    assert_eq!(KansujiKeta::from_int(10000 + 56).to_int(), 56);
    assert_eq!(KansujiKeta::from_int(0).to_string(), "");
}

#[test]
fn keta_predicates() {
    assert!(KansujiKeta::default().is_zero());
    assert!(!KansujiKeta::default().is_one());
    let one = KansujiKeta {
        ichi: KansujiField::One,
        ..KansujiKeta::default()
    };
    assert!(one.is_one());
    assert!(!one.is_zero());
    let ten = KansujiKeta {
        juu: KansujiField::One,
        ..KansujiKeta::default()
    };
    assert!(!ten.is_one());
    assert!(!ten.is_zero());
}
