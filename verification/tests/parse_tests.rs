use kansuji::{Kansuji, KansujiError, KansujiField, KansujiKeta, parse_kansuji, parse_keta};

#[test]
fn check_parse_kansuji_1() {
    let str = "百万一";
    let kansuji = parse_kansuji(str);
    assert_eq!(
        kansuji,
        Ok(Kansuji {
            man: KansujiKeta {
                hyaku: KansujiField::One,
                ..KansujiKeta::default()
            },
            base: KansujiKeta {
                ichi: KansujiField::One,
                ..KansujiKeta::default()
            },
            ..Kansuji::default()
        })
    )
}

#[test]
fn check_parse_kansuji_2() {
    let str = "二百五垓百万二十一";
    let kansuji = parse_kansuji(str);
    assert_eq!(
        kansuji,
        Ok(Kansuji {
            gai: KansujiKeta {
                hyaku: KansujiField::Two,
                ichi: KansujiField::Five,
                ..KansujiKeta::default()
            },
            man: KansujiKeta {
                hyaku: KansujiField::One,
                ..KansujiKeta::default()
            },
            base: KansujiKeta {
                juu: KansujiField::Two,
                ichi: KansujiField::One,
                ..KansujiKeta::default()
            },
            ..Kansuji::default()
        })
    )
}

#[test]
fn check_parse_kansuji_3() {
    let str = "二百五垓ほ百万二十一";
    let kansuji = parse_kansuji(str);
    assert!(kansuji.is_err())
}

#[test]
fn check_parse_keta_1() {
    let mut pos = 0;
    let keta = parse_keta("百三十一", &mut pos);
    assert_eq!(
        keta,
        Ok(KansujiKeta {
            sen: KansujiField::Zero,
            hyaku: KansujiField::One,
            juu: KansujiField::Three,
            ichi: KansujiField::One,
        })
    )
}

#[test]
fn check_parse_keta_2() {
    let mut pos = 0;
    let keta = parse_keta("", &mut pos);
    assert_eq!(
        keta,
        Ok(KansujiKeta {
            sen: KansujiField::Zero,
            hyaku: KansujiField::Zero,
            juu: KansujiField::Zero,
            ichi: KansujiField::Zero,
        })
    )
}

#[test]
fn check_parse_keta_3() {
    let s = "百万一";
    let mut pos = 0;
    let keta = parse_keta(s, &mut pos);
    assert_eq!(
        keta,
        Ok(KansujiKeta {
            sen: KansujiField::Zero,
            hyaku: KansujiField::One,
            juu: KansujiField::Zero,
            ichi: KansujiField::Zero,
        })
    );
    pos += 1;
    let keta = parse_keta(s, &mut pos);
    assert_eq!(
        keta,
        Ok(KansujiKeta {
            sen: KansujiField::Zero,
            hyaku: KansujiField::Zero,
            juu: KansujiField::Zero,
            ichi: KansujiField::One,
        })
    )
}

#[test]
fn check_parse_keta_4() {
    let mut pos = 0;
    let keta = parse_keta("百に万一", &mut pos);
    assert!(keta.is_err())
}

#[test]
fn check_parse_keta_5() {
    let s = "百二万一";
    let mut pos = 0;
    let keta = parse_keta(s, &mut pos);
    assert_eq!(
        keta,
        Ok(KansujiKeta {
            sen: KansujiField::Zero,
            hyaku: KansujiField::One,
            juu: KansujiField::Zero,
            ichi: KansujiField::Two,
        })
    );
    pos += 1;
    let keta = parse_keta(s, &mut pos);
    assert_eq!(
        keta,
        Ok(KansujiKeta {
            sen: KansujiField::Zero,
            hyaku: KansujiField::Zero,
            juu: KansujiField::Zero,
            ichi: KansujiField::One,
        })
    )
}

#[test]
fn parse_empty_is_zero() {
    assert_eq!(parse_kansuji(""), Ok(Kansuji::default()));
}

#[test]
fn parse_rei_is_zero() {
    assert_eq!(parse_kansuji("零"), Ok(Kansuji::default()));
    assert_eq!(parse_kansuji("零").unwrap().to_u128(), 0);
}

#[test]
fn parse_invalid_glyph() {
    assert_eq!(parse_kansuji("ほ"), Err(KansujiError::UnexpectedChar('ほ')));
}

#[test]
fn parse_invalid_glyph_after_gai_group() {
    assert_eq!(
        parse_kansuji("二百五垓ほ百万二十一"),
        Err(KansujiError::UnexpectedChar('ほ'))
    );
}

#[test]
fn parse_invalid_glyph_mid_group() {
    assert_eq!(parse_kansuji("百に万一"), Err(KansujiError::UnexpectedChar('に')));
}

#[test]
fn parse_place_markers_out_of_order() {
    assert_eq!(parse_kansuji("十百一"), Err(KansujiError::UnexpectedChar('百')));
    assert_eq!(parse_kansuji("百千"), Err(KansujiError::UnexpectedChar('千')));
    assert_eq!(parse_kansuji("十二十"), Err(KansujiError::UnexpectedChar('十')));
}

#[test]
fn parse_magnitude_markers_out_of_order() {
    assert_eq!(parse_kansuji("一万二万三"), Err(KansujiError::UnexpectedChar('万')));
    assert_eq!(parse_kansuji("一万二億三"), Err(KansujiError::UnexpectedChar('億')));
    assert_eq!(parse_kansuji("一分二分"), Err(KansujiError::UnexpectedChar('分')));
    assert_eq!(parse_kansuji("一厘二分"), Err(KansujiError::UnexpectedChar('分')));
}

#[test]
fn parse_fraction_rejects_wide_group() {
    assert_eq!(parse_kansuji("十一分"), Err(KansujiError::UnexpectedChar('分')));
    assert_eq!(parse_kansuji("百分"), Err(KansujiError::UnexpectedChar('分')));
    assert_eq!(parse_kansuji("千一毛"), Err(KansujiError::UnexpectedChar('毛')));
}

#[test]
fn parse_fractions() {
    // The digit before 分 belongs to the fractional group: a digit run keeps
    // only its last digit, so 一二 reads as the single digit 二 there.
    assert_eq!(
        parse_kansuji("一二分三厘四毛"),
        Ok(Kansuji {
            tenths: KansujiField::Two,
            hundredths: KansujiField::Three,
            thousandths: KansujiField::Four,
            ..Kansuji::default()
        })
    );
    assert_eq!(
        parse_kansuji("五分"),
        Ok(Kansuji {
            tenths: KansujiField::Five,
            ..Kansuji::default()
        })
    );
}

#[test]
fn parse_bare_magnitude_marker_reads_empty_group() {
    let k = parse_kansuji("万").unwrap();
    assert_eq!(k, Kansuji::default());
}

#[test]
fn parse_stops_after_thousandths() {
    let k = parse_kansuji("一毛十百").unwrap();
    assert_eq!(k.to_u128(), 0);
    assert_eq!(k.thousandths, KansujiField::One);
}

#[test]
fn parse_keta_defaults_place_digit_to_one() {
    let mut pos = 0;
    let keta = parse_keta("千", &mut pos).unwrap();
    assert_eq!(keta.to_int(), 1000);
    let mut pos = 0;
    let keta = parse_keta("千百十一", &mut pos).unwrap();
    assert_eq!(keta.to_int(), 1111);
}

#[test]
fn parse_keta_last_digit_before_marker_wins() {
    let mut pos = 0;
    let keta = parse_keta("一二三十", &mut pos).unwrap();
    assert_eq!(keta.to_int(), 30);
}
