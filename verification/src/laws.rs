//! The laws the library obeys, proved from the contracts' spec functions.

use vstd::prelude::*;
use crate::digit::KansujiField;
use crate::keta::KansujiKeta;
use crate::value::Kansuji;
use crate::value::KansujiError;
use crate::value::seg_render;
use crate::value::frac_render;
use crate::parse::digit_of;
use crate::parse::is_terminator;
use crate::parse::keta_step;
use crate::parse::kansuji_step;
use crate::parse::pending_or;
use crate::parse::single_digit;
use crate::parse::spec_parse_kansuji;

verus! {

/// A digit built from a value in range takes that value back.
proof fn lemma_field_value(x: int)
    requires
        0 <= x <= 9,
    ensures
        KansujiField::spec_from_int(x).as_int() == x,
{
    reveal(KansujiField::spec_from_int);
}

/// A group built from a value takes that value back, reduced modulo 10000.
pub proof fn lemma_keta_value(v: int)
    requires
        0 <= v,
    ensures
        KansujiKeta::spec_from_int(v).value() == v % 10000,
{
    reveal(KansujiKeta::spec_from_int);
    let m = v % 10000;
    lemma_field_value(m / 1000);
    lemma_field_value((v % 1000) / 100);
    lemma_field_value((v % 100) / 10);
    lemma_field_value(v % 10);
    assert(m % 1000 == v % 1000) by {
        vstd::arithmetic::div_mod::lemma_mod_mod(v, 1000, 10);
    }
    assert((v % 1000) % 100 == v % 100) by {
        vstd::arithmetic::div_mod::lemma_mod_mod(v, 100, 10);
    }
    assert((v % 100) % 10 == v % 10) by {
        vstd::arithmetic::div_mod::lemma_mod_mod(v, 10, 10);
    }
    assert(m == 1000 * (m / 1000) + m % 1000);
    assert(v % 1000 == 100 * ((v % 1000) / 100) + (v % 1000) % 100);
    assert(v % 100 == 10 * ((v % 100) / 10) + (v % 100) % 10);
}

/// Splitting a value into its six base-10000 groups and recombining them by
/// place value is the identity on the supported range.
proof fn lemma_digits_recompose(v: int)
    requires
        0 <= v < 1000000000000000000000000,
    ensures
        (v / 100000000000000000000) * 100000000000000000000 + ((v % 100000000000000000000)
            / 10000000000000000) * 10000000000000000 + ((v % 10000000000000000) / 1000000000000)
            * 1000000000000 + ((v % 1000000000000) / 100000000) * 100000000 + ((v % 100000000)
            / 10000) * 10000 + v % 10000 == v,
{
    assert((v % 100000000000000000000) % 10000000000000000 == v % 10000000000000000) by {
        vstd::arithmetic::div_mod::lemma_mod_mod(v, 10000000000000000, 10000);
    }
    assert((v % 10000000000000000) % 1000000000000 == v % 1000000000000) by {
        vstd::arithmetic::div_mod::lemma_mod_mod(v, 1000000000000, 10000);
    }
    assert((v % 1000000000000) % 100000000 == v % 100000000) by {
        vstd::arithmetic::div_mod::lemma_mod_mod(v, 100000000, 10000);
    }
    assert((v % 100000000) % 10000 == v % 10000) by {
        vstd::arithmetic::div_mod::lemma_mod_mod(v, 10000, 10000);
    }
    assert(v == (v / 100000000000000000000) * 100000000000000000000 + v % 100000000000000000000);
    assert(v % 100000000000000000000 == ((v % 100000000000000000000) / 10000000000000000)
        * 10000000000000000 + (v % 100000000000000000000) % 10000000000000000);
    assert(v % 10000000000000000 == ((v % 10000000000000000) / 1000000000000) * 1000000000000 + (v
        % 10000000000000000) % 1000000000000);
    assert(v % 1000000000000 == ((v % 1000000000000) / 100000000) * 100000000 + (v % 1000000000000)
        % 100000000);
    assert(v % 100000000 == ((v % 100000000) / 10000) * 10000 + (v % 100000000) % 10000);
}

/// The top group of a freshly decomposed value in range.
proof fn lemma_gai_group(n: u128)
    requires
        n < 1000000000000000000000000u128,
    ensures
        Kansuji::spec_from_u128(n).gai.value() == n as int / 100000000000000000000,
{
    lemma_keta_value(n as int / 100000000000000000000);
}

/// The 京 group of a freshly decomposed value.
proof fn lemma_kei_group(n: u128)
    ensures
        Kansuji::spec_from_u128(n).kei.value() == (n as int % 100000000000000000000)
            / 10000000000000000,
{
    lemma_keta_value((n as int % 100000000000000000000) / 10000000000000000);
}

/// The 兆 group of a freshly decomposed value.
proof fn lemma_cho_group(n: u128)
    ensures
        Kansuji::spec_from_u128(n).cho.value() == (n as int % 10000000000000000) / 1000000000000,
{
    lemma_keta_value((n as int % 10000000000000000) / 1000000000000);
}

/// The 億 group of a freshly decomposed value.
proof fn lemma_oku_group(n: u128)
    ensures
        Kansuji::spec_from_u128(n).oku.value() == (n as int % 1000000000000) / 100000000,
{
    lemma_keta_value((n as int % 1000000000000) / 100000000);
}

/// The 万 group of a freshly decomposed value.
proof fn lemma_man_group(n: u128)
    ensures
        Kansuji::spec_from_u128(n).man.value() == (n as int % 100000000) / 10000,
{
    lemma_keta_value((n as int % 100000000) / 10000);
}

/// The base group of a freshly decomposed value.
proof fn lemma_base_group(n: u128)
    ensures
        Kansuji::spec_from_u128(n).base.value() == n as int % 10000,
{
    lemma_keta_value(n as int % 10000);
}

#[verifier::rlimit(100)]
pub proof fn lemma_u128_round_trip(n: u128)
    requires
        n < 1000000000000000000000000u128,
    ensures
        Kansuji::spec_from_u128(n).int_value() == n as int,
{
    lemma_gai_group(n);
    lemma_kei_group(n);
    lemma_cho_group(n);
    lemma_oku_group(n);
    lemma_man_group(n);
    lemma_base_group(n);
    lemma_digits_recompose(n as int);
}

/// Every digit glyph parses back to the digit it renders.
proof fn lemma_digit_of_glyph(f: KansujiField)
    ensures
        digit_of(f.glyph()) == Some(f),
{
}

/// A group whose value is zero is the all-zero group.
proof fn lemma_keta_zero(g: KansujiKeta)
    requires
        g.value() == 0,
    ensures
        g == KansujiKeta::zero(),
{
}

/// Parsing a rendered thousands section commits its digit and lowers the
/// place ceiling to the thousands.
proof fn lemma_parse_sen(f: KansujiField, rest: Seq<char>, ceil: int, acc: KansujiKeta)
    requires
        f != KansujiField::Zero,
        ceil > 3,
    ensures
        keta_step(f.spec_prefix_glyph() + seq!['千'] + rest, ceil, None, acc) == keta_step(
            rest,
            3,
            None,
            KansujiKeta { sen: f, ..acc },
        ),
{
    let s = f.spec_prefix_glyph() + seq!['千'] + rest;
    reveal_with_fuel(keta_step, 3);
    if f == KansujiField::One {
        assert(s =~= seq!['千'] + rest);
        assert(s[0] == '千');
        assert(s.skip(1) =~= rest);
    } else {
        lemma_digit_of_glyph(f);
        assert(s[0] == f.glyph());
        assert(s.skip(1) =~= seq!['千'] + rest);
        assert((seq!['千'] + rest)[0] == '千');
        assert((seq!['千'] + rest).skip(1) =~= rest);
    }
}

/// Parsing a rendered hundreds section commits its digit and lowers the
/// place ceiling to the hundreds.
proof fn lemma_parse_hyaku(f: KansujiField, rest: Seq<char>, ceil: int, acc: KansujiKeta)
    requires
        f != KansujiField::Zero,
        ceil > 2,
    ensures
        keta_step(f.spec_prefix_glyph() + seq!['百'] + rest, ceil, None, acc) == keta_step(
            rest,
            2,
            None,
            KansujiKeta { hyaku: f, ..acc },
        ),
{
    let s = f.spec_prefix_glyph() + seq!['百'] + rest;
    reveal_with_fuel(keta_step, 3);
    if f == KansujiField::One {
        assert(s =~= seq!['百'] + rest);
        assert(s[0] == '百');
        assert(s.skip(1) =~= rest);
    } else {
        lemma_digit_of_glyph(f);
        assert(s[0] == f.glyph());
        assert(s.skip(1) =~= seq!['百'] + rest);
        assert((seq!['百'] + rest)[0] == '百');
        assert((seq!['百'] + rest).skip(1) =~= rest);
    }
}

/// Parsing a rendered tens section commits its digit and lowers the place
/// ceiling to the tens.
proof fn lemma_parse_juu(f: KansujiField, rest: Seq<char>, ceil: int, acc: KansujiKeta)
    requires
        f != KansujiField::Zero,
        ceil > 1,
    ensures
        keta_step(f.spec_prefix_glyph() + seq!['十'] + rest, ceil, None, acc) == keta_step(
            rest,
            1,
            None,
            KansujiKeta { juu: f, ..acc },
        ),
{
    let s = f.spec_prefix_glyph() + seq!['十'] + rest;
    reveal_with_fuel(keta_step, 3);
    if f == KansujiField::One {
        assert(s =~= seq!['十'] + rest);
        assert(s[0] == '十');
        assert(s.skip(1) =~= rest);
    } else {
        lemma_digit_of_glyph(f);
        assert(s[0] == f.glyph());
        assert(s.skip(1) =~= seq!['十'] + rest);
        assert((seq!['十'] + rest)[0] == '十');
        assert((seq!['十'] + rest).skip(1) =~= rest);
    }
}

/// Parsing a rendered bare units digit, up against the end of the group,
/// commits it to the units place and ends the group.
proof fn lemma_parse_units(f: KansujiField, rest: Seq<char>, ceil: int, acc: KansujiKeta)
    requires
        ceil >= 1,
        rest.len() == 0 || is_terminator(rest[0]),
    ensures
        keta_step(f.spec_unit_glyph() + rest, ceil, None, acc) == Ok::<
            (KansujiKeta, Seq<char>),
            KansujiError,
        >((KansujiKeta { ichi: f, ..acc }, rest)),
{
    let s = f.spec_unit_glyph() + rest;
    reveal_with_fuel(keta_step, 3);
    if f == KansujiField::Zero {
        assert(s =~= rest);
    } else {
        lemma_digit_of_glyph(f);
        assert(s[0] == f.glyph());
        assert(s.skip(1) =~= rest);
    }
}

/// Parsing a rendered four-digit group, up against the end of the input or a
/// magnitude or fractional marker, yields exactly that group and leaves the
/// marker unconsumed.
#[verifier::rlimit(100)]
pub proof fn lemma_keta_render_parse(g: KansujiKeta, rest: Seq<char>)
    requires
        rest.len() == 0 || is_terminator(rest[0]),
    ensures
        keta_step(g.spec_render() + rest, 4, None, KansujiKeta::zero()) == Ok::<
            (KansujiKeta, Seq<char>),
            KansujiError,
        >((g, rest)),
{
    reveal(KansujiKeta::spec_render);
    let p_sen = if g.sen != KansujiField::Zero {
        g.sen.spec_prefix_glyph() + seq!['千']
    } else {
        Seq::<char>::empty()
    };
    let p_hyaku = if g.hyaku != KansujiField::Zero {
        g.hyaku.spec_prefix_glyph() + seq!['百']
    } else {
        Seq::<char>::empty()
    };
    let p_juu = if g.juu != KansujiField::Zero {
        g.juu.spec_prefix_glyph() + seq!['十']
    } else {
        Seq::<char>::empty()
    };
    let p_ichi = g.ichi.spec_unit_glyph();
    let mid1 = p_hyaku + p_juu + p_ichi + rest;
    let mid2 = p_juu + p_ichi + rest;
    let mid3 = p_ichi + rest;
    let ceil1: int = if g.sen == KansujiField::Zero {
        4
    } else {
        3
    };
    let acc1 = KansujiKeta { sen: g.sen, ..KansujiKeta::zero() };
    let ceil2: int = if g.hyaku == KansujiField::Zero {
        ceil1
    } else {
        2
    };
    let acc2 = KansujiKeta { hyaku: g.hyaku, ..acc1 };
    let ceil3: int = if g.juu == KansujiField::Zero {
        ceil2
    } else {
        1
    };
    let acc3 = KansujiKeta { juu: g.juu, ..acc2 };
    if g.sen != KansujiField::Zero {
        lemma_parse_sen(g.sen, mid1, 4, KansujiKeta::zero());
        assert(g.spec_render() + rest =~= g.sen.spec_prefix_glyph() + seq!['千'] + mid1);
    } else {
        assert(g.spec_render() + rest =~= mid1);
    }
    assert(keta_step(g.spec_render() + rest, 4, None, KansujiKeta::zero()) == keta_step(
        mid1,
        ceil1,
        None,
        acc1,
    ));
    if g.hyaku != KansujiField::Zero {
        lemma_parse_hyaku(g.hyaku, mid2, ceil1, acc1);
        assert(mid1 =~= g.hyaku.spec_prefix_glyph() + seq!['百'] + mid2);
    } else {
        assert(mid1 =~= mid2);
    }
    assert(keta_step(mid1, ceil1, None, acc1) == keta_step(mid2, ceil2, None, acc2));
    if g.juu != KansujiField::Zero {
        lemma_parse_juu(g.juu, mid3, ceil2, acc2);
        assert(mid2 =~= g.juu.spec_prefix_glyph() + seq!['十'] + mid3);
    } else {
        assert(mid2 =~= mid3);
    }
    assert(keta_step(mid2, ceil2, None, acc2) == keta_step(mid3, ceil3, None, acc3));
    lemma_parse_units(g.ichi, rest, ceil3, acc3);
    assert(KansujiKeta { ichi: g.ichi, ..acc3 } == g);
}

/// Parsing a rendered magnitude segment, at a level above the segment's
/// marker, assigns the group to the marker's slot and lowers the level to
/// the marker's.
proof fn lemma_parse_segment(
    g: KansujiKeta,
    mc: char,
    lvl: int,
    rest: Seq<char>,
    level: int,
    acc: Kansuji,
    acc2: Kansuji,
)
    requires
        level > lvl,
        g.value() != 0,
        g.value() != 1,
        (mc == '垓' && lvl == 5 && acc2 == (Kansuji { gai: g, ..acc })) || (mc == '京' && lvl == 4
            && acc2 == (Kansuji { kei: g, ..acc })) || (mc == '兆' && lvl == 3 && acc2 == (Kansuji {
            cho: g,
            ..acc
        })) || (mc == '億' && lvl == 2 && acc2 == (Kansuji { oku: g, ..acc })) || (mc == '万' && lvl
            == 1 && acc2 == (Kansuji { man: g, ..acc })),
    ensures
        kansuji_step(seg_render(g, mc) + rest, level, acc) == kansuji_step(rest, lvl, acc2),
{
    reveal(seg_render);
    lemma_keta_render_parse(g, seq![mc] + rest);
    assert(seg_render(g, mc) + rest =~= g.spec_render() + (seq![mc] + rest));
    assert((seq![mc] + rest)[0] == mc);
    assert((seq![mc] + rest).skip(1) =~= rest);
}

/// Parsing the canonical rendering of an integer-valued numeral yields that
/// numeral back, provided no magnitude group is exactly one (such a group
/// renders as its bare marker, which the grammar reads as an empty group).
#[verifier::rlimit(100)]
pub proof fn lemma_render_parse(k: Kansuji)
    requires
        k.tenths == KansujiField::Zero,
        k.hundredths == KansujiField::Zero,
        k.thousandths == KansujiField::Zero,
        k.gai.value() != 1,
        k.kei.value() != 1,
        k.cho.value() != 1,
        k.oku.value() != 1,
        k.man.value() != 1,
    ensures
        spec_parse_kansuji(k.spec_render()) == Ok::<Kansuji, KansujiError>(k),
{
    if k == Kansuji::zero() {
        reveal(Kansuji::spec_render);
        reveal_with_fuel(keta_step, 3);
        assert(k.spec_render() == seq!['零']);
        assert(seq!['零'].skip(1) =~= Seq::<char>::empty());
        assert(keta_step(seq!['零'], 4, None, KansujiKeta::zero()) == Ok::<
            (KansujiKeta, Seq<char>),
            KansujiError,
        >((KansujiKeta::zero(), Seq::<char>::empty())));
        assert(kansuji_step(seq!['零'], 6, Kansuji::zero()) == Ok::<Kansuji, KansujiError>(k));
    } else {
        let a5 = seg_render(k.gai, '垓');
        let a4 = seg_render(k.kei, '京');
        let a3 = seg_render(k.cho, '兆');
        let a2 = seg_render(k.oku, '億');
        let a1 = seg_render(k.man, '万');
        let b = k.base.spec_render();
        let m4 = a4 + a3 + a2 + a1 + b;
        let m3 = a3 + a2 + a1 + b;
        let m2 = a2 + a1 + b;
        let m1 = a1 + b;
        assert(k.spec_render() =~= a5 + m4) by {
            reveal(Kansuji::spec_render);
            reveal(frac_render);
        }
        let acc0 = Kansuji::zero();
        let acc1 = Kansuji { gai: k.gai, ..acc0 };
        let acc2 = Kansuji { kei: k.kei, ..acc1 };
        let acc3 = Kansuji { cho: k.cho, ..acc2 };
        let acc4 = Kansuji { oku: k.oku, ..acc3 };
        let acc5 = Kansuji { man: k.man, ..acc4 };
        let l5: int = if k.gai.value() == 0 {
            6
        } else {
            5
        };
        let l4: int = if k.kei.value() == 0 {
            l5
        } else {
            4
        };
        let l3: int = if k.cho.value() == 0 {
            l4
        } else {
            3
        };
        let l2: int = if k.oku.value() == 0 {
            l3
        } else {
            2
        };
        let l1: int = if k.man.value() == 0 {
            l2
        } else {
            1
        };
        if k.gai.value() == 0 {
            lemma_keta_zero(k.gai);
            assert(a5 =~= Seq::<char>::empty()) by {
                reveal(seg_render);
            }
            assert(a5 + m4 =~= m4);
        } else {
            lemma_parse_segment(k.gai, '垓', 5, m4, 6, acc0, acc1);
        }
        assert(kansuji_step(k.spec_render(), 6, acc0) == kansuji_step(m4, l5, acc1));
        if k.kei.value() == 0 {
            lemma_keta_zero(k.kei);
            assert(a4 =~= Seq::<char>::empty()) by {
                reveal(seg_render);
            }
            assert(m4 =~= m3);
        } else {
            lemma_parse_segment(k.kei, '京', 4, m3, l5, acc1, acc2);
            assert(m4 =~= a4 + m3);
        }
        assert(kansuji_step(m4, l5, acc1) == kansuji_step(m3, l4, acc2));
        if k.cho.value() == 0 {
            lemma_keta_zero(k.cho);
            assert(a3 =~= Seq::<char>::empty()) by {
                reveal(seg_render);
            }
            assert(m3 =~= m2);
        } else {
            lemma_parse_segment(k.cho, '兆', 3, m2, l4, acc2, acc3);
            assert(m3 =~= a3 + m2);
        }
        assert(kansuji_step(m3, l4, acc2) == kansuji_step(m2, l3, acc3));
        if k.oku.value() == 0 {
            lemma_keta_zero(k.oku);
            assert(a2 =~= Seq::<char>::empty()) by {
                reveal(seg_render);
            }
            assert(m2 =~= m1);
        } else {
            lemma_parse_segment(k.oku, '億', 2, m1, l3, acc3, acc4);
            assert(m2 =~= a2 + m1);
        }
        assert(kansuji_step(m2, l3, acc3) == kansuji_step(m1, l2, acc4));
        if k.man.value() == 0 {
            lemma_keta_zero(k.man);
            assert(a1 =~= Seq::<char>::empty()) by {
                reveal(seg_render);
            }
            assert(m1 =~= b);
        } else {
            lemma_parse_segment(k.man, '万', 1, b, l2, acc4, acc5);
            assert(m1 =~= a1 + b);
        }
        assert(kansuji_step(m1, l2, acc4) == kansuji_step(b, l1, acc5));
        if k.base.value() == 0 {
            lemma_keta_zero(k.base);
            assert(b =~= Seq::<char>::empty()) by {
                reveal(KansujiKeta::spec_render);
            }
            reveal_with_fuel(keta_step, 2);
            assert(keta_step(b, 4, None, KansujiKeta::zero()) == Ok::<
                (KansujiKeta, Seq<char>),
                KansujiError,
            >((KansujiKeta::zero(), b)));
            assert(kansuji_step(b, l1, acc5) == Ok::<Kansuji, KansujiError>(
                Kansuji { base: KansujiKeta::zero(), ..acc5 },
            ));
            assert(Kansuji { base: KansujiKeta::zero(), ..acc5 } == k);
        } else {
            lemma_keta_render_parse(k.base, Seq::<char>::empty());
            assert(b + Seq::<char>::empty() =~= b);
            assert(kansuji_step(b, l1, acc5) == Ok::<Kansuji, KansujiError>(
                Kansuji { base: k.base, ..acc5 },
            ));
            assert(Kansuji { base: k.base, ..acc5 } == k);
        }
    }
}

/// The full round trip: rendering a numeral built from an integer in the
/// supported range and parsing the text back yields the same numeral.
///
/// A magnitude group of exactly one renders as its bare marker, which the
/// grammar reads back as an empty group, so such values are excluded: each
/// group above the base must differ from one.
pub proof fn lemma_parse_render_round_trip(n: u128)
    requires
        n < 1000000000000000000000000u128,
        (n as int % 100000000) / 10000 != 1,
        (n as int % 1000000000000) / 100000000 != 1,
        (n as int % 10000000000000000) / 1000000000000 != 1,
        (n as int % 100000000000000000000) / 10000000000000000 != 1,
        n as int / 100000000000000000000 != 1,
    ensures
        spec_parse_kansuji(Kansuji::spec_from_u128(n).spec_render()) == Ok::<
            Kansuji,
            KansujiError,
        >(Kansuji::spec_from_u128(n)),
{
    lemma_gai_group(n);
    lemma_kei_group(n);
    lemma_cho_group(n);
    lemma_oku_group(n);
    lemma_man_group(n);
    lemma_render_parse(Kansuji::spec_from_u128(n));
}

/// Every error the group parser raises names the unexpected character.
pub proof fn lemma_keta_err_shape(
    rem: Seq<char>,
    ceil: int,
    pending: Option<KansujiField>,
    acc: KansujiKeta,
)
    ensures
        keta_step(rem, ceil, pending, acc) is Err ==> (keta_step(rem, ceil, pending, acc) matches Err(
            KansujiError::UnexpectedChar(_),
        )),
    decreases rem.len(),
{
    if rem.len() > 0 {
        let c = rem[0];
        if digit_of(c) is Some {
            lemma_keta_err_shape(rem.skip(1), ceil, digit_of(c), acc);
        } else if c == '千' && ceil > 3 {
            lemma_keta_err_shape(
                rem.skip(1),
                3,
                None,
                KansujiKeta { sen: pending_or(pending, KansujiField::One), ..acc },
            );
        } else if c == '百' && ceil > 2 {
            lemma_keta_err_shape(
                rem.skip(1),
                2,
                None,
                KansujiKeta { hyaku: pending_or(pending, KansujiField::One), ..acc },
            );
        } else if c == '十' && ceil > 1 {
            lemma_keta_err_shape(
                rem.skip(1),
                1,
                None,
                KansujiKeta { juu: pending_or(pending, KansujiField::One), ..acc },
            );
        }
    }
}

/// A fractional marker right after a group whose thousands, hundreds or tens
/// digit is non-zero is always rejected, whatever the level reached and
/// whatever was assembled before.
pub proof fn lemma_fraction_rejects_wide_group(
    s: Seq<char>,
    level: int,
    acc: Kansuji,
    g: KansujiKeta,
    rem2: Seq<char>,
)
    requires
        keta_step(s, 4, None, KansujiKeta::zero()) == Ok::<(KansujiKeta, Seq<char>), KansujiError>(
            (g, rem2),
        ),
        rem2.len() > 0,
        rem2[0] == '分' || rem2[0] == '厘' || rem2[0] == '毛',
        !single_digit(g),
    ensures
        kansuji_step(s, level, acc) == Err::<Kansuji, KansujiError>(
            KansujiError::UnexpectedChar(rem2[0]),
        ),
{
}

/// Whether the character is a place marker inside a four-digit group.
pub open spec fn is_place(c: char) -> bool {
    c == '千' || c == '百' || c == '十'
}

/// The place a place marker stands for.
pub open spec fn place_level(c: char) -> int {
    if c == '千' {
        3
    } else if c == '百' {
        2
    } else if c == '十' {
        1
    } else {
        0
    }
}

/// A place marker at or above the current ceiling, with only digit glyphs
/// before it, is always rejected by the group parser.
proof fn lemma_place_marker_blocked(
    s: Seq<char>,
    ceil: int,
    pending: Option<KansujiField>,
    acc: KansujiKeta,
    j: int,
)
    requires
        0 <= j < s.len(),
        is_place(s[j]),
        place_level(s[j]) >= ceil,
        forall|t: int| 0 <= t < j ==> digit_of(s[t]) is Some,
    ensures
        keta_step(s, ceil, pending, acc) is Err,
    decreases j,
{
    let c = s[0];
    if j == 0 {
        assert(digit_of(c) is None);
    } else {
        assert(digit_of(c) is Some);
        let s1 = s.skip(1);
        assert(s1[j - 1] == s[j]);
        assert forall|t: int| 0 <= t < j - 1 implies digit_of(s1[t]) is Some by {
            assert(s1[t] == s[t + 1]);
        }
        lemma_place_marker_blocked(s1, ceil, digit_of(c), acc, j - 1);
    }
}

/// Two place markers out of strictly descending order, separated only by
/// digit glyphs and preceded only by digit glyphs, make the group parser
/// fail whatever its state.
pub proof fn lemma_place_marker_order(
    s: Seq<char>,
    ceil: int,
    pending: Option<KansujiField>,
    acc: KansujiKeta,
    i: int,
    j: int,
)
    requires
        0 <= i < j < s.len(),
        ceil <= 4,
        is_place(s[i]),
        is_place(s[j]),
        place_level(s[j]) >= place_level(s[i]),
        forall|t: int| 0 <= t < j && t != i ==> digit_of(s[t]) is Some,
    ensures
        keta_step(s, ceil, pending, acc) is Err,
    decreases j,
{
    let c = s[0];
    if i == 0 {
        assert(digit_of(c) is None);
        if place_level(c) < ceil {
            let s1 = s.skip(1);
            assert(s1[j - 1] == s[j]);
            assert forall|t: int| 0 <= t < j - 1 implies digit_of(s1[t]) is Some by {
                assert(s1[t] == s[t + 1]);
            }
            if c == '千' {
                lemma_place_marker_blocked(
                    s1,
                    3,
                    None,
                    KansujiKeta { sen: pending_or(pending, KansujiField::One), ..acc },
                    j - 1,
                );
            } else if c == '百' {
                lemma_place_marker_blocked(
                    s1,
                    2,
                    None,
                    KansujiKeta { hyaku: pending_or(pending, KansujiField::One), ..acc },
                    j - 1,
                );
            } else {
                lemma_place_marker_blocked(
                    s1,
                    1,
                    None,
                    KansujiKeta { juu: pending_or(pending, KansujiField::One), ..acc },
                    j - 1,
                );
            }
        }
    } else {
        assert(digit_of(c) is Some);
        let s1 = s.skip(1);
        assert(s1[i - 1] == s[i]);
        assert(s1[j - 1] == s[j]);
        assert forall|t: int| 0 <= t < j - 1 && t != i - 1 implies digit_of(s1[t]) is Some by {
            assert(s1[t] == s[t + 1]);
        }
        lemma_place_marker_order(s1, ceil, digit_of(c), acc, i - 1, j - 1);
    }
}

/// An input that opens with two place markers out of strictly descending
/// order, separated only by digit glyphs, never parses: the whole parse
/// fails with the unexpected character.
pub proof fn lemma_parse_place_marker_order(s: Seq<char>, i: int, j: int)
    requires
        0 <= i < j < s.len(),
        is_place(s[i]),
        is_place(s[j]),
        place_level(s[j]) >= place_level(s[i]),
        forall|t: int| 0 <= t < j && t != i ==> digit_of(s[t]) is Some,
    ensures
        spec_parse_kansuji(s) matches Err(KansujiError::UnexpectedChar(_)),
{
    lemma_place_marker_order(s, 4, None, KansujiKeta::zero(), i, j);
    lemma_keta_err_shape(s, 4, None, KansujiKeta::zero());
}

/// Parsing a rendered fractional section, at a level above its marker,
/// assigns the digit to the marker's slot and lowers the level to the
/// marker's.
proof fn lemma_parse_frac(
    f: KansujiField,
    mc: char,
    lvl: int,
    rest: Seq<char>,
    level: int,
    acc: Kansuji,
    acc2: Kansuji,
)
    requires
        f != KansujiField::Zero,
        level > lvl,
        (mc == '分' && lvl == -1 && acc2 == (Kansuji { tenths: f, ..acc })) || (mc == '厘' && lvl
            == -2 && acc2 == (Kansuji { hundredths: f, ..acc })),
    ensures
        kansuji_step(frac_render(f, mc) + rest, level, acc) == kansuji_step(rest, lvl, acc2),
{
    reveal(frac_render);
    lemma_digit_of_glyph(f);
    reveal_with_fuel(keta_step, 3);
    let s = frac_render(f, mc) + rest;
    assert(s[0] == f.glyph());
    assert(s.skip(1) =~= seq![mc] + rest);
    assert((seq![mc] + rest)[0] == mc);
    assert((seq![mc] + rest).skip(1) =~= rest);
    assert(keta_step(s, 4, None, KansujiKeta::zero()) == Ok::<
        (KansujiKeta, Seq<char>),
        KansujiError,
    >((KansujiKeta { ichi: f, ..KansujiKeta::zero() }, seq![mc] + rest)));
}

/// The fractional round trip: rendering a numeral whose six groups are all
/// zero and parsing the text back yields that numeral, fractional digits
/// included.
#[verifier::rlimit(100)]
pub proof fn lemma_render_parse_fractional(k: Kansuji)
    requires
        k.gai.value() == 0,
        k.kei.value() == 0,
        k.cho.value() == 0,
        k.oku.value() == 0,
        k.man.value() == 0,
        k.base.value() == 0,
    ensures
        spec_parse_kansuji(k.spec_render()) == Ok::<Kansuji, KansujiError>(k),
{
    lemma_keta_zero(k.gai);
    lemma_keta_zero(k.kei);
    lemma_keta_zero(k.cho);
    lemma_keta_zero(k.oku);
    lemma_keta_zero(k.man);
    lemma_keta_zero(k.base);
    if k == Kansuji::zero() {
        lemma_render_parse(k);
    } else {
        let f1 = frac_render(k.tenths, '分');
        let f2 = frac_render(k.hundredths, '厘');
        let f3 = frac_render(k.thousandths, '毛');
        let m2 = f2 + f3;
        assert(k.spec_render() =~= f1 + m2) by {
            reveal(Kansuji::spec_render);
            reveal(KansujiKeta::spec_render);
            reveal(seg_render);
        }
        let acc0 = Kansuji::zero();
        let acc1 = Kansuji { tenths: k.tenths, ..acc0 };
        let acc2 = Kansuji { hundredths: k.hundredths, ..acc1 };
        let l1: int = if k.tenths == KansujiField::Zero {
            6
        } else {
            -1
        };
        let l2: int = if k.hundredths == KansujiField::Zero {
            l1
        } else {
            -2
        };
        if k.tenths == KansujiField::Zero {
            assert(f1 =~= Seq::<char>::empty()) by {
                reveal(frac_render);
            }
            assert(f1 + m2 =~= m2);
        } else {
            lemma_parse_frac(k.tenths, '分', -1, m2, 6, acc0, acc1);
        }
        assert(kansuji_step(k.spec_render(), 6, acc0) == kansuji_step(m2, l1, acc1));
        if k.hundredths == KansujiField::Zero {
            assert(f2 =~= Seq::<char>::empty()) by {
                reveal(frac_render);
            }
            assert(m2 =~= f3);
        } else {
            lemma_parse_frac(k.hundredths, '厘', -2, f3, l1, acc1, acc2);
        }
        assert(kansuji_step(m2, l1, acc1) == kansuji_step(f3, l2, acc2));
        if k.thousandths == KansujiField::Zero {
            assert(f3 =~= Seq::<char>::empty()) by {
                reveal(frac_render);
            }
            reveal_with_fuel(keta_step, 2);
            assert(keta_step(f3, 4, None, KansujiKeta::zero()) == Ok::<
                (KansujiKeta, Seq<char>),
                KansujiError,
            >((KansujiKeta::zero(), f3)));
            assert(kansuji_step(f3, l2, acc2) == Ok::<Kansuji, KansujiError>(
                Kansuji { base: KansujiKeta::zero(), ..acc2 },
            ));
            assert(Kansuji { base: KansujiKeta::zero(), ..acc2 } == k);
        } else {
            reveal(frac_render);
            lemma_digit_of_glyph(k.thousandths);
            reveal_with_fuel(keta_step, 3);
            assert(f3[0] == k.thousandths.glyph());
            assert(f3.skip(1) =~= seq!['毛']);
            assert(keta_step(f3, 4, None, KansujiKeta::zero()) == Ok::<
                (KansujiKeta, Seq<char>),
                KansujiError,
            >((KansujiKeta { ichi: k.thousandths, ..KansujiKeta::zero() }, seq!['毛'])));
            assert(kansuji_step(f3, l2, acc2) == Ok::<Kansuji, KansujiError>(
                Kansuji { thousandths: k.thousandths, ..acc2 },
            ));
            assert(Kansuji { thousandths: k.thousandths, ..acc2 } == k);
        }
    }
}

/// The level a magnitude or fractional marker stands for.
pub open spec fn marker_level(c: char) -> int {
    if c == '垓' {
        5
    } else if c == '京' {
        4
    } else if c == '兆' {
        3
    } else if c == '億' {
        2
    } else if c == '万' {
        1
    } else if c == '分' {
        -1
    } else if c == '厘' {
        -2
    } else {
        -3
    }
}

/// What the group parser leaves behind on success: a suffix of its input
/// whose first character, if any, is a marker, with no marker among the
/// consumed characters.
proof fn lemma_keta_residue(rem: Seq<char>, ceil: int, pending: Option<KansujiField>, acc: KansujiKeta)
    ensures
        (match keta_step(rem, ceil, pending, acc) {
            Ok((g, rem2)) => rem2.len() <= rem.len() && rem2 == rem.skip(rem.len() - rem2.len())
                && (rem2.len() == 0 || is_terminator(rem2[0])) && (forall|t: int|
                0 <= t < rem.len() - rem2.len() ==> !is_terminator(rem[t])),
            Err(_) => true,
        }),
    decreases rem.len(),
{
    if rem.len() == 0 {
        assert(rem.skip(0) =~= rem);
    } else {
        let c = rem[0];
        let s1 = rem.skip(1);
        if digit_of(c) is Some {
            lemma_keta_residue(s1, ceil, digit_of(c), acc);
            lemma_keta_residue_step(rem, keta_step(rem, ceil, pending, acc));
        } else if c == '千' && ceil > 3 {
            lemma_keta_residue(s1, 3, None, KansujiKeta { sen: pending_or(pending, KansujiField::One), ..acc });
            lemma_keta_residue_step(rem, keta_step(rem, ceil, pending, acc));
        } else if c == '百' && ceil > 2 {
            lemma_keta_residue(s1, 2, None, KansujiKeta { hyaku: pending_or(pending, KansujiField::One), ..acc });
            lemma_keta_residue_step(rem, keta_step(rem, ceil, pending, acc));
        } else if c == '十' && ceil > 1 {
            lemma_keta_residue(s1, 1, None, KansujiKeta { juu: pending_or(pending, KansujiField::One), ..acc });
            lemma_keta_residue_step(rem, keta_step(rem, ceil, pending, acc));
        } else if is_terminator(c) {
            assert(rem.skip(0) =~= rem);
        }
    }
}

/// Lifts the residue shape across one consumed character.
proof fn lemma_keta_residue_step(rem: Seq<char>, r: Result<(KansujiKeta, Seq<char>), KansujiError>)
    requires
        rem.len() > 0,
        !is_terminator(rem[0]),
        (match r {
            Ok((g, rem2)) => rem2.len() <= rem.skip(1).len() && rem2 == rem.skip(1).skip(
                rem.skip(1).len() - rem2.len(),
            ) && (rem2.len() == 0 || is_terminator(rem2[0])) && (forall|t: int|
                0 <= t < rem.skip(1).len() - rem2.len() ==> !is_terminator(rem.skip(1)[t])),
            Err(_) => true,
        }),
    ensures
        (match r {
            Ok((g, rem2)) => rem2.len() <= rem.len() && rem2 == rem.skip(rem.len() - rem2.len())
                && (rem2.len() == 0 || is_terminator(rem2[0])) && (forall|t: int|
                0 <= t < rem.len() - rem2.len() ==> !is_terminator(rem[t])),
            Err(_) => true,
        }),
{
    match r {
        Ok((g, rem2)) => {
            let d1 = rem.skip(1).len() - rem2.len();
            assert(rem.skip(1).skip(d1) =~= rem.skip(1 + d1));
            assert forall|t: int| 0 <= t < rem.len() - rem2.len() implies !is_terminator(
                rem[t],
            ) by {
                if t > 0 {
                    assert(rem.skip(1)[t - 1] == rem[t]);
                }
            }
        },
        Err(_) => {},
    }
}

/// A magnitude or fractional marker at or above the current level, with no
/// thousandths marker before it, is always rejected by the magnitude parser.
proof fn lemma_magnitude_marker_blocked(s: Seq<char>, level: int, acc: Kansuji, j: int)
    requires
        0 <= j < s.len(),
        is_terminator(s[j]),
        s[j] != '毛',
        marker_level(s[j]) >= level,
        forall|t: int| 0 <= t < j ==> s[t] != '毛',
    ensures
        kansuji_step(s, level, acc) is Err,
    decreases j,
{
    lemma_keta_residue(s, 4, None, KansujiKeta::zero());
    match keta_step(s, 4, None, KansujiKeta::zero()) {
        Err(_) => {},
        Ok((g, rem2)) => {
            let d = s.len() - rem2.len();
            assert(!is_terminator(s[j]) || !(d > j));
            assert(d <= j);
            assert(rem2.len() > 0);
            let c = rem2[0];
            assert(c == s[d]);
            if d < j {
                assert(c != '毛');
                if marker_level(c) < level && (c == '垓' || c == '京' || c == '兆' || c == '億'
                    || c == '万' || ((c == '分' || c == '厘') && single_digit(g))) {
                    let s1 = rem2.skip(1);
                    assert(s1 =~= s.skip(d + 1));
                    let j1 = j - d - 1;
                    assert(s1[j1] == s[j]);
                    assert forall|t: int| 0 <= t < j1 implies s1[t] != '毛' by {
                        assert(s1[t] == s[t + d + 1]);
                    }
                    assert(marker_level(s[j]) >= level > marker_level(c));
                    if c == '垓' {
                        lemma_magnitude_marker_blocked(s1, 5, Kansuji { gai: g, ..acc }, j1);
                    } else if c == '京' {
                        lemma_magnitude_marker_blocked(s1, 4, Kansuji { kei: g, ..acc }, j1);
                    } else if c == '兆' {
                        lemma_magnitude_marker_blocked(s1, 3, Kansuji { cho: g, ..acc }, j1);
                    } else if c == '億' {
                        lemma_magnitude_marker_blocked(s1, 2, Kansuji { oku: g, ..acc }, j1);
                    } else if c == '万' {
                        lemma_magnitude_marker_blocked(s1, 1, Kansuji { man: g, ..acc }, j1);
                    } else if c == '分' {
                        lemma_magnitude_marker_blocked(s1, -1, Kansuji { tenths: g.ichi, ..acc }, j1);
                    } else {
                        lemma_magnitude_marker_blocked(s1, -2, Kansuji { hundredths: g.ichi, ..acc }, j1);
                    }
                }
            }
        },
    }
}

/// Two magnitude or fractional markers out of strictly descending order,
/// with no thousandths marker before the second, make the whole parse fail
/// whatever the level reached and whatever was assembled before.
#[verifier::rlimit(100)]
pub proof fn lemma_magnitude_marker_order(s: Seq<char>, level: int, acc: Kansuji, i: int, j: int)
    requires
        0 <= i < j < s.len(),
        is_terminator(s[i]),
        is_terminator(s[j]),
        s[j] != '毛',
        marker_level(s[j]) >= marker_level(s[i]),
        forall|t: int| 0 <= t < j ==> s[t] != '毛',
    ensures
        kansuji_step(s, level, acc) is Err,
    decreases j,
{
    lemma_keta_residue(s, 4, None, KansujiKeta::zero());
    match keta_step(s, 4, None, KansujiKeta::zero()) {
        Err(_) => {},
        Ok((g, rem2)) => {
            let d = s.len() - rem2.len();
            assert(!is_terminator(s[i]) || !(d > i));
            assert(d <= i);
            assert(rem2.len() > 0);
            let c = rem2[0];
            assert(c == s[d]);
            assert(c != '毛');
            if marker_level(c) < level && (c == '垓' || c == '京' || c == '兆' || c == '億' || c
                == '万' || ((c == '分' || c == '厘') && single_digit(g))) {
                let s1 = rem2.skip(1);
                assert(s1 =~= s.skip(d + 1));
                let j1 = j - d - 1;
                assert(s1[j1] == s[j]);
                assert forall|t: int| 0 <= t < j1 implies s1[t] != '毛' by {
                    assert(s1[t] == s[t + d + 1]);
                }
                if d == i {
                    assert(marker_level(s[j]) >= marker_level(c));
                    if c == '垓' {
                        lemma_magnitude_marker_blocked(s1, 5, Kansuji { gai: g, ..acc }, j1);
                    } else if c == '京' {
                        lemma_magnitude_marker_blocked(s1, 4, Kansuji { kei: g, ..acc }, j1);
                    } else if c == '兆' {
                        lemma_magnitude_marker_blocked(s1, 3, Kansuji { cho: g, ..acc }, j1);
                    } else if c == '億' {
                        lemma_magnitude_marker_blocked(s1, 2, Kansuji { oku: g, ..acc }, j1);
                    } else if c == '万' {
                        lemma_magnitude_marker_blocked(s1, 1, Kansuji { man: g, ..acc }, j1);
                    } else if c == '分' {
                        lemma_magnitude_marker_blocked(s1, -1, Kansuji { tenths: g.ichi, ..acc }, j1);
                    } else {
                        lemma_magnitude_marker_blocked(s1, -2, Kansuji { hundredths: g.ichi, ..acc }, j1);
                    }
                } else {
                    let i1 = i - d - 1;
                    assert(s1[i1] == s[i]);
                    if c == '垓' {
                        lemma_magnitude_marker_order(s1, 5, Kansuji { gai: g, ..acc }, i1, j1);
                    } else if c == '京' {
                        lemma_magnitude_marker_order(s1, 4, Kansuji { kei: g, ..acc }, i1, j1);
                    } else if c == '兆' {
                        lemma_magnitude_marker_order(s1, 3, Kansuji { cho: g, ..acc }, i1, j1);
                    } else if c == '億' {
                        lemma_magnitude_marker_order(s1, 2, Kansuji { oku: g, ..acc }, i1, j1);
                    } else if c == '万' {
                        lemma_magnitude_marker_order(s1, 1, Kansuji { man: g, ..acc }, i1, j1);
                    } else if c == '分' {
                        lemma_magnitude_marker_order(s1, -1, Kansuji { tenths: g.ichi, ..acc }, i1, j1);
                    } else {
                        lemma_magnitude_marker_order(s1, -2, Kansuji { hundredths: g.ichi, ..acc }, i1, j1);
                    }
                }
            }
        },
    }
}

/// Every error the magnitude parser raises names the unexpected character.
pub proof fn lemma_kansuji_err_shape(rem: Seq<char>, level: int, acc: Kansuji)
    ensures
        kansuji_step(rem, level, acc) is Err ==> (kansuji_step(rem, level, acc) matches Err(
            KansujiError::UnexpectedChar(_),
        )),
    decreases level + 3,
{
    lemma_keta_err_shape(rem, 4, None, KansujiKeta::zero());
    match keta_step(rem, 4, None, KansujiKeta::zero()) {
        Err(_) => {},
        Ok((g, rem2)) => {
            if rem2.len() > 0 {
                let c = rem2[0];
                if c == '垓' && level > 5 {
                    lemma_kansuji_err_shape(rem2.skip(1), 5, Kansuji { gai: g, ..acc });
                } else if c == '京' && level > 4 {
                    lemma_kansuji_err_shape(rem2.skip(1), 4, Kansuji { kei: g, ..acc });
                } else if c == '兆' && level > 3 {
                    lemma_kansuji_err_shape(rem2.skip(1), 3, Kansuji { cho: g, ..acc });
                } else if c == '億' && level > 2 {
                    lemma_kansuji_err_shape(rem2.skip(1), 2, Kansuji { oku: g, ..acc });
                } else if c == '万' && level > 1 {
                    lemma_kansuji_err_shape(rem2.skip(1), 1, Kansuji { man: g, ..acc });
                } else if c == '分' && level > -1 && single_digit(g) {
                    lemma_kansuji_err_shape(rem2.skip(1), -1, Kansuji { tenths: g.ichi, ..acc });
                } else if c == '厘' && level > -2 && single_digit(g) {
                    lemma_kansuji_err_shape(rem2.skip(1), -2, Kansuji { hundredths: g.ichi, ..acc });
                } else if !is_terminator(c) && level > 0 {
                    lemma_kansuji_err_shape(rem2.skip(1), 0, Kansuji { base: g, ..acc });
                }
            }
        },
    }
}

/// An input holding two magnitude or fractional markers out of strictly
/// descending order (repeated, or the larger after the smaller), with no
/// thousandths marker before the second, never parses: the whole parse fails
/// with an unexpected character.
pub proof fn lemma_parse_magnitude_marker_order(s: Seq<char>, i: int, j: int)
    requires
        0 <= i < j < s.len(),
        is_terminator(s[i]),
        is_terminator(s[j]),
        s[j] != '毛',
        marker_level(s[j]) >= marker_level(s[i]),
        forall|t: int| 0 <= t < j ==> s[t] != '毛',
    ensures
        spec_parse_kansuji(s) matches Err(KansujiError::UnexpectedChar(_)),
{
    lemma_magnitude_marker_order(s, 6, Kansuji::zero(), i, j);
    lemma_kansuji_err_shape(s, 6, Kansuji::zero());
}

} // verus!
