//! The group parser and the magnitude parser.

use vstd::prelude::*;
use crate::digit::KansujiField;
use crate::keta::KansujiKeta;
use crate::value::Kansuji;
use crate::value::KansujiError;

verus! {

/// The digit denoted by a glyph, if any.
pub open spec fn digit_of(c: char) -> Option<KansujiField> {
    if c == '零' {
        Some(KansujiField::Zero)
    } else if c == '一' {
        Some(KansujiField::One)
    } else if c == '二' {
        Some(KansujiField::Two)
    } else if c == '三' {
        Some(KansujiField::Three)
    } else if c == '四' {
        Some(KansujiField::Four)
    } else if c == '五' {
        Some(KansujiField::Five)
    } else if c == '六' {
        Some(KansujiField::Six)
    } else if c == '七' {
        Some(KansujiField::Seven)
    } else if c == '八' {
        Some(KansujiField::Eight)
    } else if c == '九' {
        Some(KansujiField::Nine)
    } else {
        None
    }
}

/// Whether the character ends a four-digit group: every magnitude or
/// fractional marker does, and the group parser leaves it unconsumed.
pub open spec fn is_terminator(c: char) -> bool {
    c == '万' || c == '億' || c == '兆' || c == '京' || c == '垓' || c == '分' || c == '厘' || c
        == '毛'
}

/// The pending digit, or `d` where none is pending.
pub open spec fn pending_or(pending: Option<KansujiField>, d: KansujiField) -> KansujiField {
    match pending {
        Some(f) => f,
        None => d,
    }
}

/// One run of the group parser over the remaining input.
///
/// The state is the current place ceiling (4 at the start of a group; a place
/// marker is accepted only strictly below it), the pending digit, and the
/// places committed so far. A digit glyph becomes the pending digit; a place
/// marker commits the pending digit (one, where none is pending) to its
/// place; a magnitude or fractional marker, or the end of the input, commits
/// the pending digit (zero, where none is pending) to the units place and
/// ends the group without consuming the marker. Any other character is an
/// error, as is a place marker at or above the ceiling.
pub open spec fn keta_step(
    rem: Seq<char>,
    ceil: int,
    pending: Option<KansujiField>,
    acc: KansujiKeta,
) -> Result<(KansujiKeta, Seq<char>), KansujiError>
    decreases rem.len(),
{
    if rem.len() == 0 {
        Ok((KansujiKeta { ichi: pending_or(pending, KansujiField::Zero), ..acc }, rem))
    } else {
        let c = rem[0];
        if digit_of(c) is Some {
            keta_step(rem.skip(1), ceil, digit_of(c), acc)
        } else if c == '千' {
            if ceil > 3 {
                keta_step(
                    rem.skip(1),
                    3,
                    None,
                    KansujiKeta { sen: pending_or(pending, KansujiField::One), ..acc },
                )
            } else {
                Err(KansujiError::UnexpectedChar(c))
            }
        } else if c == '百' {
            if ceil > 2 {
                keta_step(
                    rem.skip(1),
                    2,
                    None,
                    KansujiKeta { hyaku: pending_or(pending, KansujiField::One), ..acc },
                )
            } else {
                Err(KansujiError::UnexpectedChar(c))
            }
        } else if c == '十' {
            if ceil > 1 {
                keta_step(
                    rem.skip(1),
                    1,
                    None,
                    KansujiKeta { juu: pending_or(pending, KansujiField::One), ..acc },
                )
            } else {
                Err(KansujiError::UnexpectedChar(c))
            }
        } else if is_terminator(c) {
            Ok((KansujiKeta { ichi: pending_or(pending, KansujiField::Zero), ..acc }, rem))
        } else {
            Err(KansujiError::UnexpectedChar(c))
        }
    }
}

/// Whether a group may precede a fractional marker: only its units digit may
/// be non-zero.
pub open spec fn single_digit(g: KansujiKeta) -> bool {
    g.sen == KansujiField::Zero && g.hyaku == KansujiField::Zero && g.juu == KansujiField::Zero
}

/// One run of the magnitude parser over the remaining input.
///
/// The state is the current magnitude level (6 at the start, above every
/// marker) and the value assembled so far. Each turn parses one four-digit
/// group and inspects the character after it: a magnitude marker strictly
/// below the level assigns the group to its slot and lowers the level; a
/// fractional marker additionally requires the group to carry a units digit
/// only, and 毛 ends the parse at once; the end of the input assigns the
/// group to the base slot. A marker at or above the level is an error.
pub open spec fn kansuji_step(rem: Seq<char>, level: int, acc: Kansuji) -> Result<
    Kansuji,
    KansujiError,
>
    decreases level + 3,
{
    match keta_step(rem, 4, None, KansujiKeta::zero()) {
        Err(e) => Err(e),
        Ok((g, rem2)) => {
            if rem2.len() == 0 {
                Ok(Kansuji { base: g, ..acc })
            } else {
                let c = rem2[0];
                if c == '垓' {
                    if level > 5 {
                        kansuji_step(rem2.skip(1), 5, Kansuji { gai: g, ..acc })
                    } else {
                        Err(KansujiError::UnexpectedChar(c))
                    }
                } else if c == '京' {
                    if level > 4 {
                        kansuji_step(rem2.skip(1), 4, Kansuji { kei: g, ..acc })
                    } else {
                        Err(KansujiError::UnexpectedChar(c))
                    }
                } else if c == '兆' {
                    if level > 3 {
                        kansuji_step(rem2.skip(1), 3, Kansuji { cho: g, ..acc })
                    } else {
                        Err(KansujiError::UnexpectedChar(c))
                    }
                } else if c == '億' {
                    if level > 2 {
                        kansuji_step(rem2.skip(1), 2, Kansuji { oku: g, ..acc })
                    } else {
                        Err(KansujiError::UnexpectedChar(c))
                    }
                } else if c == '万' {
                    if level > 1 {
                        kansuji_step(rem2.skip(1), 1, Kansuji { man: g, ..acc })
                    } else {
                        Err(KansujiError::UnexpectedChar(c))
                    }
                } else if c == '分' {
                    if level > -1 && single_digit(g) {
                        kansuji_step(rem2.skip(1), -1, Kansuji { tenths: g.ichi, ..acc })
                    } else {
                        Err(KansujiError::UnexpectedChar(c))
                    }
                } else if c == '厘' {
                    if level > -2 && single_digit(g) {
                        kansuji_step(rem2.skip(1), -2, Kansuji { hundredths: g.ichi, ..acc })
                    } else {
                        Err(KansujiError::UnexpectedChar(c))
                    }
                } else if c == '毛' {
                    if level > -3 && single_digit(g) {
                        Ok(Kansuji { thousandths: g.ichi, ..acc })
                    } else {
                        Err(KansujiError::UnexpectedChar(c))
                    }
                } else {
                    if level > 0 {
                        kansuji_step(rem2.skip(1), 0, Kansuji { base: g, ..acc })
                    } else {
                        Ok(acc)
                    }
                }
            }
        },
    }
}

/// What parsing an entire input yields.
pub open spec fn spec_parse_kansuji(s: Seq<char>) -> Result<Kansuji, KansujiError> {
    kansuji_step(s, 6, Kansuji::zero())
}

/// Parses one four-digit group, starting at `*old(pos)`; on success `*pos`
/// stands on the terminating marker (or at the end of the input), which is
/// left for the caller.
#[verifier::loop_isolation(false)]
pub fn parse_keta(s: &str, pos: &mut usize) -> (r: Result<KansujiKeta, KansujiError>)
    requires
        *old(pos) <= s@.len(),
    ensures
        *old(pos) <= *final(pos) <= s@.len(),
        match r {
            Ok(g) => keta_step(s@.skip(*old(pos) as int), 4, None, KansujiKeta::zero())
                == Ok::<(KansujiKeta, Seq<char>), KansujiError>((g, s@.skip(*final(pos) as int)))
                && (*final(pos) == s@.len() || is_terminator(s@[*final(pos) as int])),
            Err(e) => keta_step(s@.skip(*old(pos) as int), 4, None, KansujiKeta::zero())
                == Err::<(KansujiKeta, Seq<char>), KansujiError>(e) && (e matches KansujiError::UnexpectedChar(c)
                ==> *final(pos) < s@.len() && s@[*final(pos) as int] == c),
        },
{
    let len = s.unicode_len();
    let mut i: usize = *pos;
    let mut ceil: u8 = 4;
    let mut pending: Option<KansujiField> = None;
    let mut acc = KansujiKeta::default();
    let ghost start = *pos as int;
    loop
        invariant
            start <= i as int <= s@.len(),
            len == s@.len(),
            1 <= ceil <= 4,
            keta_step(s@.skip(start), 4, None, KansujiKeta::zero()) == keta_step(
                s@.skip(i as int),
                ceil as int,
                pending,
                acc,
            ),
        decreases s@.len() - i as int,
    {
        if i >= len {
            proof {
                assert(s@.skip(i as int) =~= Seq::<char>::empty());
            }
            *pos = i;
            return Ok(KansujiKeta {
                ichi: match pending {
                    Some(f) => f,
                    None => KansujiField::Zero,
                },
                ..acc
            });
        }
        let c = s.get_char(i);
        proof {
            assert(s@.skip(i as int)[0] == c);
            assert(s@.skip(i as int).skip(1) =~= s@.skip(i as int + 1));
        }
        if c == '零' {
            pending = Some(KansujiField::Zero);
            i += 1;
        } else if c == '一' {
            pending = Some(KansujiField::One);
            i += 1;
        } else if c == '二' {
            pending = Some(KansujiField::Two);
            i += 1;
        } else if c == '三' {
            pending = Some(KansujiField::Three);
            i += 1;
        } else if c == '四' {
            pending = Some(KansujiField::Four);
            i += 1;
        } else if c == '五' {
            pending = Some(KansujiField::Five);
            i += 1;
        } else if c == '六' {
            pending = Some(KansujiField::Six);
            i += 1;
        } else if c == '七' {
            pending = Some(KansujiField::Seven);
            i += 1;
        } else if c == '八' {
            pending = Some(KansujiField::Eight);
            i += 1;
        } else if c == '九' {
            pending = Some(KansujiField::Nine);
            i += 1;
        } else if c == '千' {
            if ceil > 3 {
                acc.sen = match pending {
                    Some(f) => f,
                    None => KansujiField::One,
                };
                pending = None;
                ceil = 3;
                i += 1;
            } else {
                *pos = i;
                return Err(KansujiError::UnexpectedChar(c));
            }
        } else if c == '百' {
            if ceil > 2 {
                acc.hyaku = match pending {
                    Some(f) => f,
                    None => KansujiField::One,
                };
                pending = None;
                ceil = 2;
                i += 1;
            } else {
                *pos = i;
                return Err(KansujiError::UnexpectedChar(c));
            }
        } else if c == '十' {
            if ceil > 1 {
                acc.juu = match pending {
                    Some(f) => f,
                    None => KansujiField::One,
                };
                pending = None;
                ceil = 1;
                i += 1;
            } else {
                *pos = i;
                return Err(KansujiError::UnexpectedChar(c));
            }
        } else if c == '万' || c == '億' || c == '兆' || c == '京' || c == '垓' || c == '分' || c
            == '厘' || c == '毛' {
            *pos = i;
            return Ok(KansujiKeta {
                ichi: match pending {
                    Some(f) => f,
                    None => KansujiField::Zero,
                },
                ..acc
            });
        } else {
            *pos = i;
            return Err(KansujiError::UnexpectedChar(c));
        }
    }
}

/// Parses an entire input into a numeral value.
#[verifier::loop_isolation(false)]
pub fn parse_kansuji(s: &str) -> (r: Result<Kansuji, KansujiError>)
    ensures
        r == spec_parse_kansuji(s@),
{
    let len = s.unicode_len();
    let mut pos: usize = 0;
    let mut level: i8 = 6;
    let mut acc = Kansuji::default();
    proof {
        assert(s@.skip(0) =~= s@);
    }
    loop
        invariant
            pos <= s@.len(),
            len == s@.len(),
            -2 <= level <= 6,
            spec_parse_kansuji(s@) == kansuji_step(s@.skip(pos as int), level as int, acc),
        decreases level + 3,
    {
        let g = match parse_keta(s, &mut pos) {
            Ok(g) => g,
            Err(e) => {
                return Err(e);
            },
        };
        if pos >= len {
            proof {
                assert(s@.skip(pos as int) =~= Seq::<char>::empty());
            }
            return Ok(Kansuji { base: g, ..acc });
        }
        let c = s.get_char(pos);
        proof {
            assert(s@.skip(pos as int)[0] == c);
            assert(s@.skip(pos as int).skip(1) =~= s@.skip(pos as int + 1));
        }
        if c == '垓' {
            if level > 5 {
                acc.gai = g;
                pos += 1;
                level = 5;
            } else {
                return Err(KansujiError::UnexpectedChar(c));
            }
        } else if c == '京' {
            if level > 4 {
                acc.kei = g;
                pos += 1;
                level = 4;
            } else {
                return Err(KansujiError::UnexpectedChar(c));
            }
        } else if c == '兆' {
            if level > 3 {
                acc.cho = g;
                pos += 1;
                level = 3;
            } else {
                return Err(KansujiError::UnexpectedChar(c));
            }
        } else if c == '億' {
            if level > 2 {
                acc.oku = g;
                pos += 1;
                level = 2;
            } else {
                return Err(KansujiError::UnexpectedChar(c));
            }
        } else if c == '万' {
            if level > 1 {
                acc.man = g;
                pos += 1;
                level = 1;
            } else {
                return Err(KansujiError::UnexpectedChar(c));
            }
        } else if c == '分' {
            if level > -1 && g.sen == KansujiField::Zero && g.hyaku == KansujiField::Zero && g.juu
                == KansujiField::Zero {
                acc.tenths = g.ichi;
                pos += 1;
                level = -1;
            } else {
                return Err(KansujiError::UnexpectedChar(c));
            }
        } else if c == '厘' {
            if level > -2 && g.sen == KansujiField::Zero && g.hyaku == KansujiField::Zero && g.juu
                == KansujiField::Zero {
                acc.hundredths = g.ichi;
                pos += 1;
                level = -2;
            } else {
                return Err(KansujiError::UnexpectedChar(c));
            }
        } else if c == '毛' {
            if level > -3 && g.sen == KansujiField::Zero && g.hyaku == KansujiField::Zero && g.juu
                == KansujiField::Zero {
                return Ok(Kansuji { thousandths: g.ichi, ..acc });
            } else {
                return Err(KansujiError::UnexpectedChar(c));
            }
        } else {
            if level > 0 {
                acc.base = g;
                pos += 1;
                level = 0;
            } else {
                return Ok(acc);
            }
        }
    }
}

} // verus!
