//! The full numeral value and its numeric conversions and rendering.

use vstd::prelude::*;
use crate::digit::KansujiField;
use crate::keta::KansujiKeta;

verus! {

/// A parse error.
#[derive(Clone, Debug, PartialEq, Eq)]
pub enum KansujiError {
    /// A general parse failure; reserved.
    ParseError,
    /// The character is invalid at the current grammar position.
    UnexpectedChar(char),
    /// The input ended where more was required; reserved.
    UnexpectedEnd,
    /// The value exceeds the supported range; reserved.
    TooLarge,
}

/// A numeral value: six four-digit groups for the magnitudes from ten to the
/// twentieth power down to one, plus three fractional digits.
#[derive(Clone, Copy, PartialEq, Eq, Structural, Debug)]
pub struct Kansuji {
    /// The group scaled by ten to the twentieth power (垓).
    pub gai: KansujiKeta,
    /// The group scaled by ten to the sixteenth power (京).
    pub kei: KansujiKeta,
    /// The group scaled by ten to the twelfth power (兆).
    pub cho: KansujiKeta,
    /// The group scaled by ten to the eighth power (億).
    pub oku: KansujiKeta,
    /// The group scaled by ten to the fourth power (万).
    pub man: KansujiKeta,
    /// The group at magnitude one.
    pub base: KansujiKeta,
    /// The digit scaled by one tenth (分).
    pub tenths: KansujiField,
    /// The digit scaled by one hundredth (厘).
    pub hundredths: KansujiField,
    /// The digit scaled by one thousandth (毛).
    pub thousandths: KansujiField,
}

impl Kansuji {
    /// The integer portion's value.
    pub open spec fn int_value(self) -> int {
        self.gai.value() * 100000000000000000000 + self.kei.value() * 10000000000000000
            + self.cho.value() * 1000000000000 + self.oku.value() * 100000000 + self.man.value()
            * 10000 + self.base.value()
    }

    /// The fractional portion, in thousandths of a unit.
    pub open spec fn frac_value(self) -> int {
        100 * self.tenths.as_int() + 10 * self.hundredths.as_int() + self.thousandths.as_int()
    }

    /// The all-zero value.
    pub open spec fn zero() -> Kansuji {
        Kansuji {
            gai: KansujiKeta::zero(),
            kei: KansujiKeta::zero(),
            cho: KansujiKeta::zero(),
            oku: KansujiKeta::zero(),
            man: KansujiKeta::zero(),
            base: KansujiKeta::zero(),
            tenths: KansujiField::Zero,
            hundredths: KansujiField::Zero,
            thousandths: KansujiField::Zero,
        }
    }

    /// The value whose integer portion is `n`, by successive division into
    /// base-10000 groups; values at or above ten to the twenty-fourth power
    /// lose their excess above the top group.
    pub open spec fn spec_from_u128(n: u128) -> Kansuji {
        Kansuji {
            gai: KansujiKeta::spec_from_int(n as int / 100000000000000000000),
            kei: KansujiKeta::spec_from_int((n as int % 100000000000000000000) / 10000000000000000),
            cho: KansujiKeta::spec_from_int((n as int % 10000000000000000) / 1000000000000),
            oku: KansujiKeta::spec_from_int((n as int % 1000000000000) / 100000000),
            man: KansujiKeta::spec_from_int((n as int % 100000000) / 10000),
            base: KansujiKeta::spec_from_int(n as int % 10000),
            tenths: KansujiField::Zero,
            hundredths: KansujiField::Zero,
            thousandths: KansujiField::Zero,
        }
    }

    /// The value with integer portion `n` and fractional portion `millis`
    /// thousandths of a unit.
    pub open spec fn spec_from_parts(n: u128, millis: u16) -> Kansuji {
        Kansuji {
            tenths: KansujiField::spec_from_int(millis as int / 100),
            hundredths: KansujiField::spec_from_int((millis as int % 100) / 10),
            thousandths: KansujiField::spec_from_int(millis as int % 10),
            ..Self::spec_from_u128(n)
        }
    }

    /// Decomposes `value` into six base-10000 groups.
    pub fn from_u128(value: u128) -> (r: Self)
        ensures
            r == Self::spec_from_u128(value),
    {
        let gai: usize = ((value / 100000000000000000000) % 10000) as usize;
        let kei: usize = (((value % 100000000000000000000) / 10000000000000000) % 10000) as usize;
        let cho: usize = (((value % 10000000000000000) / 1000000000000) % 10000) as usize;
        let oku: usize = (((value % 1000000000000) / 100000000) % 10000) as usize;
        let man: usize = (((value % 100000000) / 10000) % 10000) as usize;
        let iti: usize = (value % 10000) as usize;
        let r = Kansuji {
            gai: KansujiKeta::from_int(gai),
            kei: KansujiKeta::from_int(kei),
            cho: KansujiKeta::from_int(cho),
            oku: KansujiKeta::from_int(oku),
            man: KansujiKeta::from_int(man),
            base: KansujiKeta::from_int(iti),
            tenths: KansujiField::Zero,
            hundredths: KansujiField::Zero,
            thousandths: KansujiField::Zero,
        };
        proof {
            crate::keta::lemma_spec_from_int_mod(value as int / 100000000000000000000);
            crate::keta::lemma_spec_from_int_mod(
                (value as int % 100000000000000000000) / 10000000000000000,
            );
            crate::keta::lemma_spec_from_int_mod((value as int % 10000000000000000) / 1000000000000);
            crate::keta::lemma_spec_from_int_mod((value as int % 1000000000000) / 100000000);
            crate::keta::lemma_spec_from_int_mod((value as int % 100000000) / 10000);
        }
        r
    }

    /// Decomposes a 64-bit integer; the top group stays zero.
    pub fn from_u64(value: u64) -> (r: Self)
        ensures
            r == Self::spec_from_u128(value as u128),
    {
        Self::from_u128(value as u128)
    }

    /// Decomposes a 32-bit integer.
    pub fn from_u32(value: u32) -> (r: Self)
        ensures
            r == Self::spec_from_u128(value as u128),
    {
        Self::from_u128(value as u128)
    }

    /// Decomposes a 16-bit integer.
    pub fn from_u16(value: u16) -> (r: Self)
        ensures
            r == Self::spec_from_u128(value as u128),
    {
        Self::from_u128(value as u128)
    }

    /// Decomposes an 8-bit integer; only the base group can be non-zero.
    pub fn from_u8(value: u8) -> (r: Self)
        ensures
            r == Self::spec_from_u128(value as u128),
    {
        Self::from_u128(value as u128)
    }

    /// Decomposes a pointer-sized integer.
    pub fn from_usize(value: usize) -> (r: Self)
        ensures
            r == Self::spec_from_u128(value as u128),
    {
        Self::from_u128(value as u128)
    }

    /// Builds the value with integer portion `n` and `millis` thousandths.
    pub fn from_parts(n: u128, millis: u16) -> (r: Self)
        requires
            millis < 1000,
        ensures
            r == Self::spec_from_parts(n, millis),
    {
        let mut r = Self::from_u128(n);
        r.tenths = KansujiField::from_int((millis / 100) as u8);
        r.hundredths = KansujiField::from_int(((millis % 100) / 10) as u8);
        r.thousandths = KansujiField::from_int((millis % 10) as u8);
        r
    }

    /// The integer portion, by place-value recomposition; the fractional
    /// digits are not part of it.
    pub fn to_u128(&self) -> (r: u128)
        ensures
            r as int == self.int_value(),
    {
        let mut n: u128 = self.base.to_int() as u128;
        n += (self.man.to_int() as u128) * 10000;
        n += (self.oku.to_int() as u128) * 100000000;
        n += (self.cho.to_int() as u128) * 1000000000000;
        n += (self.kei.to_int() as u128) * 10000000000000000;
        n += (self.gai.to_int() as u128) * 100000000000000000000;
        n
    }

    /// The fractional portion, in thousandths of a unit.
    pub fn frac_millis(&self) -> (r: u16)
        ensures
            r as int == self.frac_value(),
            r < 1000,
    {
        let mut n: u16 = self.tenths.to_int() as u16 * 100;
        n += self.hundredths.to_int() as u16 * 10;
        n += self.thousandths.to_int() as u16;
        n
    }
}

impl Default for Kansuji {
    /// The all-zero value.
    fn default() -> (r: Self)
        ensures
            r == Kansuji::zero(),
    {
        Kansuji {
            gai: KansujiKeta::default(),
            kei: KansujiKeta::default(),
            cho: KansujiKeta::default(),
            oku: KansujiKeta::default(),
            man: KansujiKeta::default(),
            base: KansujiKeta::default(),
            tenths: KansujiField::Zero,
            hundredths: KansujiField::Zero,
            thousandths: KansujiField::Zero,
        }
    }
}

/// The text of one magnitude segment: nothing for a zero group, the bare
/// marker for a group of exactly one (the leading one is elided before a
/// magnitude marker), and the group's text followed by the marker otherwise.
#[verifier::opaque]
pub open spec fn seg_render(g: KansujiKeta, marker: char) -> Seq<char> {
    if g.value() == 0 {
        Seq::<char>::empty()
    } else if g.value() == 1 {
        seq![marker]
    } else {
        g.spec_render() + seq![marker]
    }
}

/// The text of one fractional digit: nothing when zero, else the digit's
/// bare glyph followed by its marker. The digit one is not elided here:
/// elision belongs to place and magnitude markers only, and the parser reads
/// a bare fractional marker as a zero digit.
#[verifier::opaque]
pub open spec fn frac_render(f: KansujiField, marker: char) -> Seq<char> {
    if f == KansujiField::Zero {
        Seq::<char>::empty()
    } else {
        f.spec_unit_glyph() + seq![marker]
    }
}

/// Appends one magnitude segment: nothing for a zero group, the group's text
/// (elided to nothing when the group is exactly one) and then the marker
/// otherwise.
fn append_segment(s: &mut String, g: &KansujiKeta, m: &str, marker: Ghost<char>)
    requires
        m@ == seq![marker@],
    ensures
        final(s)@ == old(s)@ + seg_render(*g, marker@),
{
    if !g.is_zero() {
        if !g.is_one() {
            let t = g.to_string();
            s.append(t.as_str());
        }
        s.append(m);
    }
    proof {
        reveal(seg_render);
        assert(s@ =~= old(s)@ + seg_render(*g, marker@));
    }
}

/// Appends one fractional digit: nothing when it is zero, else the digit's
/// bare glyph and then its marker.
fn append_fraction(s: &mut String, f: KansujiField, m: &str, marker: Ghost<char>)
    requires
        m@ == seq![marker@],
    ensures
        final(s)@ == old(s)@ + frac_render(f, marker@),
{
    if f != KansujiField::Zero {
        let d = f.to_unit_str();
        s.append(d.as_str());
        s.append(m);
    }
    proof {
        reveal(frac_render);
        assert(s@ =~= old(s)@ + frac_render(f, marker@));
    }
}

impl Kansuji {
    /// The canonical text of the value: 零 when everything is zero, else the
    /// non-zero magnitude segments in descending order, the base group with
    /// its bare units digit, and the non-zero fractional digits.
    #[verifier::opaque]
    pub open spec fn spec_render(self) -> Seq<char> {
        if self == Self::zero() {
            seq!['零']
        } else {
            seg_render(self.gai, '垓') + seg_render(self.kei, '京') + seg_render(self.cho, '兆')
                + seg_render(self.oku, '億') + seg_render(self.man, '万') + self.base.spec_render()
                + frac_render(self.tenths, '分') + frac_render(self.hundredths, '厘')
                + frac_render(self.thousandths, '毛')
        }
    }

    /// Renders the value in its canonical form.
    pub fn to_string(&self) -> (r: String)
        ensures
            r@ == self.spec_render(),
    {
        if self.gai.is_zero() && self.kei.is_zero() && self.cho.is_zero() && self.oku.is_zero()
            && self.man.is_zero() && self.base.is_zero() && self.tenths == KansujiField::Zero
            && self.hundredths == KansujiField::Zero && self.thousandths == KansujiField::Zero {
            proof {
                reveal_strlit("零");
            }
            let r = String::from_str("零");
            proof {
                reveal(Kansuji::spec_render);
                assert(r@ =~= self.spec_render());
            }
            return r;
        }
        let mut s = String::new();
        proof {
            reveal_strlit("垓");
            reveal_strlit("京");
            reveal_strlit("兆");
            reveal_strlit("億");
            reveal_strlit("万");
            reveal_strlit("分");
            reveal_strlit("厘");
            reveal_strlit("毛");
            assert("垓"@ =~= seq!['垓']);
            assert("京"@ =~= seq!['京']);
            assert("兆"@ =~= seq!['兆']);
            assert("億"@ =~= seq!['億']);
            assert("万"@ =~= seq!['万']);
            assert("分"@ =~= seq!['分']);
            assert("厘"@ =~= seq!['厘']);
            assert("毛"@ =~= seq!['毛']);
        }
        append_segment(&mut s, &self.gai, "垓", Ghost('垓'));
        append_segment(&mut s, &self.kei, "京", Ghost('京'));
        append_segment(&mut s, &self.cho, "兆", Ghost('兆'));
        append_segment(&mut s, &self.oku, "億", Ghost('億'));
        append_segment(&mut s, &self.man, "万", Ghost('万'));
        let b = self.base.to_string();
        s.append(b.as_str());
        append_fraction(&mut s, self.tenths, "分", Ghost('分'));
        append_fraction(&mut s, self.hundredths, "厘", Ghost('厘'));
        append_fraction(&mut s, self.thousandths, "毛", Ghost('毛'));
        proof {
            reveal(Kansuji::spec_render);
            assert(s@ =~= self.spec_render());
        }
        s
    }
}

} // verus!
