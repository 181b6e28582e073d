//! A four-digit group: thousands, hundreds, tens, units.

use vstd::prelude::*;
use crate::digit::KansujiField;

verus! {

/// One four-digit group of a numeral, spanning 0 through 9999.
///
/// The four fields are the digits at the thousands (千), hundreds (百),
/// tens (十) and units places.
#[derive(Clone, Copy, PartialEq, Eq, Structural, Debug)]
pub struct KansujiKeta {
    pub sen: KansujiField,
    pub hyaku: KansujiField,
    pub juu: KansujiField,
    pub ichi: KansujiField,
}

impl KansujiKeta {
    /// The group's numeric value, by place-value arithmetic.
    pub open spec fn value(self) -> int {
        1000 * self.sen.as_int() + 100 * self.hyaku.as_int() + 10 * self.juu.as_int()
            + self.ichi.as_int()
    }

    /// The all-zero group.
    pub open spec fn zero() -> KansujiKeta {
        KansujiKeta {
            sen: KansujiField::Zero,
            hyaku: KansujiField::Zero,
            juu: KansujiField::Zero,
            ichi: KansujiField::Zero,
        }
    }

    /// The group whose value is `v % 10000`.
    #[verifier::opaque]
    pub open spec fn spec_from_int(v: int) -> KansujiKeta {
        KansujiKeta {
            sen: KansujiField::spec_from_int((v % 10000) / 1000),
            hyaku: KansujiField::spec_from_int((v % 1000) / 100),
            juu: KansujiField::spec_from_int((v % 100) / 10),
            ichi: KansujiField::spec_from_int(v % 10),
        }
    }

    /// The group's canonical text: each non-zero place digit (elided when it
    /// is one) followed by its place marker, then the bare units digit.
    #[verifier::opaque]
    pub open spec fn spec_render(self) -> Seq<char> {
        (if self.sen != KansujiField::Zero {
            self.sen.spec_prefix_glyph() + seq!['千']
        } else {
            Seq::<char>::empty()
        }) + (if self.hyaku != KansujiField::Zero {
            self.hyaku.spec_prefix_glyph() + seq!['百']
        } else {
            Seq::<char>::empty()
        }) + (if self.juu != KansujiField::Zero {
            self.juu.spec_prefix_glyph() + seq!['十']
        } else {
            Seq::<char>::empty()
        }) + self.ichi.spec_unit_glyph()
    }

    /// Whether all four digits are zero.
    pub fn is_zero(self) -> (r: bool)
        ensures
            r == (self.value() == 0),
            r == (self == KansujiKeta::zero()),
    {
        self.sen == KansujiField::Zero && self.hyaku == KansujiField::Zero && self.juu
            == KansujiField::Zero && self.ichi == KansujiField::Zero
    }

    /// Whether the group's value is exactly one.
    pub fn is_one(self) -> (r: bool)
        ensures
            r == (self.value() == 1),
    {
        self.sen == KansujiField::Zero && self.hyaku == KansujiField::Zero && self.juu
            == KansujiField::Zero && self.ichi == KansujiField::One
    }

    /// The group's value as an integer in 0..=9999.
    pub fn to_int(self) -> (r: usize)
        ensures
            r as int == self.value(),
            r <= 9999,
    {
        let mut n: usize = self.ichi.to_int() as usize;
        n += self.juu.to_int() as usize * 10;
        n += self.hyaku.to_int() as usize * 100;
        n += self.sen.to_int() as usize * 1000;
        n
    }

    /// The group whose value is `value % 10000`.
    pub fn from_int(value: usize) -> (r: Self)
        ensures
            r == Self::spec_from_int(value as int),
    {
        let n: usize = value % 10000;
        let sen: u8 = (n / 1000) as u8;
        let hyaku: u8 = ((n % 1000) / 100) as u8;
        let juu: u8 = ((n % 100) / 10) as u8;
        let ichi: u8 = (n % 10) as u8;
        proof {
            reveal(KansujiKeta::spec_from_int);
            assert(n as int == value as int % 10000);
            assert((n as int) % 1000 == (value as int) % 1000) by {
                vstd::arithmetic::div_mod::lemma_mod_mod(value as int, 1000, 10);
            }
            assert((n as int) % 100 == (value as int) % 100) by {
                vstd::arithmetic::div_mod::lemma_mod_mod(value as int, 100, 100);
            }
            assert((n as int) % 10 == (value as int) % 10) by {
                vstd::arithmetic::div_mod::lemma_mod_mod(value as int, 10, 1000);
            }
        }
        KansujiKeta {
            sen: KansujiField::from_int(sen),
            hyaku: KansujiField::from_int(hyaku),
            juu: KansujiField::from_int(juu),
            ichi: KansujiField::from_int(ichi),
        }
    }

    /// The group's canonical text.
    pub fn to_string(&self) -> (r: String)
        ensures
            r@ == self.spec_render(),
    {
        let mut s = String::new();
        if self.sen != KansujiField::Zero {
            let d = self.sen.to_str();
            s.append(d.as_str());
            proof {
                reveal_strlit("千");
            }
            s.append("千");
        }
        if self.hyaku != KansujiField::Zero {
            let d = self.hyaku.to_str();
            s.append(d.as_str());
            proof {
                reveal_strlit("百");
            }
            s.append("百");
        }
        if self.juu != KansujiField::Zero {
            let d = self.juu.to_str();
            s.append(d.as_str());
            proof {
                reveal_strlit("十");
            }
            s.append("十");
        }
        let u = self.ichi.to_unit_str();
        s.append(u.as_str());
        proof {
            reveal(KansujiKeta::spec_render);
            assert(s@ =~= self.spec_render());
        }
        s
    }
}

/// Reducing the argument modulo 10000 does not change the group it denotes.
pub proof fn lemma_spec_from_int_mod(v: int)
    requires
        0 <= v,
    ensures
        KansujiKeta::spec_from_int(v % 10000) == KansujiKeta::spec_from_int(v),
{
    reveal(KansujiKeta::spec_from_int);
    vstd::arithmetic::div_mod::lemma_mod_mod(v, 1000, 10);
    vstd::arithmetic::div_mod::lemma_mod_mod(v, 100, 100);
    vstd::arithmetic::div_mod::lemma_mod_mod(v, 10, 1000);
    assert((v % 10000) % 10000 == v % 10000);
    assert((v % 10000) % 1000 == v % 1000);
    assert((v % 10000) % 100 == v % 100);
    assert((v % 10000) % 10 == v % 10);
}

impl Default for KansujiKeta {
    /// The all-zero group.
    fn default() -> (r: Self)
        ensures
            r == KansujiKeta::zero(),
    {
        KansujiKeta {
            sen: KansujiField::Zero,
            hyaku: KansujiField::Zero,
            juu: KansujiField::Zero,
            ichi: KansujiField::Zero,
        }
    }
}

} // verus!
