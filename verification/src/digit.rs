//! The ten kanji digits and their glyphs.

use vstd::prelude::*;

verus! {

/// A single decimal digit, zero through nine.
///
/// The glyph of a digit depends on where it stands: before a place marker
/// (千, 百, 十) both zero and one render as the empty string, while a digit
/// standing on its own in the units position renders one as 一 and only zero
/// as the empty string.
#[derive(Clone, Copy, PartialEq, Eq, Structural, Debug)]
pub enum KansujiField {
    Zero,
    One,
    Two,
    Three,
    Four,
    Five,
    Six,
    Seven,
    Eight,
    Nine,
}

impl KansujiField {
    /// The numeric value of the digit.
    pub open spec fn as_int(self) -> int {
        match self {
            KansujiField::Zero => 0,
            KansujiField::One => 1,
            KansujiField::Two => 2,
            KansujiField::Three => 3,
            KansujiField::Four => 4,
            KansujiField::Five => 5,
            KansujiField::Six => 6,
            KansujiField::Seven => 7,
            KansujiField::Eight => 8,
            KansujiField::Nine => 9,
        }
    }

    /// The digit with value `n`; values above nine all give nine.
    #[verifier::opaque]
    pub open spec fn spec_from_int(n: int) -> KansujiField {
        if n == 0 {
            KansujiField::Zero
        } else if n == 1 {
            KansujiField::One
        } else if n == 2 {
            KansujiField::Two
        } else if n == 3 {
            KansujiField::Three
        } else if n == 4 {
            KansujiField::Four
        } else if n == 5 {
            KansujiField::Five
        } else if n == 6 {
            KansujiField::Six
        } else if n == 7 {
            KansujiField::Seven
        } else if n == 8 {
            KansujiField::Eight
        } else {
            KansujiField::Nine
        }
    }

    /// The glyph of the digit when it stands on its own: only zero is empty.
    pub open spec fn glyph(self) -> char {
        match self {
            KansujiField::Zero => '零',
            KansujiField::One => '一',
            KansujiField::Two => '二',
            KansujiField::Three => '三',
            KansujiField::Four => '四',
            KansujiField::Five => '五',
            KansujiField::Six => '六',
            KansujiField::Seven => '七',
            KansujiField::Eight => '八',
            KansujiField::Nine => '九',
        }
    }

    /// The text of the digit before a place or magnitude marker: zero and one
    /// are both elided there.
    pub open spec fn spec_prefix_glyph(self) -> Seq<char> {
        if self == KansujiField::Zero || self == KansujiField::One {
            Seq::<char>::empty()
        } else {
            seq![self.glyph()]
        }
    }

    /// The text of the digit in the units position: only zero is elided.
    pub open spec fn spec_unit_glyph(self) -> Seq<char> {
        if self == KansujiField::Zero {
            Seq::<char>::empty()
        } else {
            seq![self.glyph()]
        }
    }

    pub fn from_int(n: u8) -> (r: Self)
        requires
            n <= 9,
        ensures
            r == Self::spec_from_int(n as int),
            r.as_int() == n as int,
    {
        proof {
            reveal(KansujiField::spec_from_int);
        }
        match n {
            0 => KansujiField::Zero,
            1 => KansujiField::One,
            2 => KansujiField::Two,
            3 => KansujiField::Three,
            4 => KansujiField::Four,
            5 => KansujiField::Five,
            6 => KansujiField::Six,
            7 => KansujiField::Seven,
            8 => KansujiField::Eight,
            _ => KansujiField::Nine,
        }
    }

    pub fn to_int(self) -> (r: u8)
        ensures
            r as int == self.as_int(),
    {
        match self {
            KansujiField::Zero => 0,
            KansujiField::One => 1,
            KansujiField::Two => 2,
            KansujiField::Three => 3,
            KansujiField::Four => 4,
            KansujiField::Five => 5,
            KansujiField::Six => 6,
            KansujiField::Seven => 7,
            KansujiField::Eight => 8,
            KansujiField::Nine => 9,
        }
    }

    /// The digit's text before a place or magnitude marker.
    pub fn to_str(self) -> (r: String)
        ensures
            r@ == self.spec_prefix_glyph(),
    {
        match self {
            KansujiField::Zero => String::new(),
            KansujiField::One => String::new(),
            _ => self.to_unit_str(),
        }
    }

    /// The digit's text when it stands on its own in the units position.
    pub fn to_unit_str(self) -> (r: String)
        ensures
            r@ == self.spec_unit_glyph(),
    {
        match self {
            KansujiField::Zero => String::new(),
            KansujiField::One => {
                proof {
                    reveal_strlit("一");
                }
                let r = String::from_str("一");
                proof {
                    assert(r@ =~= self.spec_unit_glyph());
                }
                r
            },
            KansujiField::Two => {
                proof {
                    reveal_strlit("二");
                }
                let r = String::from_str("二");
                proof {
                    assert(r@ =~= self.spec_unit_glyph());
                }
                r
            },
            KansujiField::Three => {
                proof {
                    reveal_strlit("三");
                }
                let r = String::from_str("三");
                proof {
                    assert(r@ =~= self.spec_unit_glyph());
                }
                r
            },
            KansujiField::Four => {
                proof {
                    reveal_strlit("四");
                }
                let r = String::from_str("四");
                proof {
                    assert(r@ =~= self.spec_unit_glyph());
                }
                r
            },
            KansujiField::Five => {
                proof {
                    reveal_strlit("五");
                }
                let r = String::from_str("五");
                proof {
                    assert(r@ =~= self.spec_unit_glyph());
                }
                r
            },
            KansujiField::Six => {
                proof {
                    reveal_strlit("六");
                }
                let r = String::from_str("六");
                proof {
                    assert(r@ =~= self.spec_unit_glyph());
                }
                r
            },
            KansujiField::Seven => {
                proof {
                    reveal_strlit("七");
                }
                let r = String::from_str("七");
                proof {
                    assert(r@ =~= self.spec_unit_glyph());
                }
                r
            },
            KansujiField::Eight => {
                proof {
                    reveal_strlit("八");
                }
                let r = String::from_str("八");
                proof {
                    assert(r@ =~= self.spec_unit_glyph());
                }
                r
            },
            KansujiField::Nine => {
                proof {
                    reveal_strlit("九");
                }
                let r = String::from_str("九");
                proof {
                    assert(r@ =~= self.spec_unit_glyph());
                }
                r
            },
        }
    }
}

} // verus!
