use vstd::prelude::*;

verus! {

/// An exact decimal fraction: `mantissa / 10^scale`.
#[derive(Clone, Copy, Debug, PartialEq, Eq, Structural)]
pub struct Decimal {
    pub mantissa: i64,
    pub scale: u8,
}

impl Decimal {
    /// Whether the mantissa has at most 53 bits and the scale is at most 22.
    /// Binary doubles hold such a mantissa and such a power of ten exactly,
    /// so dividing the one by the other gives the double nearest to the
    /// fraction.
    pub open spec fn is_short(self) -> bool {
        &&& -0x20_0000_0000_0000 < self.mantissa < 0x20_0000_0000_0000
        &&& self.scale <= 22
    }
}

/// A point of the complex plane that the camera passes through.
#[derive(Clone, Copy, Debug, PartialEq, Eq, Structural)]
pub struct Anchor {
    pub re: Decimal,
    pub im: Decimal,
}

/// The camera path: four anchors that close in on the zoom target.
pub open spec fn spec_fixed_path() -> Seq<Anchor> {
    seq![
        Anchor {
            re: Decimal { mantissa: (-743643887037151) as i64, scale: 15 },
            im: Decimal { mantissa: 13182590420533, scale: 14 },
        },
        Anchor {
            re: Decimal { mantissa: (-743643135) as i64, scale: 9 },
            im: Decimal { mantissa: 13182733, scale: 8 },
        },
        Anchor {
            re: Decimal { mantissa: (-743642) as i64, scale: 6 },
            im: Decimal { mantissa: 131829, scale: 6 },
        },
        Anchor {
            re: Decimal { mantissa: (-74364085) as i64, scale: 8 },
            im: Decimal { mantissa: 1318309, scale: 7 },
        },
    ]
}

/// The camera path, first anchor first.
pub fn fixed_path() -> (path: Vec<Anchor>)
    ensures
        path@ == spec_fixed_path(),
        path@.len() == 4,
        forall|i: int| 0 <= i < path@.len() ==> path@[i].re.is_short() && path@[i].im.is_short(),
{
    let mut path: Vec<Anchor> = Vec::new();
    path.push(
        Anchor {
            re: Decimal { mantissa: -743643887037151, scale: 15 },
            im: Decimal { mantissa: 13182590420533, scale: 14 },
        },
    );
    path.push(
        Anchor {
            re: Decimal { mantissa: -743643135, scale: 9 },
            im: Decimal { mantissa: 13182733, scale: 8 },
        },
    );
    path.push(
        Anchor {
            re: Decimal { mantissa: -743642, scale: 6 },
            im: Decimal { mantissa: 131829, scale: 6 },
        },
    );
    path.push(
        Anchor {
            re: Decimal { mantissa: -74364085, scale: 8 },
            im: Decimal { mantissa: 1318309, scale: 7 },
        },
    );
    assert(path@ =~= spec_fixed_path());
    path
}

} // verus!
