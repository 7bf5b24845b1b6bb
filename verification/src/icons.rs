//! The enumerated set of hash icons: human-checkable fingerprint symbols.

use vstd::prelude::*;
use crate::draws::raw_at;
use crate::draws::next_pos;
use crate::draws::RandomSource;

verus! {

/// One of the 32 icons a generated result can be fingerprinted with.
#[derive(Debug, Clone, Copy, PartialEq, Eq, Structural)]
pub enum HashIcon {
    DekuStick,
    DekuNut,
    Bow,
    Slingshot,
    FairyOcarina,
    Bombchu,
    Longshot,
    Boomerang,
    LensOfTruth,
    Beans,
    MegatonHammer,
    BottledFish,
    BottledMilk,
    MaskOfTruth,
    SoldOut,
    Cucco,
    Mushroom,
    Saw,
    Frog,
    MasterSword,
    MirrorShield,
    KokiriTunic,
    HoverBoots,
    SilverGauntlets,
    GoldScale,
    StoneOfAgony,
    SkullToken,
    HeartContainer,
    BossKey,
    Compass,
    DungeonMap,
    BigMagic,
}

impl DeepView for HashIcon {
    type V = HashIcon;

    open spec fn deep_view(&self) -> HashIcon {
        *self
    }
}

/// How many icons there are.
pub const ICON_COUNT: u64 = 32;

/// The icon at index `i` of the enumeration order, for `i < 32`.
pub open spec fn spec_icon_at(i: int) -> HashIcon {
    if i == 0 {
        HashIcon::DekuStick
    } else if i == 1 {
        HashIcon::DekuNut
    } else if i == 2 {
        HashIcon::Bow
    } else if i == 3 {
        HashIcon::Slingshot
    } else if i == 4 {
        HashIcon::FairyOcarina
    } else if i == 5 {
        HashIcon::Bombchu
    } else if i == 6 {
        HashIcon::Longshot
    } else if i == 7 {
        HashIcon::Boomerang
    } else if i == 8 {
        HashIcon::LensOfTruth
    } else if i == 9 {
        HashIcon::Beans
    } else if i == 10 {
        HashIcon::MegatonHammer
    } else if i == 11 {
        HashIcon::BottledFish
    } else if i == 12 {
        HashIcon::BottledMilk
    } else if i == 13 {
        HashIcon::MaskOfTruth
    } else if i == 14 {
        HashIcon::SoldOut
    } else if i == 15 {
        HashIcon::Cucco
    } else if i == 16 {
        HashIcon::Mushroom
    } else if i == 17 {
        HashIcon::Saw
    } else if i == 18 {
        HashIcon::Frog
    } else if i == 19 {
        HashIcon::MasterSword
    } else if i == 20 {
        HashIcon::MirrorShield
    } else if i == 21 {
        HashIcon::KokiriTunic
    } else if i == 22 {
        HashIcon::HoverBoots
    } else if i == 23 {
        HashIcon::SilverGauntlets
    } else if i == 24 {
        HashIcon::GoldScale
    } else if i == 25 {
        HashIcon::StoneOfAgony
    } else if i == 26 {
        HashIcon::SkullToken
    } else if i == 27 {
        HashIcon::HeartContainer
    } else if i == 28 {
        HashIcon::BossKey
    } else if i == 29 {
        HashIcon::Compass
    } else if i == 30 {
        HashIcon::DungeonMap
    } else {
        HashIcon::BigMagic
    }
}

/// The icon selected uniformly by one raw draw.
pub open spec fn spec_icon_of(raw: u64) -> HashIcon {
    spec_icon_at((raw % ICON_COUNT) as int)
}

impl HashIcon {
    /// The icon at index `i` of the enumeration order; indices wrap at 32.
    pub fn from_index(i: u64) -> (r: HashIcon)
        ensures
            r == spec_icon_at((i % ICON_COUNT) as int),
    {
        let k = i % ICON_COUNT;
        if k == 0 {
            HashIcon::DekuStick
        } else if k == 1 {
            HashIcon::DekuNut
        } else if k == 2 {
            HashIcon::Bow
        } else if k == 3 {
            HashIcon::Slingshot
        } else if k == 4 {
            HashIcon::FairyOcarina
        } else if k == 5 {
            HashIcon::Bombchu
        } else if k == 6 {
            HashIcon::Longshot
        } else if k == 7 {
            HashIcon::Boomerang
        } else if k == 8 {
            HashIcon::LensOfTruth
        } else if k == 9 {
            HashIcon::Beans
        } else if k == 10 {
            HashIcon::MegatonHammer
        } else if k == 11 {
            HashIcon::BottledFish
        } else if k == 12 {
            HashIcon::BottledMilk
        } else if k == 13 {
            HashIcon::MaskOfTruth
        } else if k == 14 {
            HashIcon::SoldOut
        } else if k == 15 {
            HashIcon::Cucco
        } else if k == 16 {
            HashIcon::Mushroom
        } else if k == 17 {
            HashIcon::Saw
        } else if k == 18 {
            HashIcon::Frog
        } else if k == 19 {
            HashIcon::MasterSword
        } else if k == 20 {
            HashIcon::MirrorShield
        } else if k == 21 {
            HashIcon::KokiriTunic
        } else if k == 22 {
            HashIcon::HoverBoots
        } else if k == 23 {
            HashIcon::SilverGauntlets
        } else if k == 24 {
            HashIcon::GoldScale
        } else if k == 25 {
            HashIcon::StoneOfAgony
        } else if k == 26 {
            HashIcon::SkullToken
        } else if k == 27 {
            HashIcon::HeartContainer
        } else if k == 28 {
            HashIcon::BossKey
        } else if k == 29 {
            HashIcon::Compass
        } else if k == 30 {
            HashIcon::DungeonMap
        } else {
            HashIcon::BigMagic
        }
    }

    /// Draws one icon uniformly from the icon set.
    pub fn random(rng: &mut RandomSource) -> (r: HashIcon)
        requires
            old(rng).wf(),
        ensures
            final(rng).seq() == old(rng).seq(),
            final(rng).position() == next_pos(old(rng).seq(), old(rng).position()),
            final(rng).wf(),
            r == spec_icon_of(raw_at(old(rng).seq(), old(rng).position())),
    {
        let raw = rng.next();
        HashIcon::from_index(raw)
    }
}

} // verus!
