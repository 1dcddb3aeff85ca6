//! Slot machine reels: eight symbols, each appearing on a reel with its own
//! weight, drawn by a weighted roll. The payout multipliers are fractional
//! and belong to the shell's renderer, not to this core.
use vstd::prelude::*;
use crate::rng;

verus! {

#[derive(Clone, Copy, Debug, PartialEq, Eq, Structural)]
pub enum SlotVariant {
    Cherry,
    Seven,
    Lemon,
    Orange,
    Grapes,
    Bell,
    Bar,
    Diamond,
}

impl SlotVariant {
    /// How many times the symbol appears on one reel; rarer symbols pay
    /// more.
    pub fn amount_per_reel(&self) -> (n: u8)
        ensures
            1 <= n <= 8,
            n == self.spec_amount_per_reel(),
    {
        match self {
            SlotVariant::Cherry => 1,
            SlotVariant::Seven => 2,
            SlotVariant::Lemon => 3,
            SlotVariant::Orange => 4,
            SlotVariant::Grapes => 5,
            SlotVariant::Bell => 6,
            SlotVariant::Bar => 7,
            SlotVariant::Diamond => 8,
        }
    }

    pub open spec fn spec_amount_per_reel(self) -> u8 {
        match self {
            SlotVariant::Cherry => 1,
            SlotVariant::Seven => 2,
            SlotVariant::Lemon => 3,
            SlotVariant::Orange => 4,
            SlotVariant::Grapes => 5,
            SlotVariant::Bell => 6,
            SlotVariant::Bar => 7,
            SlotVariant::Diamond => 8,
        }
    }

    /// Every symbol, in weight order.
    pub fn values() -> (r: Vec<SlotVariant>)
        ensures
            r@ == seq![
                SlotVariant::Cherry,
                SlotVariant::Seven,
                SlotVariant::Lemon,
                SlotVariant::Orange,
                SlotVariant::Grapes,
                SlotVariant::Bell,
                SlotVariant::Bar,
                SlotVariant::Diamond,
            ],
    {
        let mut v: Vec<SlotVariant> = Vec::new();
        v.push(SlotVariant::Cherry);
        v.push(SlotVariant::Seven);
        v.push(SlotVariant::Lemon);
        v.push(SlotVariant::Orange);
        v.push(SlotVariant::Grapes);
        v.push(SlotVariant::Bell);
        v.push(SlotVariant::Bar);
        v.push(SlotVariant::Diamond);
        proof {
            assert(v@ =~= seq![
                SlotVariant::Cherry,
                SlotVariant::Seven,
                SlotVariant::Lemon,
                SlotVariant::Orange,
                SlotVariant::Grapes,
                SlotVariant::Bell,
                SlotVariant::Bar,
                SlotVariant::Diamond,
            ]);
        }
        v
    }

    /// A random symbol, weighted by its count per reel.
    pub fn random() -> (r: SlotVariant) {
        let variants = SlotVariant::values();
        let mut total: u32 = 0;
        let mut i: usize = 0;
        while i < variants.len()
            invariant
                variants@.len() == 8,
                i <= variants@.len(),
                total <= 8 * i,
            decreases variants@.len() - i,
        {
            total = total + variants[i].amount_per_reel() as u32;
            i = i + 1;
        }
        if total == 0 {
            return SlotVariant::Diamond;
        }
        let mut pick: u32 = rng::roll_u32(0, total - 1);
        let mut j: usize = 0;
        while j < variants.len()
            invariant
                j <= variants@.len(),
            decreases variants@.len() - j,
        {
            let w = variants[j].amount_per_reel() as u32;
            if pick < w {
                return variants[j];
            }
            pick = pick - w;
            j = j + 1;
        }
        SlotVariant::Diamond
    }
}

} // verus!
