//! A shirt giveaway: the color a customer asked for, or the one the store
//! has most of.

use vstd::prelude::*;

verus! {

#[derive(Debug, PartialEq, Copy, Clone)]
pub enum ShirtColor {
    Red,
    Blue,
}

/// The shirts in stock.
pub struct Inventory {
    pub shirts: Vec<ShirtColor>,
}

/// The test "is red" on a shirt.
pub open spec fn is_red() -> spec_fn(ShirtColor) -> bool {
    |shirt: ShirtColor| shirt is Red
}

/// How many of the shirts are red.
pub open spec fn red_count(shirts: Seq<ShirtColor>) -> nat {
    shirts.filter(is_red()).len()
}

/// How many of the shirts are blue: all that are not red.
pub open spec fn blue_count(shirts: Seq<ShirtColor>) -> nat {
    (shirts.len() - red_count(shirts)) as nat
}

/// The color with the most shirts in stock; blue where the two are level.
pub open spec fn most_stocked_of(shirts: Seq<ShirtColor>) -> ShirtColor {
    if red_count(shirts) > blue_count(shirts) {
        ShirtColor::Red
    } else {
        ShirtColor::Blue
    }
}

impl Inventory {
    /// The shirt to give away: the preferred color where one is named, else
    /// the most stocked.
    pub fn giveaway(&self, user_preference: Option<ShirtColor>) -> (r: ShirtColor)
        ensures
            r == match user_preference {
                Some(color) => color,
                None => most_stocked_of(self.shirts@),
            },
    {
        match user_preference {
            Some(color) => color,
            None => self.most_stocked(),
        }
    }

    /// The color with the most shirts in stock; blue where the two are level.
    pub fn most_stocked(&self) -> (r: ShirtColor)
        ensures
            r == most_stocked_of(self.shirts@),
    {
        let mut num_red: usize = 0;
        let mut num_blue: usize = 0;
        let mut i: usize = 0;
        while i < self.shirts.len()
            invariant
                i <= self.shirts@.len(),
                num_red == red_count(self.shirts@.take(i as int)),
                num_red + num_blue == i,
            decreases self.shirts@.len() - i,
        {
            proof {
                reveal(Seq::filter);
                assert(self.shirts@.take(i + 1).drop_last() == self.shirts@.take(i as int));
            }
            match self.shirts[i] {
                ShirtColor::Red => num_red = num_red + 1,
                ShirtColor::Blue => num_blue = num_blue + 1,
            }
            i = i + 1;
        }
        proof {
            assert(self.shirts@.take(self.shirts@.len() as int) == self.shirts@);
        }
        if num_red > num_blue {
            ShirtColor::Red
        } else {
            ShirtColor::Blue
        }
    }
}

} // verus!
