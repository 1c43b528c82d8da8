//! What the experience bar shows.

use vstd::prelude::*;
use crate::level::PlayerXP;

verus! {

/// The filled part of the experience bar.
#[derive(Clone, Copy, Debug, PartialEq, Eq, Structural)]
pub struct XpBarFill {
    /// In thousandths of the length of the bar.
    pub fill: u32,
}

impl PlayerXP {
    /// The filled part of the experience bar, in thousandths and rounded
    /// down: the experience gathered against what the next level takes, and
    /// no more than the whole bar. The bar is full where the next level
    /// takes nothing.
    pub open spec fn bar_fill(self) -> u32 {
        if self.current >= self.required {
            1000
        } else {
            (self.current * 1000 / (self.required as int)) as u32
        }
    }
}

/// The experience bar as it is set up: empty.
pub fn setup_xp_bar() -> (bar: XpBarFill)
    ensures
        bar.fill == 0,
{
    XpBarFill { fill: 0 }
}

/// Works out what the experience bar shows.
pub fn update_xp_bar(xp: &PlayerXP) -> (bar: XpBarFill)
    ensures
        bar.fill == xp.bar_fill(),
        bar.fill <= 1000,
{
    if xp.current >= xp.required {
        XpBarFill { fill: 1000 }
    } else {
        assert(xp.current * 1000 / (xp.required as int) < 1000) by (nonlinear_arith)
            requires
                0 <= xp.current < xp.required,
        ;
        let fill: u64 = xp.current as u64 * 1000 / xp.required as u64;
        XpBarFill { fill: fill as u32 }
    }
}

} // verus!
