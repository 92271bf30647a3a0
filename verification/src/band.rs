//! The band coordinator: the territory anchor, its per-tick recomputation
//! or manual pin, and the flagging/recall/recovery of creatures straying
//! beyond the territory radius.

use vstd::prelude::*;
use crate::grid::{Position, spec_outside_band_radius, is_outside_band_radius};
use crate::entities::{ActionTravelTo, Creature, Goal};

verus! {

/// The territory anchor point.
#[derive(Clone, Copy, PartialEq, Eq, Structural, Debug)]
pub struct BandCenter(pub Position);

/// Whether the anchor follows the population or is pinned by an external
/// override. While a manual pin is active the per-tick recomputation is
/// suppressed, so the pin is durable until the mode is set back.
#[derive(Clone, Copy, PartialEq, Eq, Structural, Debug)]
pub enum BandCenterMode {
    Auto,
    Manual(Position),
}

/// Sum of all creature coordinates, for the arithmetic mean.
pub open spec fn spec_position_sum(s: Seq<Creature>) -> (int, int)
    decreases s.len(),
{
    if s.len() == 0 {
        (0, 0)
    } else {
        let rest = spec_position_sum(s.drop_last());
        (rest.0 + s.last().pos.x, rest.1 + s.last().pos.y)
    }
}

/// Where the anchor stands after one update: pinned under a manual
/// override, else the arithmetic mean of all creature positions, and
/// unchanged when no creature exists.
pub open spec fn spec_band_center_after(
    s: Seq<Creature>,
    mode: BandCenterMode,
    prev: Position,
) -> Position {
    match mode {
        BandCenterMode::Manual(p) => p,
        BandCenterMode::Auto => {
            if s.len() == 0 {
                prev
            } else {
                let sum = spec_position_sum(s);
                Position {
                    x: (sum.0 / s.len() as int) as i32,
                    y: (sum.1 / s.len() as int) as i32,
                }
            }
        },
    }
}

/// Recomputes the territory anchor as the arithmetic mean of all
/// creature positions, unless a manual override pins it.
pub fn update_band_center_system(
    creatures: &Vec<Creature>,
    mode: &BandCenterMode,
    center: &mut BandCenter,
)
    requires
        forall|i: int|
            0 <= i < creatures@.len() ==> {
                let p = (#[trigger] creatures@[i]).pos;
                0 <= p.x <= 1000000 && 0 <= p.y <= 1000000
            },
    ensures
        final(center).0 == spec_band_center_after(creatures@, *mode, old(center).0),
{
    match mode {
        BandCenterMode::Manual(p) => {
            center.0 = *p;
        },
        BandCenterMode::Auto => {
            if creatures.len() == 0 {
                return ;
            }
            let mut sx: i128 = 0;
            let mut sy: i128 = 0;
            let mut i: usize = 0;
            while i < creatures.len()
                invariant
                    i <= creatures@.len(),
                    forall|j: int|
                        0 <= j < creatures@.len() ==> {
                            let p = (#[trigger] creatures@[j]).pos;
                            0 <= p.x <= 1000000 && 0 <= p.y <= 1000000
                        },
                    (sx as int, sy as int) == spec_position_sum(creatures@.take(i as int)),
                    0 <= sx <= i * 1000000,
                    0 <= sy <= i * 1000000,
                decreases creatures@.len() - i,
            {
                proof {
                    assert(creatures@.take(i + 1).drop_last() =~= creatures@.take(i as int));
                    assert(creatures@.take(i + 1).last() == creatures@[i as int]);
                }
                sx = sx + creatures[i].pos.x as i128;
                sy = sy + creatures[i].pos.y as i128;
                i = i + 1;
            }
            proof {
                assert(creatures@.take(creatures@.len() as int) =~= creatures@);
            }
            let n = creatures.len() as i128;
            let mx = sx / n;
            let my = sy / n;
            proof {
                assert(0 <= sx as int / n as int <= 1000000 && 0 <= sy as int / n as int
                    <= 1000000) by (nonlinear_arith)
                    requires
                        n as int >= 1,
                        0 <= sx as int <= (n as int) * 1000000,
                        0 <= sy as int <= (n as int) * 1000000,
                ;
            }
            center.0 = Position { x: mx as i32, y: my as i32 };
        },
    }
}

/// What the recall pass leaves a creature as: one that strayed outside
/// the territory while holding any behavioral state is flagged and
/// forced to travel to the anchor (its path is discarded so the new
/// order takes effect); an in-progress eat action is kept, to be
/// resolved on re-entry, while bare intents are dropped. Creatures
/// holding nothing are left to the planner, whose first priority covers
/// them.
pub open spec fn spec_recall(c: Creature, center: Position, radius: i64) -> Creature {
    if !c.outside_band && spec_outside_band_radius(c.pos, center, radius) && !(c.goal is None
        && c.travel is None && c.path is None && c.requires_at is None) {
        Creature {
            outside_band: true,
            travel: Some(ActionTravelTo { destination: center }),
            path: None,
            goal: match c.goal {
                Some(Goal::Eat(a)) => Some(Goal::Eat(a)),
                _ => None,
            },
            ..c
        }
    } else {
        c
    }
}

/// Flags creatures that strayed beyond the territory radius while busy
/// and redirects them toward the anchor, overriding whatever travel was
/// under way.
pub fn territory_recall_system(creatures: Vec<Creature>, center: Position, radius: i64) -> (out:
    Vec<Creature>)
    ensures
        out@.len() == creatures@.len(),
        forall|i: int|
            0 <= i < out@.len() ==> #[trigger] out@[i] == spec_recall(
                creatures@[i],
                center,
                radius,
            ),
{
    let ghost orig = creatures@;
    let mut input = creatures;
    let mut out: Vec<Creature> = Vec::new();
    while input.len() > 0
        invariant
            orig.len() == out@.len() + input@.len(),
            forall|j: int| 0 <= j < input@.len() ==> #[trigger] input@[j] == orig[out@.len() + j],
            forall|j: int|
                0 <= j < out@.len() ==> #[trigger] out@[j] == spec_recall(orig[j], center, radius),
        decreases input@.len(),
    {
        let mut c = input.remove(0);
        let busy = !(c.goal.is_none() && c.travel.is_none() && c.path.is_none()
            && c.requires_at.is_none());
        if !c.outside_band && busy && is_outside_band_radius(c.pos, center, radius) {
            c.outside_band = true;
            c.travel = Some(ActionTravelTo { destination: center });
            c.path = None;
            let keep_eat = match &c.goal {
                Some(Goal::Eat(_)) => true,
                _ => false,
            };
            if !keep_eat {
                c.goal = None;
            }
        }
        out.push(c);
    }
    out
}

/// What the return-to-band resolver leaves a creature as: the intent is
/// consumed, the outside flag raised, and travel to the anchor ordered.
pub open spec fn spec_resolve_return(c: Creature, center: Position) -> Creature {
    if c.goal == Some(Goal::WantsToReturnToBand) {
        Creature {
            goal: None,
            outside_band: true,
            travel: Some(ActionTravelTo { destination: center }),
            ..c
        }
    } else {
        c
    }
}

/// Resolves every wants-to-return-to-band intent into a flagged travel
/// order toward the anchor.
pub fn return_to_band_system(creatures: Vec<Creature>, center: Position) -> (out: Vec<Creature>)
    ensures
        out@.len() == creatures@.len(),
        forall|i: int|
            0 <= i < out@.len() ==> #[trigger] out@[i] == spec_resolve_return(
                creatures@[i],
                center,
            ),
{
    let ghost orig = creatures@;
    let mut input = creatures;
    let mut out: Vec<Creature> = Vec::new();
    while input.len() > 0
        invariant
            orig.len() == out@.len() + input@.len(),
            forall|j: int| 0 <= j < input@.len() ==> #[trigger] input@[j] == orig[out@.len() + j],
            forall|j: int|
                0 <= j < out@.len() ==> #[trigger] out@[j] == spec_resolve_return(orig[j], center),
        decreases input@.len(),
    {
        let mut c = input.remove(0);
        if c.goal == Some(Goal::WantsToReturnToBand) {
            c.goal = None;
            c.outside_band = true;
            c.travel = Some(ActionTravelTo { destination: center });
        }
        out.push(c);
    }
    out
}

/// What re-entry leaves a flagged creature as, once back inside the
/// radius: the flag, travel order, path and positional precondition are
/// all cleared, and a creature that was mid-eat is re-queued to seek
/// food from scratch rather than resuming the abandoned action.
pub open spec fn spec_reentry(c: Creature, center: Position, radius: i64) -> Creature {
    if c.outside_band && !spec_outside_band_radius(c.pos, center, radius) {
        Creature {
            outside_band: false,
            travel: None,
            path: None,
            requires_at: None,
            goal: match c.goal {
                Some(Goal::Eat(_)) => Some(Goal::WantsToEat),
                g => g,
            },
            ..c
        }
    } else {
        c
    }
}

/// Clears the outside flag and the whole recall machinery for creatures
/// that returned within the territory radius.
pub fn check_if_returned_to_band_system(
    creatures: Vec<Creature>,
    center: Position,
    radius: i64,
) -> (out: Vec<Creature>)
    ensures
        out@.len() == creatures@.len(),
        forall|i: int|
            0 <= i < out@.len() ==> #[trigger] out@[i] == spec_reentry(
                creatures@[i],
                center,
                radius,
            ),
{
    let ghost orig = creatures@;
    let mut input = creatures;
    let mut out: Vec<Creature> = Vec::new();
    while input.len() > 0
        invariant
            orig.len() == out@.len() + input@.len(),
            forall|j: int| 0 <= j < input@.len() ==> #[trigger] input@[j] == orig[out@.len() + j],
            forall|j: int|
                0 <= j < out@.len() ==> #[trigger] out@[j] == spec_reentry(orig[j], center, radius),
        decreases input@.len(),
    {
        let mut c = input.remove(0);
        if c.outside_band && !is_outside_band_radius(c.pos, center, radius) {
            c.outside_band = false;
            c.travel = None;
            c.path = None;
            c.requires_at = None;
            let was_eating = match &c.goal {
                Some(Goal::Eat(_)) => true,
                _ => false,
            };
            if was_eating {
                c.goal = Some(Goal::WantsToEat);
            }
        }
        out.push(c);
    }
    out
}

} // verus!
