//! The engagement state machine and target designation discipline.
//!
//! The operating state is derived each tick: a sensor contact forces
//! `Engaged` (or `OutOfTargetRange` when the designated target fails the
//! range check), a contact-recency counter past its threshold forces
//! `OutOfRadarRange`, anything else is `Searching`; `NoTarget` is only
//! the state before the first tick.  Each state selects sensor-sweep
//! parameters: narrower, closer-focused sweeps while engaged, wide
//! sweeps while searching, maximum-range sweeps when the radar has gone
//! quiet.
//!
//! A designation, once set, is held for a fixed hysteresis window of
//! sticky ticks before the nearest-target query may replace it,
//! preventing thrash between near-equidistant tracks.  If its backing
//! track is destroyed it is cleared and re-acquired immediately,
//! bypassing hysteresis for that recovery.

use vstd::prelude::*;
use crate::vec2::Vec2I;
use crate::config::PLOT_POS_LIMIT;
use crate::tracker::Tracker;
use crate::controller::PI_MILLIRAD;
use crate::num::div_t;

verus! {

/// Operating state of the vehicle, re-derived every tick.
#[derive(Clone, Copy, Debug, PartialEq, Eq, Structural)]
pub enum ShipState {
    NoTarget,
    Searching,
    Engaged,
    OutOfTargetRange,
    OutOfRadarRange,
}

/// The state transition rule: contact forces engagement (or the
/// out-of-target-range variant when the range check fails), a stale
/// recency counter forces the maximum-range sweep state, otherwise the
/// vehicle searches.
pub open spec fn next_state_spec(has_contacts: bool, ticks_since_contact: u64,
    recency_threshold: u32, target_in_range: bool) -> ShipState {
    if has_contacts {
        if target_in_range {
            ShipState::Engaged
        } else {
            ShipState::OutOfTargetRange
        }
    } else if ticks_since_contact > recency_threshold {
        ShipState::OutOfRadarRange
    } else {
        ShipState::Searching
    }
}

/// Select the next operating state.
pub fn next_state(has_contacts: bool, ticks_since_contact: u64, recency_threshold: u32,
    target_in_range: bool) -> (s: ShipState)
    ensures
        s == next_state_spec(has_contacts, ticks_since_contact, recency_threshold,
            target_in_range),
{
    if has_contacts {
        if target_in_range {
            ShipState::Engaged
        } else {
            ShipState::OutOfTargetRange
        }
    } else if ticks_since_contact > recency_threshold as u64 {
        ShipState::OutOfRadarRange
    } else {
        ShipState::Searching
    }
}

/// Sensor-sweep parameters for the next tick: how far to step the beam,
/// its width (milli-radians) and the range window (milli-units).
#[derive(Clone, Copy, Debug, PartialEq, Eq, Structural)]
pub struct SweepParams {
    pub heading_step: i64,
    pub beam_width: i64,
    pub min_range: i64,
    pub max_range: i64,
}

/// The sweep each state asks for: the beam steps by its own width every
/// tick; engaged sweeps are narrow (a sixteenth of a turn) and
/// close-focused, searching sweeps standard (an eighth), and a quiet
/// radar sweeps wide (a quarter turn) at maximum range.
pub open spec fn sweep_params_spec(state: ShipState) -> SweepParams {
    match state {
        ShipState::Engaged => SweepParams {
            heading_step: 393,
            beam_width: 393,
            min_range: 25_000,
            max_range: 10_000_000,
        },
        ShipState::OutOfTargetRange => SweepParams {
            heading_step: 785,
            beam_width: 785,
            min_range: 25_000,
            max_range: 1_000_000_000,
        },
        ShipState::Searching => SweepParams {
            heading_step: 785,
            beam_width: 785,
            min_range: 25_000,
            max_range: 50_000_000,
        },
        ShipState::OutOfRadarRange => SweepParams {
            heading_step: 1570,
            beam_width: 1570,
            min_range: 25_000,
            max_range: 1_000_000_000,
        },
        ShipState::NoTarget => SweepParams {
            heading_step: 1570,
            beam_width: 1570,
            min_range: 25_000,
            max_range: 50_000_000,
        },
    }
}

/// Sweep parameters for the current state.
pub fn sweep_params(state: ShipState) -> (r: SweepParams)
    ensures
        r == sweep_params_spec(state),
        0 < r.beam_width <= PI_MILLIRAD,
        0 <= r.min_range < r.max_range,
{
    match state {
        ShipState::Engaged => SweepParams {
            heading_step: 393,
            beam_width: 393,
            min_range: 25_000,
            max_range: 10_000_000,
        },
        ShipState::OutOfTargetRange => SweepParams {
            heading_step: 785,
            beam_width: 785,
            min_range: 25_000,
            max_range: 1_000_000_000,
        },
        ShipState::Searching => SweepParams {
            heading_step: 785,
            beam_width: 785,
            min_range: 25_000,
            max_range: 50_000_000,
        },
        ShipState::OutOfRadarRange => SweepParams {
            heading_step: 1570,
            beam_width: 1570,
            min_range: 25_000,
            max_range: 1_000_000_000,
        },
        ShipState::NoTarget => SweepParams {
            heading_step: 1570,
            beam_width: 1570,
            min_range: 25_000,
            max_range: 50_000_000,
        },
    }
}

/// The target-focus sweep: a beam narrowed by the target's range (one
/// half turn over the floor base-2 logarithm of the range in whole
/// units) with the range window pinched to 70%..110% of the measured
/// distance.  The caller points the beam along the measured bearing.
pub open spec fn focused_sweep_spec(distance: int) -> SweepParams {
    SweepParams {
        heading_step: 0,
        beam_width: (div_t(PI_MILLIRAD as int,
            crate::num::log2_of(div_t(distance, 1000) as nat) as int)) as i64,
        min_range: (distance - div_t(3 * distance, 10)) as i64,
        max_range: (distance + div_t(distance, 10)) as i64,
    }
}

/// Sweep parameters that keep the beam focused on a designated target
/// at the given distance (milli-units).
pub fn focused_sweep(distance: i64) -> (r: SweepParams)
    requires
        4_000 <= distance <= 2_000_000_000,
    ensures
        r == focused_sweep_spec(distance as int),
        0 < r.beam_width <= PI_MILLIRAD,
        0 <= r.min_range < r.max_range,
{
    let units = crate::num::div_i64(distance, 1000);
    let divisor = crate::num::log2_floor(units as u64);
    proof {
        crate::num::lemma_pow2_values();
        crate::num::lemma_log2_of(units as nat, divisor as nat);
        assert(2 <= divisor <= 20) by {
            if divisor < 2 {
                crate::num::lemma_pow2_mono(1, divisor as nat);
            }
            if divisor > 20 {
                crate::num::lemma_pow2_mono(divisor as nat, 21);
            }
        }
        crate::num::lemma_div_t_abs(PI_MILLIRAD as int, divisor as int);
        crate::num::lemma_div_t_abs(3 * (distance as int), 10);
        crate::num::lemma_div_t_abs(distance as int, 10);
        vstd::arithmetic::div_mod::lemma_div_non_zero(PI_MILLIRAD as int, divisor as int);
    }
    let width = crate::num::div_i64(PI_MILLIRAD, divisor as i64);
    let spread = crate::num::div_i64(3 * distance, 10);
    let extra = crate::num::div_i64(distance, 10);
    SweepParams {
        heading_step: 0,
        beam_width: width,
        min_range: distance - spread,
        max_range: distance + extra,
    }
}

/// A single optional reference to one track — by id, resolved through
/// the tracker each use — plus the hysteresis counter.  At most one
/// designation exists per agent.
#[derive(Clone, Copy, Debug, PartialEq, Eq, Structural)]
pub struct Designation {
    /// Id of the designated track, if any.
    pub target_id: Option<u64>,
    /// Ticks left before `nearest` may replace the designation.
    pub sticky_ticks_left: u32,
}

/// Whether `id` is carried by some track of `tr`.
pub open spec fn is_tracked(tr: Tracker, id: u64) -> bool {
    exists|i: int| 0 <= i < tr.tracks@.len() && #[trigger] tr.tracks@[i].id == id
}

impl Designation {
    /// An empty designation.
    pub fn new() -> (d: Designation)
        ensures
            d.target_id is None,
            d.sticky_ticks_left == 0,
    {
        Designation { target_id: None, sticky_ticks_left: 0 }
    }

    /// One tick of the designation discipline.
    ///
    /// Hysteresis: while the designated track is still alive and sticky
    /// ticks remain, the designation is held unchanged — however close
    /// another track may have come — and the counter counts down.  Once
    /// it reaches zero, `nearest` may replace the designation and the
    /// counter is rearmed.  A designation whose backing track was
    /// destroyed is cleared and re-acquired immediately, bypassing
    /// hysteresis for this recovery case.
    pub fn update(&mut self, tracker: &Tracker, own_position: Vec2I)
        requires
            tracker.wf(),
            -PLOT_POS_LIMIT <= own_position.x <= PLOT_POS_LIMIT,
            -PLOT_POS_LIMIT <= own_position.y <= PLOT_POS_LIMIT,
        ensures
            old(self).target_id is Some && is_tracked(*tracker, old(self).target_id.unwrap())
                && old(self).sticky_ticks_left > 0
                ==> final(self).target_id == old(self).target_id
                    && final(self).sticky_ticks_left == old(self).sticky_ticks_left - 1,
            old(self).target_id is Some && is_tracked(*tracker, old(self).target_id.unwrap())
                && old(self).sticky_ticks_left == 0
                ==> tracker.nearest_ok(own_position, final(self).target_id)
                    && final(self).sticky_ticks_left == tracker.config.sticky_ticks,
            (match old(self).target_id {
                Some(id) => !is_tracked(*tracker, id),
                None => true,
            }) ==> {
                &&& tracker.nearest_ok(own_position, final(self).target_id)
                &&& final(self).sticky_ticks_left == tracker.config.sticky_ticks
            },
            final(self).target_id is Some ==> is_tracked(*tracker, final(self).target_id.unwrap()),
    {
        let alive = match self.target_id {
            Some(id) => tracker.still_tracking(id),
            None => false,
        };
        if alive && self.sticky_ticks_left > 0 {
            self.sticky_ticks_left = self.sticky_ticks_left - 1;
        } else {
            let choice = tracker.nearest(own_position);
            proof {
                if let Some(id) = choice {
                    assert(is_tracked(*tracker, id));
                }
            }
            self.target_id = choice;
            self.sticky_ticks_left = tracker.config.sticky_ticks;
        }
    }
}

} // verus!
