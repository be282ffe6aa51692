//! The tracker: owns the collection of tracks, turns at most one sensor
//! plot per tick into a consistent, pruned track set, and answers
//! nearest-target and lookup queries.
//!
//! `ingest` advances every track one coast step, then lets the first
//! track (in storage order) whose gate strictly contains the plot claim
//! it — greedy and order-dependent by design, given the one-plot-per-tick
//! sensor.  An unclaimed plot spawns a new tentative track.  Afterwards
//! every track whose ticks-since-contact has reached the staleness
//! window is removed.

use vstd::prelude::*;
use crate::vec2::Vec2I;
use crate::gate::{TrackGate, gate_contains};
use crate::config::{Config, PLOT_POS_LIMIT, PLOT_VEL_LIMIT, GATE_RADIUS_LIMIT};
use crate::track::{Track, TrackClass, ScanPlot, TRACK_VEL_CAP, TRACK_ANCHOR_BOUND,
    TRACK_POS_CAP, TRACK_AGE_CAP};
use crate::num::{div_t, abs_i, lemma_div_t_abs};

verus! {

/// Ticks are capped far below `u64::MAX` so the clock can always
/// advance; at 60 ticks per second this is billions of years.
pub const TICK_CAP: u64 = 0x4000_0000_0000_0000;

/// Error for a query against an unknown track id.  Recoverable: callers
/// treat it as "no target".
#[derive(Clone, Copy, Debug, PartialEq, Eq, Structural)]
pub struct LookupFailure;

/// Does `t`'s gate claim a plot at `p`?
pub open spec fn track_claims(t: Track, p: Vec2I) -> bool {
    gate_contains(t.gate.center, t.gate.radius as int, p)
}

/// Index of the first track whose gate contains `p`, or -1 if none does.
pub open spec fn claim_index(s: Seq<Track>, p: Vec2I) -> int
    decreases s.len(),
{
    if s.len() == 0 {
        -1
    } else if track_claims(s[0], p) {
        0
    } else {
        let r = claim_index(s.drop_first(), p);
        if r == -1 {
            -1
        } else {
            r + 1
        }
    }
}

/// At-most-one association: within one tick a plot is claimed by the
/// single least-indexed track whose gate contains it — every other track
/// either has a gate that misses the plot or stands behind that first
/// claimant, so no two tracks ever claim the same plot.
pub proof fn lemma_at_most_one_association(s: Seq<Track>, p: Vec2I)
    ensures
        -1 <= claim_index(s, p) < s.len(),
        claim_index(s, p) == -1 ==> (forall|i: int| 0 <= i < s.len()
            ==> !track_claims(#[trigger] s[i], p)),
        claim_index(s, p) >= 0 ==> track_claims(s[claim_index(s, p)], p),
        claim_index(s, p) >= 0 ==> (forall|j: int| 0 <= j < claim_index(s, p)
            ==> !track_claims(#[trigger] s[j], p)),
    decreases s.len(),
{
    if s.len() > 0 && !track_claims(s[0], p) {
        lemma_at_most_one_association(s.drop_first(), p);
        let k = claim_index(s, p);
        if k == -1 {
            assert forall|i: int| 0 <= i < s.len() implies !track_claims(#[trigger] s[i], p) by {
                if i > 0 {
                    assert(s.drop_first()[i - 1] == s[i]);
                }
            }
        } else {
            assert(s.drop_first()[k - 1] == s[k]);
            assert forall|j: int| 0 <= j < k implies !track_claims(#[trigger] s[j], p) by {
                if j > 0 {
                    assert(s.drop_first()[j - 1] == s[j]);
                }
            }
        }
    }
}

/// A least gate match found by a forward scan is `claim_index`.
pub proof fn lemma_claim_index_of_first(s: Seq<Track>, p: Vec2I, k: int)
    requires
        0 <= k < s.len(),
        track_claims(s[k], p),
        forall|j: int| 0 <= j < k ==> !track_claims(#[trigger] s[j], p),
    ensures
        claim_index(s, p) == k,
    decreases s.len(),
{
    if k > 0 {
        assert(forall|i: int| 0 <= i < s.len() - 1 ==> #[trigger] s.drop_first()[i] == s[i + 1]);
        lemma_claim_index_of_first(s.drop_first(), p, k - 1);
    }
}

/// A scan with no gate match means `claim_index` is -1.
pub proof fn lemma_claim_index_of_none(s: Seq<Track>, p: Vec2I)
    requires
        forall|j: int| 0 <= j < s.len() ==> !track_claims(#[trigger] s[j], p),
    ensures
        claim_index(s, p) == -1,
    decreases s.len(),
{
    if s.len() > 0 {
        assert(forall|i: int| 0 <= i < s.len() - 1 ==> #[trigger] s.drop_first()[i] == s[i + 1]);
        lemma_claim_index_of_none(s.drop_first(), p);
    }
}

/// The track set after eviction: exactly those tracks whose
/// ticks-since-contact is still below the staleness window, in order.
pub open spec fn prune_spec(s: Seq<Track>, now: u64, window: u32) -> Seq<Track>
    decreases s.len(),
{
    if s.len() == 0 {
        Seq::empty()
    } else {
        let rest = prune_spec(s.drop_last(), now, window);
        if s.last().age_at(now) < window {
            rest.push(s.last())
        } else {
            rest
        }
    }
}

/// Staleness eviction boundary: a track stands in the pruned set exactly
/// when it stood in the input and its ticks-since-contact is still
/// strictly below the window — kept through `window - 1` ticks without a
/// match, evicted the tick the window is reached.
pub proof fn lemma_staleness_eviction_boundary(s: Seq<Track>, now: u64, window: u32, t: Track)
    ensures
        prune_spec(s, now, window).contains(t) <==> (s.contains(t) && t.age_at(now) < window),
    decreases s.len(),
{
    if s.len() > 0 {
        lemma_staleness_eviction_boundary(s.drop_last(), now, window, t);
        assert(s.contains(t) <==> (s.drop_last().contains(t) || s.last() == t)) by {
            if s.contains(t) {
                let i = choose|i: int| 0 <= i < s.len() && s[i] == t;
                if i < s.len() - 1 {
                    assert(s.drop_last()[i] == t);
                }
            }
            if s.drop_last().contains(t) {
                let i = choose|i: int| 0 <= i < s.len() - 1 && s.drop_last()[i] == t;
                assert(s[i] == t);
            }
        }
        let pruned = prune_spec(s, now, window);
        let rest = prune_spec(s.drop_last(), now, window);
        if s.last().age_at(now) < window {
            assert(pruned.contains(t) <==> (rest.contains(t) || s.last() == t)) by {
                if pruned.contains(t) {
                    let i = choose|i: int| 0 <= i < pruned.len() && pruned[i] == t;
                    if i < pruned.len() - 1 {
                        assert(rest[i] == t);
                    }
                }
                if rest.contains(t) {
                    let i = choose|i: int| 0 <= i < rest.len() && rest[i] == t;
                    assert(pruned[i] == t);
                }
                if s.last() == t {
                    assert(pruned[pruned.len() - 1] == t);
                }
            }
        }
    }
}

/// A track after one coast step: position advanced by one truncated
/// velocity tick, gate recentered, everything else unchanged.
pub open spec fn spec_coast(t: Track, cfg: Config) -> Track {
    let px = (t.position.x + t.step_x(cfg)) as i64;
    let py = (t.position.y + t.step_y(cfg)) as i64;
    Track {
        position: Vec2I { x: px, y: py },
        gate: TrackGate { center: Vec2I { x: px, y: py }, radius: t.gate.radius },
        ..t
    }
}

/// A track after consuming a claimed plot: the one-step differencing
/// smoother, with the last-contact tick refreshed and the association
/// window recentered.
pub open spec fn spec_smooth(t: Track, p: ScanPlot, cfg: Config, now: u64) -> Track {
    let tps = cfg.ticks_per_second as int;
    let ax = div_t(t.step_x(cfg) - div_t(p.velocity.x as int, tps), 2);
    let ay = div_t(t.step_y(cfg) - div_t(p.velocity.y as int, tps), 2);
    let px = (t.position.x + ax) as i64;
    let py = (t.position.y + ay) as i64;
    let vx = ((t.step_x(cfg) + ax) * tps) as i64;
    let vy = ((t.step_y(cfg) + ay) * tps) as i64;
    Track {
        position: Vec2I { x: px, y: py },
        velocity: Vec2I { x: vx, y: vy },
        gate: TrackGate { center: Vec2I { x: px, y: py }, radius: t.gate.radius },
        last_contact_tick: now,
        pending_plot: None,
        ..t
    }
}

/// A fresh tentative track seeded from an unclaimed plot.
pub open spec fn spec_spawn(p: ScanPlot, id: u64, now: u64, cfg: Config) -> Track {
    Track {
        id,
        position: p.position,
        velocity: p.velocity,
        class: TrackClass::Tentative,
        gate: TrackGate { center: p.position, radius: cfg.gate_radius },
        last_contact_tick: now,
        pending_plot: None,
    }
}

/// Every track coasted one step.
pub open spec fn spec_coast_all(s: Seq<Track>, cfg: Config) -> Seq<Track> {
    Seq::new(s.len(), |i: int| spec_coast(s[i], cfg))
}

/// Squared Euclidean distance between a track and a point.
pub open spec fn dist2(t: Track, p: Vec2I) -> int {
    (t.position.x - p.x) * (t.position.x - p.x) + (t.position.y - p.y) * (t.position.y - p.y)
}

/// Every pruned track is one of the input tracks.
pub proof fn lemma_prune_element(s: Seq<Track>, now: u64, window: u32, i: int)
    requires
        0 <= i < prune_spec(s, now, window).len(),
    ensures
        prune_spec(s, now, window)[i].age_at(now) < window,
        exists|j: int| 0 <= j < s.len() && s[j] == prune_spec(s, now, window)[i],
    decreases s.len(),
{
    let pruned = prune_spec(s, now, window);
    lemma_staleness_eviction_boundary(s, now, window, pruned[i]);
    assert(pruned.contains(pruned[i]));
    let j = choose|j: int| 0 <= j < s.len() && s[j] == pruned[i];
    assert(s[j] == pruned[i]);
}

/// Coasting keeps a track well-formed: the position moves by exactly one
/// more truncated velocity step, so the drift equation of `wf_at` is
/// preserved with the age grown by one.
proof fn lemma_coast_wf(t: Track, now: u64, cfg: Config)
    requires
        cfg.wf(),
        now >= 1,
        t.wf_at((now - 1) as u64, cfg),
        t.age_at((now - 1) as u64) < cfg.staleness_window,
    ensures
        spec_coast(t, cfg).wf_at(now, cfg),
        spec_coast(t, cfg).age_at(now) <= cfg.staleness_window,
        spec_coast(t, cfg).position.x == t.position.x + t.step_x(cfg),
        spec_coast(t, cfg).position.y == t.position.y + t.step_y(cfg),
        spec_coast(t, cfg).step_x(cfg) == t.step_x(cfg),
        spec_coast(t, cfg).step_y(cfg) == t.step_y(cfg),
{
    t.lemma_wf_pos_bound((now - 1) as u64, cfg);
    lemma_div_t_abs(t.velocity.x as int, cfg.ticks_per_second as int);
    lemma_div_t_abs(t.velocity.y as int, cfg.ticks_per_second as int);
    let d = t.age_at((now - 1) as u64);
    let sx = t.step_x(cfg);
    let sy = t.step_y(cfg);
    assert((d + 1) * sx == d * sx + sx) by (nonlinear_arith);
    assert((d + 1) * sy == d * sy + sy) by (nonlinear_arith);
}

/// Consuming a claimed plot keeps a track well-formed.  A gate match
/// anchors the coasted position inside the arena-plus-gate box, the
/// drift equation then caps the coast step, and with it the smoothed
/// velocity and position stay inside the track caps.
proof fn lemma_smooth_wf(t: Track, p: ScanPlot, now: u64, cfg: Config)
    requires
        cfg.wf(),
        p.wf(),
        t.wf_at(now, cfg),
        t.age_at(now) >= 1,
        track_claims(t, p.position),
    ensures
        spec_smooth(t, p, cfg, now).wf_at(now, cfg),
        spec_smooth(t, p, cfg, now).age_at(now) == 0,
        spec_smooth(t, p, cfg, now).id == t.id,
        spec_smooth(t, p, cfg, now).class == t.class,
        spec_smooth(t, p, cfg, now).pending_plot is None,
{
    let tps = cfg.ticks_per_second as int;
    let d = t.age_at(now);
    let sx = t.step_x(cfg);
    let sy = t.step_y(cfg);
    // A gate match means the window centered on the coasted position
    // holds an in-arena plot, so the position is anchored near the origin.
    assert(abs_i(t.position.x as int) <= PLOT_POS_LIMIT + GATE_RADIUS_LIMIT / 2);
    assert(abs_i(t.position.y as int) <= PLOT_POS_LIMIT + GATE_RADIUS_LIMIT / 2);
    // The drift equation then caps the coast step itself.
    let step_cap = PLOT_POS_LIMIT + GATE_RADIUS_LIMIT / 2 + TRACK_ANCHOR_BOUND;
    assert(abs_i(d * sx) <= step_cap);
    assert(abs_i(sx) <= abs_i(d * sx)) by (nonlinear_arith)
        requires
            d >= 1,
    ;
    assert(abs_i(d * sy) <= step_cap);
    assert(abs_i(sy) <= abs_i(d * sy)) by (nonlinear_arith)
        requires
            d >= 1,
    ;
    lemma_div_t_abs(p.velocity.x as int, tps);
    lemma_div_t_abs(p.velocity.y as int, tps);
    let pvx = div_t(p.velocity.x as int, tps);
    let pvy = div_t(p.velocity.y as int, tps);
    lemma_div_t_abs(sx - pvx, 2);
    lemma_div_t_abs(sy - pvy, 2);
    let ax = div_t(sx - pvx, 2);
    let ay = div_t(sy - pvy, 2);
    assert(abs_i(ax) <= (step_cap + PLOT_VEL_LIMIT) / 2);
    assert(abs_i(ay) <= (step_cap + PLOT_VEL_LIMIT) / 2);
    // New velocity: |(step + accel) * tps| stays under the velocity cap.
    assert(abs_i((sx + ax) * tps) <= 600 * (step_cap + (step_cap + PLOT_VEL_LIMIT) / 2))
        by (nonlinear_arith)
        requires
            1 <= tps <= 600,
            abs_i(sx) <= step_cap,
            abs_i(ax) <= (step_cap + PLOT_VEL_LIMIT) / 2,
            step_cap == PLOT_POS_LIMIT + GATE_RADIUS_LIMIT / 2 + TRACK_ANCHOR_BOUND,
    ;
    assert(abs_i((sy + ay) * tps) <= 600 * (step_cap + (step_cap + PLOT_VEL_LIMIT) / 2))
        by (nonlinear_arith)
        requires
            1 <= tps <= 600,
            abs_i(sy) <= step_cap,
            abs_i(ay) <= (step_cap + PLOT_VEL_LIMIT) / 2,
            step_cap == PLOT_POS_LIMIT + GATE_RADIUS_LIMIT / 2 + TRACK_ANCHOR_BOUND,
    ;
    // New position: anchored, with age zero.
    let u = spec_smooth(t, p, cfg, now);
    assert(u.age_at(now) * u.step_x(cfg) == 0) by (nonlinear_arith)
        requires
            u.age_at(now) == 0,
    ;
    assert(u.age_at(now) * u.step_y(cfg) == 0) by (nonlinear_arith)
        requires
            u.age_at(now) == 0,
    ;
}

/// A freshly spawned track is well-formed: seeded inside the arena with
/// an in-range velocity and age zero.
proof fn lemma_spawn_wf(p: ScanPlot, id: u64, now: u64, cfg: Config)
    requires
        cfg.wf(),
        p.wf(),
    ensures
        spec_spawn(p, id, now, cfg).wf_at(now, cfg),
        spec_spawn(p, id, now, cfg).age_at(now) == 0,
{
    let t = spec_spawn(p, id, now, cfg);
    lemma_div_t_abs(p.velocity.x as int, cfg.ticks_per_second as int);
    lemma_div_t_abs(p.velocity.y as int, cfg.ticks_per_second as int);
    assert(t.age_at(now) * t.step_x(cfg) == 0) by (nonlinear_arith)
        requires
            t.age_at(now) == 0,
    ;
    assert(t.age_at(now) * t.step_y(cfg) == 0) by (nonlinear_arith)
        requires
            t.age_at(now) == 0,
    ;
}

/// Pruning keeps ids pairwise distinct.
proof fn lemma_prune_distinct(s: Seq<Track>, now: u64, window: u32)
    requires
        forall|i: int, j: int| 0 <= i < j < s.len()
            ==> #[trigger] s[i].id != #[trigger] s[j].id,
    ensures
        forall|a: int, b: int| 0 <= a < b < prune_spec(s, now, window).len()
            ==> #[trigger] prune_spec(s, now, window)[a].id
                != #[trigger] prune_spec(s, now, window)[b].id,
    decreases s.len(),
{
    if s.len() > 0 {
        let head = s.drop_last();
        assert(forall|i: int, j: int| 0 <= i < j < head.len()
            ==> #[trigger] head[i].id != #[trigger] head[j].id) by {
            assert(forall|i: int| 0 <= i < head.len() ==> #[trigger] head[i] == s[i]);
        }
        lemma_prune_distinct(head, now, window);
        let pruned = prune_spec(s, now, window);
        let rest = prune_spec(head, now, window);
        if s.last().age_at(now) < window {
            assert forall|a: int, b: int| 0 <= a < b < pruned.len() implies
                pruned[a].id != pruned[b].id by {
                if b < pruned.len() - 1 {
                    assert(pruned[a] == rest[a] && pruned[b] == rest[b]);
                } else {
                    assert(pruned[b] == s.last());
                    assert(pruned[a] == rest[a]);
                    lemma_staleness_eviction_boundary(head, now, window, rest[a]);
                    let j = choose|j: int| 0 <= j < head.len() && head[j] == rest[a];
                    assert(s[j] == rest[a]);
                    assert(s[j].id != s[s.len() - 1].id);
                }
            }
        }
    }
}

/// The tracker: a track arena indexed by stable integer ids, the
/// monotonic id counter, the tick clock and the contact-recency counter.
pub struct Tracker {
    /// The live tracks, in storage (association) order.
    pub tracks: Vec<Track>,
    /// Next id to assign; ids are unique and never reused.
    pub next_id: u64,
    /// The tracker's tick clock, advanced once per `ingest`.
    pub tick: u64,
    /// Ticks since the last ingested plot.
    pub ticks_since_contact: u64,
    /// Ambient constants, fixed at construction.
    pub config: Config,
}

impl Tracker {
    /// Everything the invariant says of one track slot.
    pub open spec fn track_ok(self, i: int) -> bool {
        let t = self.tracks@[i];
        &&& t.wf_at(self.tick, self.config)
        &&& t.age_at(self.tick) < self.config.staleness_window
        &&& t.pending_plot is None
        &&& t.id < self.next_id
    }

    /// The tracker invariant: a well-formed configuration, a bounded
    /// clock, well-formed fresh tracks and unique ids.
    pub open spec fn wf(self) -> bool {
        &&& self.config.wf()
        &&& self.tick <= TICK_CAP
        &&& self.next_id <= self.tick + 1
        &&& self.ticks_since_contact <= self.tick
        &&& forall|i: int| 0 <= i < self.tracks@.len() ==> #[trigger] self.track_ok(i)
        &&& forall|i: int, j: int| 0 <= i < j < self.tracks@.len()
            ==> #[trigger] self.tracks@[i].id != #[trigger] self.tracks@[j].id
    }

    /// An empty tracker with the given configuration.
    pub fn new(config: Config) -> (t: Tracker)
        requires
            config.wf(),
        ensures
            t.wf(),
            t.tracks@.len() == 0,
            t.next_id == 0,
            t.tick == 0,
            t.ticks_since_contact == 0,
            t.config == config,
    {
        Tracker { tracks: Vec::new(), next_id: 0, tick: 0, ticks_since_contact: 0, config }
    }

    /// True exactly when at least one track exists.
    pub fn has_contacts(&self) -> (r: bool)
        ensures
            r == (self.tracks@.len() > 0),
    {
        self.tracks.len() > 0
    }

    /// Look a track up by id.  Fails with `LookupFailure` exactly when
    /// the id is unknown; callers treat that as "no target".
    pub fn get(&self, id: u64) -> (r: Result<Track, LookupFailure>)
        ensures
            match r {
                Ok(t) => exists|i: int| 0 <= i < self.tracks@.len()
                    && #[trigger] self.tracks@[i] == t && t.id == id,
                Err(_) => forall|i: int| 0 <= i < self.tracks@.len()
                    ==> #[trigger] self.tracks@[i].id != id,
            },
    {
        let mut i: usize = 0;
        while i < self.tracks.len()
            invariant
                0 <= i <= self.tracks@.len(),
                forall|j: int| 0 <= j < i ==> #[trigger] self.tracks@[j].id != id,
            decreases self.tracks@.len() - i,
        {
            if self.tracks[i].id == id {
                return Ok(self.tracks[i]);
            }
            i += 1;
        }
        Err(LookupFailure)
    }

    /// True exactly when some track carries this id.
    pub fn still_tracking(&self, id: u64) -> (r: bool)
        ensures
            r == exists|i: int| 0 <= i < self.tracks@.len()
                && #[trigger] self.tracks@[i].id == id,
    {
        let mut i: usize = 0;
        while i < self.tracks.len()
            invariant
                0 <= i <= self.tracks@.len(),
                forall|j: int| 0 <= j < i ==> #[trigger] self.tracks@[j].id != id,
            decreases self.tracks@.len() - i,
        {
            if self.tracks[i].id == id {
                return true;
            }
            i += 1;
        }
        false
    }

    /// The exact tracker transition `ingest` performs: the clock
    /// advances one tick, every track coasts, the plot (if any) is
    /// claimed by the first gate match or spawns a tentative track, and
    /// stale tracks are evicted.
    pub open spec fn ingest_post(pre: Tracker, plot: Option<ScanPlot>, post: Tracker) -> bool {
        let cfg = pre.config;
        let now = (pre.tick + 1) as u64;
        let coasted = spec_coast_all(pre.tracks@, cfg);
        &&& post.config == cfg
        &&& post.tick == pre.tick + 1
        &&& match plot {
            None => {
                &&& post.next_id == pre.next_id
                &&& post.ticks_since_contact == pre.ticks_since_contact + 1
                &&& post.tracks@ == prune_spec(coasted, now, cfg.staleness_window)
            },
            Some(p) => {
                &&& post.ticks_since_contact == 0
                &&& (if claim_index(coasted, p.position) >= 0 {
                    let k = claim_index(coasted, p.position);
                    &&& post.next_id == pre.next_id
                    &&& post.tracks@ == prune_spec(
                        coasted.update(k, spec_smooth(coasted[k], p, cfg, now)),
                        now, cfg.staleness_window)
                } else {
                    &&& post.next_id == pre.next_id + 1
                    &&& post.tracks@ == prune_spec(
                        coasted.push(spec_spawn(p, pre.next_id, now, cfg)),
                        now, cfg.staleness_window)
                })
            },
        }
    }

    /// One tick of the tracker: advance the clock, coast every track,
    /// let the first track whose gate contains the plot claim it (an
    /// unclaimed plot spawns a tentative track), then evict every track
    /// whose ticks-since-contact has reached the staleness window.
    #[verifier::rlimit(100)]
    pub fn ingest(&mut self, plot: Option<ScanPlot>)
        requires
            old(self).wf(),
            old(self).tick < TICK_CAP,
            plot matches Some(p) ==> p.wf(),
        ensures
            final(self).wf(),
            Tracker::ingest_post(*old(self), plot, *final(self)),
    {
        let ghost s0 = self.tracks@;
        let ghost tick0 = self.tick;
        let cfg = self.config;
        let now = self.tick + 1;
        self.tick = now;

        // Phase 1: every track coasts one step.
        let n = self.tracks.len();
        proof {
            assert forall|j: int| 0 <= j < n implies (#[trigger] s0[j]).wf_at(tick0, cfg)
                && s0[j].age_at(tick0) < cfg.staleness_window
                && s0[j].pending_plot is None
                && s0[j].id < old(self).next_id by {
                assert(old(self).track_ok(j));
            }
        }
        let mut i: usize = 0;
        while i < n
            invariant
                self.config == cfg,
                self.tick == now,
                self.next_id == old(self).next_id,
                self.ticks_since_contact == old(self).ticks_since_contact,
                cfg.wf(),
                n == self.tracks@.len(),
                s0.len() == n,
                i <= n,
                now == tick0 + 1,
                tick0 < TICK_CAP,
                forall|j: int| 0 <= j < n ==> (#[trigger] s0[j]).wf_at(tick0, cfg),
                forall|j: int| 0 <= j < n
                    ==> (#[trigger] s0[j]).age_at(tick0) < cfg.staleness_window,
                forall|j: int| 0 <= j < n ==> (#[trigger] s0[j]).pending_plot is None,
                forall|j: int| i <= j < n ==> self.tracks@[j] == s0[j],
                forall|j: int| 0 <= j < i ==> self.tracks@[j] == spec_coast(s0[j], cfg),
            decreases n - i,
        {
            let mut t = self.tracks[i];
            proof {
                assert(s0[i as int].wf_at(tick0, cfg));
                t.lemma_wf_pos_bound(tick0, cfg);
            }
            t.update(cfg, now);
            proof {
                lemma_coast_wf(s0[i as int], now, cfg);
                assert(t == spec_coast(s0[i as int], cfg));
            }
            self.tracks.set(i, t);
            i += 1;
        }

        let ghost cs = self.tracks@;
        proof {
            assert(cs =~= spec_coast_all(s0, cfg));
            assert forall|j: int| 0 <= j < n implies (#[trigger] cs[j]).wf_at(now, cfg)
                && cs[j].age_at(now) <= cfg.staleness_window
                && cs[j].pending_plot is None
                && cs[j].id == s0[j].id
                && cs[j].last_contact_tick <= tick0 by {
                lemma_coast_wf(s0[j], now, cfg);
            }
        }

        // Phase 2: association of the plot, if any.
        match plot {
            None => {
                self.ticks_since_contact = self.ticks_since_contact + 1;
            },
            Some(p) => {
                self.ticks_since_contact = 0;
                let len = self.tracks.len();
                let mut idx: usize = 0;
                let mut found: usize = len;
                while idx < len
                    invariant
                        cfg.wf(),
                        p.wf(),
                        len == cs.len(),
                        self.tracks@ == cs,
                        idx <= len,
                        found <= len,
                        forall|j: int| 0 <= j < len ==> (#[trigger] cs[j]).wf_at(now, cfg),
                        found == len ==> forall|j: int| 0 <= j < idx
                            ==> !track_claims(#[trigger] cs[j], p.position),
                        found < len ==> found < idx
                            && track_claims(cs[found as int], p.position)
                            && (forall|j: int| 0 <= j < found
                                ==> !track_claims(#[trigger] cs[j], p.position)),
                    decreases len - idx,
                {
                    if found == len {
                        let t = self.tracks[idx];
                        proof {
                            assert(cs[idx as int].wf_at(now, cfg));
                            t.lemma_wf_pos_bound(now, cfg);
                        }
                        if t.check_gate(p.position) {
                            found = idx;
                        }
                    }
                    idx += 1;
                }
                if found < len {
                    let mut t = self.tracks[found];
                    proof {
                        assert(cs[found as int].wf_at(now, cfg));
                        t.lemma_wf_pos_bound(now, cfg);
                    }
                    t.push_plot(p);
                    t.update(cfg, now);
                    proof {
                        lemma_claim_index_of_first(cs, p.position, found as int);
                        lemma_smooth_wf(cs[found as int], p, now, cfg);
                        assert(t == spec_smooth(cs[found as int], p, cfg, now));
                    }
                    self.tracks.set(found, t);
                } else {
                    proof {
                        lemma_claim_index_of_none(cs, p.position);
                    }
                    let id = self.next_id;
                    self.next_id = id + 1;
                    let t = Track {
                        id,
                        position: p.position,
                        velocity: p.velocity,
                        class: TrackClass::Tentative,
                        gate: TrackGate { center: p.position, radius: cfg.gate_radius },
                        last_contact_tick: now,
                        pending_plot: None,
                    };
                    proof {
                        lemma_spawn_wf(p, id, now, cfg);
                        assert(t == spec_spawn(p, id, now, cfg));
                    }
                    self.tracks.push(t);
                }
            },
        }

        let ghost s1 = self.tracks@;
        proof {
            assert forall|j: int| 0 <= j < s1.len() implies (#[trigger] s1[j]).wf_at(now, cfg)
                && s1[j].pending_plot is None
                && s1[j].last_contact_tick <= now
                && s1[j].id < self.next_id by {
                match plot {
                    None => {
                        assert(s1[j] == cs[j]);
                    },
                    Some(p) => {
                        let k = claim_index(cs, p.position);
                        if k >= 0 {
                            lemma_smooth_wf(cs[k], p, now, cfg);
                            assert(s1 == cs.update(k, spec_smooth(cs[k], p, cfg, now)));
                            if j != k {
                                assert(s1[j] == cs[j]);
                            }
                        } else {
                            lemma_spawn_wf(p, old(self).next_id, now, cfg);
                            assert(s1 == cs.push(spec_spawn(p, old(self).next_id, now, cfg)));
                            if j < s1.len() - 1 {
                                assert(s1[j] == cs[j]);
                            }
                        }
                    },
                }
            }
            assert forall|a: int, b: int| 0 <= a < b < s1.len() implies
                s1[a].id != s1[b].id by {
                match plot {
                    None => {
                        assert(s1[a].id == cs[a].id && s1[b].id == cs[b].id);
                    },
                    Some(p) => {
                        let k = claim_index(cs, p.position);
                        if k >= 0 {
                            assert(s1[a].id == cs[a].id && s1[b].id == cs[b].id);
                        } else {
                            assert(s1[a].id == cs[a].id && cs[a].id == s0[a].id);
                            if b == s1.len() - 1 {
                                assert(s1[b].id == old(self).next_id);
                            } else {
                                assert(s1[b].id == cs[b].id);
                            }
                        }
                    },
                }
            }
        }

        // Phase 3: evict every track whose staleness reached the window.
        let window = self.config.staleness_window;
        let m = self.tracks.len();
        let mut kept: Vec<Track> = Vec::new();
        let mut j: usize = 0;
        while j < m
            invariant
                self.config == cfg,
                self.tick == now,
                window == cfg.staleness_window,
                m == s1.len(),
                self.tracks@ == s1,
                j <= m,
                forall|q: int| 0 <= q < m ==> (#[trigger] s1[q]).last_contact_tick <= now,
                kept@ == prune_spec(s1.take(j as int), now, window),
            decreases m - j,
        {
            let t = self.tracks[j];
            if now - t.last_contact_tick < window as u64 {
                kept.push(t);
            }
            proof {
                assert(s1.take(j as int + 1).drop_last() =~= s1.take(j as int));
                assert(s1.take(j as int + 1).last() == s1[j as int]);
            }
            j += 1;
        }
        proof {
            assert(s1.take(m as int) =~= s1);
        }
        self.tracks = kept;

        proof {
            let pruned = prune_spec(s1, now, window);
            lemma_prune_distinct(s1, now, window);
            assert forall|q: int| 0 <= q < pruned.len() implies #[trigger] self.track_ok(q) by {
                lemma_prune_element(s1, now, window, q);
                let jj = choose|jj: int| 0 <= jj < s1.len() && s1[jj] == pruned[q];
                assert(s1[jj].wf_at(now, cfg));
            }
        }
    }

    /// What `nearest` promises of its result: `None` exactly on an
    /// empty tracker, otherwise the id of a track whose Euclidean
    /// distance to the query point is minimal (tie-break unspecified).
    pub open spec fn nearest_ok(self, point: Vec2I, r: Option<u64>) -> bool {
        &&& (r is None <==> self.tracks@.len() == 0)
        &&& (r matches Some(id) ==> exists|i: int| 0 <= i < self.tracks@.len()
            && #[trigger] self.tracks@[i].id == id
            && (forall|j: int| 0 <= j < self.tracks@.len()
                ==> dist2(self.tracks@[i], point)
                    <= dist2(#[trigger] self.tracks@[j], point)))
    }

    /// Id of a track at minimum Euclidean distance from `point`
    /// (tie-break unspecified; this implementation keeps the earliest).
    /// `None` exactly when the tracker holds no tracks — callers must
    /// check emptiness first.
    pub fn nearest(&self, point: Vec2I) -> (r: Option<u64>)
        requires
            self.wf(),
            -PLOT_POS_LIMIT <= point.x <= PLOT_POS_LIMIT,
            -PLOT_POS_LIMIT <= point.y <= PLOT_POS_LIMIT,
        ensures
            self.nearest_ok(point, r),
    {
        if self.tracks.len() == 0 {
            return None;
        }
        let mut best: usize = 0;
        let mut best_d = self.distance2(0, point);
        let mut i: usize = 1;
        while i < self.tracks.len()
            invariant
                self.wf(),
                -PLOT_POS_LIMIT <= point.x <= PLOT_POS_LIMIT,
                -PLOT_POS_LIMIT <= point.y <= PLOT_POS_LIMIT,
                0 < self.tracks@.len(),
                0 <= best < i <= self.tracks@.len(),
                best_d == dist2(self.tracks@[best as int], point),
                forall|j: int| 0 <= j < i
                    ==> best_d <= dist2(#[trigger] self.tracks@[j], point),
            decreases self.tracks@.len() - i,
        {
            let d = self.distance2(i, point);
            if d < best_d {
                best = i;
                best_d = d;
            }
            i += 1;
        }
        Some(self.tracks[best].id)
    }

    /// Squared distance from track `i` to `point`, in `i128`.
    fn distance2(&self, i: usize, point: Vec2I) -> (d: i128)
        requires
            self.wf(),
            i < self.tracks@.len(),
            -PLOT_POS_LIMIT <= point.x <= PLOT_POS_LIMIT,
            -PLOT_POS_LIMIT <= point.y <= PLOT_POS_LIMIT,
        ensures
            d == dist2(self.tracks@[i as int], point),
    {
        let t = self.tracks[i];
        proof {
            assert(self.track_ok(i as int));
            t.lemma_wf_pos_bound(self.tick, self.config);
        }
        let diff = Vec2I { x: t.position.x - point.x, y: t.position.y - point.y };
        diff.norm2()
    }
}

} // verus!
