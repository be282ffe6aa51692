//! Tracks, gates and the tracker: the coast law, the differencing
//! smoother, boundary-exclusive gate membership, greedy single
//! association and the staleness eviction boundary.

use intercept::config::Config;
use intercept::gate::TrackGate;
use intercept::track::{Track, TrackClass, ScanPlot};
use intercept::tracker::{Tracker, LookupFailure};
use intercept::vec2::Vec2I;

fn plot_at(x: i64, y: i64, vx: i64, vy: i64, tick: u64) -> ScanPlot {
    ScanPlot {
        position: Vec2I::new(x, y),
        velocity: Vec2I::new(vx, vy),
        rssi: 0,
        snr: 0,
        tick,
    }
}

fn bare_track(id: u64, x: i64, y: i64, vx: i64, vy: i64) -> Track {
    Track {
        id,
        position: Vec2I::new(x, y),
        velocity: Vec2I::new(vx, vy),
        class: TrackClass::Tentative,
        gate: TrackGate::new(Vec2I::new(x, y), 50_000),
        last_contact_tick: 0,
        pending_plot: None,
    }
}

#[test]
fn coast_law() {
    // With no queued plot: new_position == old_position + old_velocity/60.
    let cfg = Config::standard();
    let mut t = bare_track(0, 1_000_000, 2_000_000, 600_000, -120_000);
    t.update(cfg, 1);
    assert_eq!(t.position, Vec2I::new(1_010_000, 1_998_000));
    assert_eq!(t.velocity, Vec2I::new(600_000, -120_000));
    assert_eq!(t.gate.center, t.position);

    // Sub-tick velocities truncate toward zero in both directions.
    let mut s = bare_track(1, 0, 0, 59, -59);
    s.update(cfg, 1);
    assert_eq!(s.position, Vec2I::new(0, 0));
}

#[test]
fn differencing_filter() {
    // One queued plot: accel = (v/60 - pv/60)/2, v' = (v/60 + accel)*60,
    // position += accel.
    let cfg = Config::standard();
    let mut t = bare_track(0, 1_000_000, 0, 600_000, 0);
    t.push_plot(plot_at(1_000_000, 0, 0, 120_000, 1));
    t.update(cfg, 1);
    // x: vt = 10_000, pvt = 0, accel = 5_000 -> v = 15_000*60, pos += 5_000.
    assert_eq!(t.velocity.x, 900_000);
    assert_eq!(t.position.x, 1_005_000);
    // y: vt = 0, pvt = 2_000, accel = -1_000 -> v = -60_000, pos -= 1_000.
    assert_eq!(t.velocity.y, -60_000);
    assert_eq!(t.position.y, -1_000);
    assert_eq!(t.last_contact_tick, 1);
    assert!(t.pending_plot.is_none());
    assert_eq!(t.gate.center, t.position);
}

#[test]
fn gate_boundary_exclusive() {
    // A point exactly on any gate edge is never inside.
    let g = TrackGate::new(Vec2I::new(0, 0), 50_000);
    assert!(g.point_in_gate(Vec2I::new(0, 0)));
    assert!(g.point_in_gate(Vec2I::new(24_999, 24_999)));
    assert!(!g.point_in_gate(Vec2I::new(25_000, 0)));
    assert!(!g.point_in_gate(Vec2I::new(-25_000, 0)));
    assert!(!g.point_in_gate(Vec2I::new(0, 25_000)));
    assert!(!g.point_in_gate(Vec2I::new(0, -25_000)));
    assert!(!g.point_in_gate(Vec2I::new(25_000, 25_000)));
    // An off-center gate behaves the same way.
    let h = TrackGate::new(Vec2I::new(100_000, -100_000), 10_000);
    assert!(h.point_in_gate(Vec2I::new(100_000, -100_000)));
    assert!(!h.point_in_gate(Vec2I::new(105_000, -100_000)));
    assert!(h.point_in_gate(Vec2I::new(104_999, -100_000)));
}

#[test]
fn gate_setters() {
    let mut g = TrackGate::new(Vec2I::new(0, 0), 50_000);
    g.update_center(Vec2I::new(7, 8));
    assert_eq!(g.center, Vec2I::new(7, 8));
    assert_eq!(g.radius, 50_000);
    g.update_radius(60_000);
    assert_eq!(g.radius, 60_000);
    assert_eq!(g.center, Vec2I::new(7, 8));
}

#[test]
fn spawn_on_unclaimed_plot() {
    let mut tr = Tracker::new(Config::standard());
    assert!(!tr.has_contacts());
    tr.ingest(Some(plot_at(1_000_000, -2_000_000, 30_000, 0, 1)));
    assert!(tr.has_contacts());
    assert_eq!(tr.tracks.len(), 1);
    assert_eq!(tr.tracks[0].id, 0);
    assert_eq!(tr.tracks[0].position, Vec2I::new(1_000_000, -2_000_000));
    assert_eq!(tr.tracks[0].velocity, Vec2I::new(30_000, 0));
    assert!(matches!(tr.tracks[0].class, TrackClass::Tentative));
    assert_eq!(tr.next_id, 1);
    // A second far-away plot spawns a second track with a fresh id.
    tr.ingest(Some(plot_at(5_000_000, 5_000_000, 0, 0, 2)));
    assert_eq!(tr.tracks.len(), 2);
    assert_eq!(tr.tracks[1].id, 1);
    assert_eq!(tr.next_id, 2);
}

#[test]
fn at_most_one_association() {
    // Two tracks whose gates both contain the plot: only the first (in
    // storage order) claims it.
    let mut tr = Tracker::new(Config::standard());
    tr.ingest(Some(plot_at(0, 0, 0, 0, 1)));
    tr.ingest(Some(plot_at(30_000, 0, 0, 0, 2)));
    assert_eq!(tr.tracks.len(), 2);
    // (20_000, 0) is strictly inside both gates (centers 0 and 30_000,
    // half-width 25_000 each).
    tr.ingest(Some(plot_at(20_000, 0, 600_000, 0, 3)));
    assert_eq!(tr.tracks.len(), 2);
    // First track claimed the plot and refreshed its contact tick ...
    assert_eq!(tr.tracks[0].last_contact_tick, 3);
    // ... and ran the differencing smoother against it.
    assert_eq!(tr.tracks[0].velocity.x, -300_000);
    assert_eq!(tr.tracks[0].position.x, -5_000);
    // The second track only coasted.
    assert_eq!(tr.tracks[1].last_contact_tick, 2);
    assert_eq!(tr.tracks[1].velocity.x, 0);
    assert_eq!(tr.tracks[1].position.x, 30_000);
}

#[test]
fn staleness_eviction_boundary() {
    // A track is retained through 29 ticks without a match and evicted
    // exactly at 30.
    let mut tr = Tracker::new(Config::standard());
    tr.ingest(Some(plot_at(0, 0, 0, 0, 1)));
    assert_eq!(tr.tracks.len(), 1);
    for _ in 0..29 {
        tr.ingest(None);
    }
    // 29 ticks without a match: still tracked.
    assert_eq!(tr.tracks.len(), 1);
    assert!(tr.has_contacts());
    // The 30th tick without a match evicts it.
    tr.ingest(None);
    assert_eq!(tr.tracks.len(), 0);
    assert!(!tr.has_contacts());
}

#[test]
fn refreshed_track_survives() {
    // A match inside the window rearms the staleness clock.
    let mut tr = Tracker::new(Config::standard());
    tr.ingest(Some(plot_at(0, 0, 0, 0, 1)));
    for _ in 0..20 {
        tr.ingest(None);
    }
    assert_eq!(tr.tracks.len(), 1);
    // A plot inside the association window refreshes the track.
    tr.ingest(Some(plot_at(1_000, 0, 0, 0, 22)));
    assert_eq!(tr.tracks.len(), 1);
    for _ in 0..29 {
        tr.ingest(None);
    }
    assert_eq!(tr.tracks.len(), 1);
    tr.ingest(None);
    assert_eq!(tr.tracks.len(), 0);
}

#[test]
fn nearest_and_lookup() {
    let mut tr = Tracker::new(Config::standard());
    assert_eq!(tr.nearest(Vec2I::new(0, 0)), None);
    tr.ingest(Some(plot_at(10_000_000, 0, 0, 0, 1)));
    tr.ingest(Some(plot_at(1_000_000, 0, 0, 0, 2)));
    // The second track (id 1) is closer to the origin.
    assert_eq!(tr.nearest(Vec2I::new(0, 0)), Some(1));
    // And the first is closer to a far query point.
    assert_eq!(tr.nearest(Vec2I::new(9_000_000, 0)), Some(0));
    assert!(tr.still_tracking(0));
    assert!(tr.still_tracking(1));
    assert!(!tr.still_tracking(7));
    let t = tr.get(0).unwrap();
    assert_eq!(t.id, 0);
    assert_eq!(tr.get(7), Err(LookupFailure));
}

#[test]
fn ticks_since_contact_counter() {
    let mut tr = Tracker::new(Config::standard());
    tr.ingest(None);
    tr.ingest(None);
    assert_eq!(tr.ticks_since_contact, 2);
    tr.ingest(Some(plot_at(0, 0, 0, 0, 3)));
    assert_eq!(tr.ticks_since_contact, 0);
    tr.ingest(None);
    assert_eq!(tr.ticks_since_contact, 1);
}

#[test]
fn track_geometry_helpers() {
    let t = bare_track(0, 3_000, 4_000, 0, 0);
    assert_eq!(t.distance_from(Vec2I::new(0, 0)), 5_000);
    let dir = t.get_target_direction(Vec2I::new(1_000, 1_000));
    assert_eq!(dir, Vec2I::new(2_000, 3_000));
    assert!(t.check_gate(Vec2I::new(3_000, 4_000)));
    assert!(!t.check_gate(Vec2I::new(30_000, 4_000)));
}

#[test]
fn closing_speed_sign() {
    // A track dead ahead moving away at 100 units/s while we stand
    // still: closing speed is negative (opening).
    let mut t = bare_track(0, 1_000_000, 0, 100_000, 0);
    let opening = t.closing_speed(Vec2I::new(0, 0), Vec2I::new(0, 0));
    assert_eq!(opening, -100_000);
    // Moving toward us: positive closing speed.
    t.velocity = Vec2I::new(-100_000, 0);
    let closing = t.closing_speed(Vec2I::new(0, 0), Vec2I::new(0, 0));
    assert_eq!(closing, 100_000);
}

#[test]
fn edge_plot_spawns_instead_of_associating() {
    // A plot exactly on a track's window edge is outside it, so it
    // spawns a fresh track instead of associating.
    let mut tr = Tracker::new(Config::standard());
    tr.ingest(Some(plot_at(0, 0, 0, 0, 1)));
    assert_eq!(tr.tracks.len(), 1);
    // Half-width is 25_000: the edge itself is excluded.
    tr.ingest(Some(plot_at(25_000, 0, 0, 0, 2)));
    assert_eq!(tr.tracks.len(), 2);
    assert_eq!(tr.tracks[0].last_contact_tick, 1);
    // One milli-unit inside the edge associates.
    let mut tr2 = Tracker::new(Config::standard());
    tr2.ingest(Some(plot_at(0, 0, 0, 0, 1)));
    tr2.ingest(Some(plot_at(24_999, 0, 0, 0, 2)));
    assert_eq!(tr2.tracks.len(), 1);
    assert_eq!(tr2.tracks[0].last_contact_tick, 2);
}
