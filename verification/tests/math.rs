use monkey_fire::components::Timer;
use monkey_fire::geom::Vec2;
use monkey_fire::geom::collide;
use monkey_fire::geom::cos_milli;
use monkey_fire::geom::isqrt_ceil;
use monkey_fire::geom::sin_milli;

#[test]
fn isqrt_ceil_exact_values() {
    assert_eq!(isqrt_ceil(0), 0);
    assert_eq!(isqrt_ceil(1), 1);
    assert_eq!(isqrt_ceil(2), 2);
    assert_eq!(isqrt_ceil(4), 2);
    assert_eq!(isqrt_ceil(5), 3);
    assert_eq!(isqrt_ceil(9), 3);
    assert_eq!(isqrt_ceil(10), 4);
    assert_eq!(isqrt_ceil(40_000_000_000_000_000), 200_000_000);
}

#[test]
fn sine_cardinal_points() {
    assert_eq!(sin_milli(0), 0);
    assert_eq!(sin_milli(900), 1000);
    assert_eq!(sin_milli(1800), 0);
    assert_eq!(sin_milli(2700), -1000);
    assert_eq!(cos_milli(0), 1000);
    assert_eq!(cos_milli(900), 0);
    assert_eq!(cos_milli(1800), -1000);
    assert_eq!(cos_milli(2700), 0);
}

#[test]
fn sine_stays_scaled() {
    for a in 0..3600 {
        let s = sin_milli(a);
        assert!((-1000..=1000).contains(&s));
    }
}

#[test]
fn collide_uses_half_extents() {
    let size = Vec2 { x: 100, y: 100 };
    // Centres 99 apart on x: |dx|*2 = 198 < 200, boxes overlap.
    assert!(collide(Vec2 { x: 0, y: 0 }, size, Vec2 { x: 99, y: 0 }, size));
    // Centres exactly 100 apart: edges touch, no overlap.
    assert!(!collide(Vec2 { x: 0, y: 0 }, size, Vec2 { x: 100, y: 0 }, size));
    // Overlap must hold on both axes.
    assert!(!collide(Vec2 { x: 0, y: 0 }, size, Vec2 { x: 50, y: 150 }, size));
    assert!(collide(Vec2 { x: 0, y: 0 }, size, Vec2 { x: 50, y: 99 }, size));
}

#[test]
fn timer_fires_on_period() {
    let mut t = Timer::from_ticks(3);
    assert!(!t.tick());
    assert!(!t.tick());
    assert!(t.tick());
    assert_eq!(t.elapsed, 0);
    assert!(!t.tick());
}
