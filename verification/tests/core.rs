use rocket_core::geometry::{collides_at, wrap_coord, Point, Size, Vector};
use rocket_core::gun::Gun;
use rocket_core::input::{Actions, InputController, Key};
use rocket_core::timeout_queue::{Timeout, TimeoutQueue};
use rocket_core::timer::Timer;
use rocket_core::trig::{cos_milli, isqrt, normalize_angle, sin_milli};
use rocket_core::util::fast_retain;

#[test]
fn test_fast_retain() {
    let mut xs = vec![42; 100];
    fast_retain(&mut xs, |&x| x < 42);
    assert_eq!(xs.len(), 0);
}

#[test]
fn fast_retain_keeps_matching_elements() {
    let mut xs = vec![1, 2, 3, 4, 5, 6];
    fast_retain(&mut xs, |&x| x % 2 == 0);
    let mut kept = xs.clone();
    kept.sort();
    assert_eq!(kept, vec![2, 4, 6]);
}

#[test]
fn circle_collision_is_symmetric() {
    let a = Point { x: 1000, y: 2000 };
    let b = Point { x: 4000, y: 6000 };
    assert_eq!(collides_at(&a, 3000, &b, 2500), collides_at(&b, 2500, &a, 3000));
    assert_eq!(collides_at(&a, 100, &b, 100), collides_at(&b, 100, &a, 100));
}

#[test]
fn circle_collides_with_itself_when_radius_positive() {
    let p = Point { x: 12_345, y: -678 };
    assert!(collides_at(&p, 1, &p, 1));
    assert!(collides_at(&p, 5000, &p, 5000));
}

#[test]
fn tangent_circles_do_not_collide() {
    // centres 10 000 apart, radii summing to exactly 10 000
    let a = Point { x: 0, y: 0 };
    let b = Point { x: 10_000, y: 0 };
    assert!(!collides_at(&a, 4000, &b, 6000));
    assert!(collides_at(&a, 4000, &b, 6001));
}

#[test]
fn advancing_a_full_width_wraps_back() {
    let size = Size::new(1_000_000, 800_000);
    let mut v = Vector { position: Point { x: 300_000, y: 400_000 }, direction: 0 };
    v.advance_wrapping(1_000_000, &size);
    assert_eq!(v.position.x, 300_000);
    assert_eq!(v.position.y, 400_000);
    assert_eq!(v.direction, 0);
}

#[test]
fn wrap_coord_folds_into_bounds() {
    assert_eq!(wrap_coord(-5, 10), 5);
    assert_eq!(wrap_coord(15, 10), 5);
    assert_eq!(wrap_coord(0, 10), 0);
    assert_eq!(wrap_coord(-10, 10), 0);
}

#[test]
fn trig_exact_values() {
    assert_eq!(sin_milli(0), 0);
    assert_eq!(sin_milli(30_000), 500);
    assert_eq!(sin_milli(90_000), 1000);
    assert_eq!(sin_milli(180_000), 0);
    assert_eq!(sin_milli(270_000), -1000);
    assert_eq!(cos_milli(0), 1000);
    assert_eq!(cos_milli(90_000), 0);
    assert_eq!(cos_milli(180_000), -1000);
}

#[test]
fn normalize_angle_folds() {
    assert_eq!(normalize_angle(360_000), 0);
    assert_eq!(normalize_angle(-30_000), 330_000);
    assert_eq!(normalize_angle(725_000), 5000);
}

#[test]
fn isqrt_brackets() {
    assert_eq!(isqrt(0), 0);
    assert_eq!(isqrt(15), 3);
    assert_eq!(isqrt(16), 4);
    assert_eq!(isqrt(26_214_400_000_000), 5_120_000);
}

#[test]
fn gun_overheats_after_forty_shots() {
    let mut gun = Gun::new();
    for _ in 0..39 {
        gun.heat_up();
    }
    assert!(gun.is_available());
    gun.heat_up();
    assert!(!gun.is_available());
    assert_eq!(gun.temperature, 1000);
}

#[test]
fn overheated_gun_recovers_after_cooling() {
    let mut gun = Gun::new();
    for _ in 0..40 {
        gun.heat_up();
    }
    assert!(!gun.is_available());
    // the overheat rate sheds the full temperature in 2500 ms
    gun.cool_down(2500);
    assert!(gun.is_available());
    assert_eq!(gun.temperature, 0);
}

#[test]
fn gun_cools_naturally() {
    let mut gun = Gun::new();
    for _ in 0..4 {
        gun.heat_up();
    }
    assert_eq!(gun.temperature, 100);
    gun.cool_down(100);
    assert_eq!(gun.temperature, 80);
    assert!(gun.is_available());
}

#[test]
fn timer_fires_at_most_once_per_interval() {
    let mut timer = Timer::new(100);
    assert!(timer.update(150));
    // a second poll less than an interval later must not fire
    assert!(!timer.update(200));
    // but after the interval has fully elapsed it fires again
    assert!(timer.update(251));
}

#[test]
fn timer_does_not_fire_at_exact_interval() {
    let mut timer = Timer::new(100);
    assert!(!timer.update(100));
    assert!(timer.update(101));
}

#[test]
fn timeout_queue_pops_in_time_order() {
    let mut q = TimeoutQueue::new();
    q.push(5000, Timeout::RemovePowerup);
    q.push(2000, Timeout::ShowGameOverScreen);
    q.push(8000, Timeout::RemovePowerup);
    assert_eq!(q.peek(), Some(2000));
    assert_eq!(q.pop(), Some(Timeout::ShowGameOverScreen));
    assert_eq!(q.peek(), Some(5000));
    assert_eq!(q.pop(), Some(Timeout::RemovePowerup));
    assert_eq!(q.peek(), Some(8000));
    assert_eq!(q.pop(), Some(Timeout::RemovePowerup));
    assert_eq!(q.peek(), None);
    assert_eq!(q.pop(), None);
}

#[test]
fn timeout_queue_keeps_equal_times() {
    let mut q = TimeoutQueue::new();
    q.push(1000, Timeout::RemovePowerup);
    q.push(1000, Timeout::ShowGameOverScreen);
    // the earlier-pushed entry with the equal time stays in front
    assert_eq!(q.pop(), Some(Timeout::RemovePowerup));
    assert_eq!(q.pop(), Some(Timeout::ShowGameOverScreen));
}

#[test]
fn input_controller_tracks_keys() {
    let mut input = InputController::new();
    let a: Actions = input.actions();
    assert!(!a.rotate_left && !a.rotate_right && !a.boost && !a.shoot);
    input.key_press(Key::Left);
    input.key_press(Key::Space);
    assert!(input.actions().rotate_left);
    assert!(input.actions().shoot);
    input.key_release(Key::Left);
    input.key_press(Key::Up);
    assert!(!input.actions().rotate_left);
    assert!(input.actions().boost);
}
