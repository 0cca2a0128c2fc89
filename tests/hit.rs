use raytracer::hit::{closest_hit, nearest_root, param_bits, param_key, Roots, SceneHit};

fn key(t: f64) -> u64 {
    param_key(t.to_bits())
}

fn roots(a: f64, b: f64) -> Option<Roots> {
    Some(Roots::from_pair(key(a), key(b)))
}

#[test]
fn keys_follow_double_order() {
    let values = [
        f64::NEG_INFINITY,
        -1e300,
        -2.5,
        -1.0,
        -1e-300,
        -0.0,
        0.0,
        1e-300,
        0.001,
        1.0,
        2.5,
        1e300,
        f64::INFINITY,
    ];
    for w in values.windows(2) {
        assert!(key(w[0]) < key(w[1]), "{} {}", w[0], w[1]);
    }
}

#[test]
fn keys_round_trip() {
    for t in [0.0, -0.0, 1.5, -3.25, f64::INFINITY, f64::NEG_INFINITY, 1e-310] {
        assert_eq!(f64::from_bits(param_bits(key(t))).to_bits(), t.to_bits());
    }
    assert_eq!(param_key(0), 0x8000_0000_0000_0000);
    assert_eq!(param_key(0x8000_0000_0000_0000), 0x7fff_ffff_ffff_ffff);
    assert_eq!(param_bits(0x8000_0000_0000_0000), 0);
}

#[test]
fn from_pair_orders_roots() {
    let r = Roots::from_pair(9, 4);
    assert_eq!(r, Roots { near: 4, far: 9 });
    let r = Roots::from_pair(4, 9);
    assert_eq!(r, Roots { near: 4, far: 9 });
}

#[test]
fn nearest_root_prefers_near_root() {
    assert_eq!(nearest_root(roots(1.0, 3.0), key(0.001), key(f64::INFINITY)), Some(key(1.0)));
}

#[test]
fn nearest_root_falls_back_to_far_root() {
    // ray origin inside the sphere: the near root lies behind it
    assert_eq!(nearest_root(roots(-1.0, 3.0), key(0.001), key(f64::INFINITY)), Some(key(3.0)));
}

#[test]
fn nearest_root_misses_outside_interval() {
    assert_eq!(nearest_root(roots(-3.0, -1.0), key(0.001), key(f64::INFINITY)), None);
    assert_eq!(nearest_root(roots(5.0, 6.0), key(0.001), key(4.0)), None);
    assert_eq!(nearest_root(None, key(0.001), key(4.0)), None);
}

#[test]
fn nearest_root_interval_is_open_below_closed_above() {
    assert_eq!(nearest_root(roots(1.0, 2.0), key(1.0), key(2.0)), Some(key(2.0)));
    assert_eq!(nearest_root(roots(1.0, 2.0), key(0.5), key(1.0)), Some(key(1.0)));
    assert_eq!(nearest_root(roots(1.0, 2.0), key(2.0), key(3.0)), None);
}

#[test]
fn closest_hit_of_empty_scene_is_none() {
    assert_eq!(closest_hit(&vec![], key(0.001), key(f64::INFINITY)), None);
}

#[test]
fn closest_hit_takes_minimum_over_primitives() {
    let scene = vec![roots(4.0, 6.0), None, roots(2.0, 3.0), roots(5.0, 7.0)];
    let h = closest_hit(&scene, key(0.001), key(f64::INFINITY));
    assert_eq!(h, Some(SceneHit { index: 2, t: key(2.0) }));
}

#[test]
fn closest_hit_agrees_with_individual_scan() {
    let scene = vec![
        roots(4.0, 6.0),
        roots(-1.0, 2.5),
        None,
        roots(-5.0, -2.0),
        roots(3.0, 3.5),
        roots(2.5, 9.0),
    ];
    let t_min = key(0.001);
    let t_max = key(f64::INFINITY);
    let mut best: Option<u64> = None;
    for c in scene.iter() {
        if let Some(t) = nearest_root(*c, t_min, t_max) {
            best = Some(match best {
                Some(b) if b <= t => b,
                _ => t,
            });
        }
    }
    let h = closest_hit(&scene, t_min, t_max).unwrap();
    assert_eq!(Some(h.t), best);
    // equal parameters: the later primitive is reported
    assert_eq!(h.index, 5);
    assert_eq!(f64::from_bits(param_bits(h.t)), 2.5);
}

#[test]
fn closest_hit_respects_upper_bound() {
    let scene = vec![roots(4.0, 6.0), roots(5.0, 7.0)];
    assert_eq!(closest_hit(&scene, key(0.001), key(3.0)), None);
    assert_eq!(
        closest_hit(&scene, key(0.001), key(5.5)),
        Some(SceneHit { index: 0, t: key(4.0) })
    );
}
