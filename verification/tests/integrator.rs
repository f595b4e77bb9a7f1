use rkf45::physics::{IntegrationError, PhaseSpaceVector, ThreeBodyHamiltonian, TwoBodyHamiltonian};
use rkf45::rungekutta::{step_controller, IntegrationParams, RungeKuttaIntegrator, SAFETY};

#[test]
fn safety_factor_is_point_nine() {
    assert_eq!(SAFETY, 3865470566);
    assert_eq!(SAFETY, (9 * 4294967296i64) / 10);
}

#[test]
fn tableau_is_the_fehlberg_pair() {
    let ham = TwoBodyHamiltonian::new(4294967296, 6442450944);
    let params = IntegrationParams {
        step_size: 4294967,
        max_step_size: 214748365,
        t0: 0,
        pq0: PhaseSpaceVector::new(
            vec![0, 858993459, 0, -2147483648],
            vec![1288490189, 0, -1717986918, 0],
        ),
        tmax: None,
        eps: 42950,
    };
    let integ = RungeKuttaIntegrator::new(params, ham).unwrap();
    assert_eq!(integ.b, vec![509033161, 0, 2229029420, 2173818198, -773094114, 156180628]);
    assert_eq!(integ.c, vec![1073741824, 1610612736, 3964585196, 4294967296, 2147483648]);
    assert_eq!(integ.d, vec![11930464, 0, -128597852, -125412589, 85899345, 156180628]);
    assert_eq!(integ.a.len(), 5);
    assert_eq!(integ.a[0], vec![1073741824]);
    assert_eq!(integ.a[2], vec![3776912524, -14075450402, 14263123073]);
}

#[test]
fn construction_seeds_the_first_derivative() {
    let ham = TwoBodyHamiltonian::new(4294967296, 6442450944);
    let params = IntegrationParams {
        step_size: 4294967,
        max_step_size: 214748365,
        t0: 0,
        pq0: PhaseSpaceVector::new(
            vec![0, 858993459, 0, -2147483648],
            vec![1288490189, 0, -1717986918, 0],
        ),
        tmax: None,
        eps: 42950,
    };
    let integ = RungeKuttaIntegrator::new(params, ham).unwrap();
    let (t, pq) = integ.state();
    assert_eq!(t, 0);
    assert_eq!(pq.momenta, vec![0, 858993459, 0, -2147483648]);
    assert_eq!(pq.positions, vec![1288490189, 0, -1717986918, 0]);
}

#[test]
fn construction_rejects_wrong_dimension() {
    let ham = TwoBodyHamiltonian::new(4294967296, 6442450944);
    let params = IntegrationParams {
        step_size: 4294967,
        max_step_size: 214748365,
        t0: 0,
        pq0: PhaseSpaceVector::new(vec![0; 6], vec![4294967296; 6]),
        tmax: None,
        eps: 42950,
    };
    match RungeKuttaIntegrator::new(params, ham) {
        Err(e) => assert_eq!(e, IntegrationError::DimensionMismatch),
        Ok(_) => panic!("a six-coordinate state is not two bodies"),
    }
}

#[test]
fn construction_rejects_unequal_sides() {
    let ham = TwoBodyHamiltonian::new(4294967296, 6442450944);
    let params = IntegrationParams {
        step_size: 4294967,
        max_step_size: 214748365,
        t0: 0,
        pq0: PhaseSpaceVector::new(vec![0; 4], vec![4294967296; 3]),
        tmax: None,
        eps: 42950,
    };
    match RungeKuttaIntegrator::new(params, ham) {
        Err(e) => assert_eq!(e, IntegrationError::DimensionMismatch),
        Ok(_) => panic!("momenta and positions must pair up"),
    }
}

#[test]
fn construction_surfaces_singular_start() {
    let ham = TwoBodyHamiltonian::new(4294967296, 6442450944);
    let params = IntegrationParams {
        step_size: 4294967,
        max_step_size: 214748365,
        t0: 0,
        pq0: PhaseSpaceVector::new(vec![0; 4], vec![1288490189, 0, 1288490189, 0]),
        tmax: None,
        eps: 42950,
    };
    match RungeKuttaIntegrator::new(params, ham) {
        Err(e) => assert_eq!(e, IntegrationError::NumericalDivergence),
        Ok(_) => panic!("coincident bodies have no derivative"),
    }
}

#[test]
fn horizon_already_reached_yields_none_and_keeps_state() {
    // tmax == t0: the very first advance returns None and nothing moves
    let ham = TwoBodyHamiltonian::new(4294967296, 6442450944);
    let params = IntegrationParams {
        step_size: 4294967,
        max_step_size: 214748365,
        t0: 12345,
        pq0: PhaseSpaceVector::new(
            vec![0, 858993459, 0, -2147483648],
            vec![1288490189, 0, -1717986918, 0],
        ),
        tmax: Some(12345),
        eps: 42950,
    };
    let mut integ = RungeKuttaIntegrator::new(params, ham).unwrap();
    assert_eq!(integ.next(), Ok(None));
    assert_eq!(integ.next(), Ok(None));
    let (t, pq) = integ.state();
    assert_eq!(t, 12345);
    assert_eq!(pq.momenta, vec![0, 858993459, 0, -2147483648]);
    assert_eq!(pq.positions, vec![1288490189, 0, -1717986918, 0]);
    assert_eq!(integ.params.step_size, 4294967);
}

#[test]
fn one_step_is_exact() {
    // m = 1, k = 1.5, h = 0.001, eps = 1e-5: every committed raw value
    // of the first step is pinned down
    let ham = TwoBodyHamiltonian::new(4294967296, 6442450944);
    let params = IntegrationParams {
        step_size: 4294967,
        max_step_size: 214748365,
        t0: 0,
        pq0: PhaseSpaceVector::new(
            vec![0, 858993459, 0, -2147483648],
            vec![1288490189, 0, -1717986918, 0],
        ),
        tmax: None,
        eps: 42950,
    };
    let mut integ = RungeKuttaIntegrator::new(params, ham).unwrap();
    assert_eq!(integ.next(), Ok(Some(4294967)));
    let (t, pq) = integ.state();
    assert_eq!(t, 4294967);
    assert_eq!(pq.momenta, vec![-5634802, 858991580, 7513069, -2147478953]);
    assert_eq!(pq.positions, vec![1288487371, 858992, -1717983162, -2147482]);
    assert_eq!(integ.params.step_size, 20207678);
    assert_eq!(integ.next(), Ok(Some(24502645)));
    assert_eq!(integ.params.step_size, 93436229);
}

#[test]
fn one_three_body_step_is_exact() {
    let ham = ThreeBodyHamiltonian::new(4294967296, 4294967296);
    let params = IntegrationParams {
        step_size: 4294967,
        max_step_size: 42949673,
        t0: 0,
        pq0: PhaseSpaceVector::new(
            vec![2310502227, 1466550318, 2310502227, 1466550318, -4621004454, -2933100636],
            vec![-4294967296, 0, 4294967296, 0, 0, 0],
        ),
        tmax: None,
        eps: 1288,
    };
    let mut integ = RungeKuttaIntegrator::new(params, ham).unwrap();
    assert_eq!(integ.next(), Ok(Some(4294967)));
    let (t, pq) = integ.state();
    assert_eq!(t, 4294967);
    assert_eq!(
        pq.momenta,
        vec![2315877878, 1466548111, 2305140438, 1466548125, -4621018318, -2933096237],
    );
    assert_eq!(
        pq.positions,
        vec![-4292654108, 1466549, 4297275116, 1466549, -4621009, -2933099],
    );
    assert_eq!(integ.params.step_size, 9691630);
}

#[test]
fn time_grows_by_the_step_in_effect() {
    // each accepted step advances t by exactly the step size that was
    // current when the step began, and t is strictly increasing
    let ham = TwoBodyHamiltonian::new(4294967296, 6442450944);
    let params = IntegrationParams {
        step_size: 4294967,
        max_step_size: 214748365,
        t0: 0,
        pq0: PhaseSpaceVector::new(
            vec![0, 858993459, 0, -2147483648],
            vec![1288490189, 0, -1717986918, 0],
        ),
        tmax: None,
        eps: 42950,
    };
    let mut integ = RungeKuttaIntegrator::new(params, ham).unwrap();
    let mut t_before = 0i64;
    for _ in 0..50 {
        let h_before = integ.params.step_size;
        let t_after = integ.next().unwrap().unwrap();
        assert_eq!(t_after, t_before + h_before);
        assert!(t_after > t_before);
        t_before = t_after;
    }
}

#[test]
fn step_size_stays_under_the_ceiling() {
    // after every accepted step the next step size is positive and
    // never exceeds max_step_size
    let ham = TwoBodyHamiltonian::new(4294967296, 6442450944);
    let params = IntegrationParams {
        step_size: 4294967,
        max_step_size: 214748365,
        t0: 0,
        pq0: PhaseSpaceVector::new(
            vec![0, 858993459, 0, -2147483648],
            vec![1288490189, 0, -1717986918, 0],
        ),
        tmax: None,
        eps: 42950,
    };
    let mut integ = RungeKuttaIntegrator::new(params, ham).unwrap();
    let mut hit_ceiling = false;
    for _ in 0..200 {
        integ.next().unwrap().unwrap();
        let h = integ.params.step_size;
        assert!(0 < h && h <= 214748365);
        if h == 214748365 {
            hit_ceiling = true;
        }
    }
    assert!(hit_ceiling, "this orbit reaches the ceiling");
}

#[test]
fn dimensions_invariant_across_steps() {
    let ham = ThreeBodyHamiltonian::new(4294967296, 4294967296);
    let params = IntegrationParams {
        step_size: 4294967,
        max_step_size: 42949673,
        t0: 0,
        pq0: PhaseSpaceVector::new(
            vec![2310502227, 1466550318, 2310502227, 1466550318, -4621004454, -2933100636],
            vec![-4294967296, 0, 4294967296, 0, 0, 0],
        ),
        tmax: None,
        eps: 1288,
    };
    let mut integ = RungeKuttaIntegrator::new(params, ham).unwrap();
    for _ in 0..25 {
        integ.next().unwrap().unwrap();
        let (_, pq) = integ.state();
        assert_eq!(pq.momenta.len(), 6);
        assert_eq!(pq.positions.len(), 6);
    }
}

#[test]
fn zero_error_estimate_is_fatal() {
    // with no coupling and no momenta every derivative is zero, the
    // embedded error estimate is exactly zero, and the step is fatal
    let ham = TwoBodyHamiltonian::new(4294967296, 0);
    let params = IntegrationParams {
        step_size: 4294967,
        max_step_size: 214748365,
        t0: 0,
        pq0: PhaseSpaceVector::new(vec![0; 4], vec![4294967296, 0, -4294967296, 0]),
        tmax: None,
        eps: 42950,
    };
    let mut integ = RungeKuttaIntegrator::new(params, ham).unwrap();
    assert_eq!(integ.next(), Err(IntegrationError::NumericalDivergence));
    // the failed step commits nothing
    let (t, pq) = integ.state();
    assert_eq!(t, 0);
    assert_eq!(pq.positions, vec![4294967296, 0, -4294967296, 0]);
    assert_eq!(integ.params.step_size, 4294967);
}

#[test]
fn controller_shrinks_on_large_error() {
    // err == eps: the next step loses the safety factor
    assert_eq!(step_controller(4294967, 42950, 42950, 214748365), 3865470);
    // err far above eps: the next step shrinks hard
    assert_eq!(step_controller(4294967, 42950, 16 * 42950, 214748365), 2220128);
    assert!(step_controller(4294967, 42950, 16 * 42950, 214748365) < 4294967);
}

#[test]
fn controller_grows_toward_the_ceiling() {
    // nearly zero error, moderate step: growth below the ceiling
    assert_eq!(step_controller(4294967, 42950, 1, 214748365), 32643368);
    // nearly zero error, large step: the ceiling caps the growth
    assert_eq!(step_controller(85899346, 42950, 1, 214748365), 214748365);
}
