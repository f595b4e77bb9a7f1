use rkf45::physics::{PhaseSpaceVector, ThreeBodyHamiltonian, TwoBodyHamiltonian};
use rkf45::rungekutta::{IntegrationParams, RungeKuttaIntegrator};

fn as_real(v: i64) -> f64 {
    v as f64 / 4294967296.0
}

#[test]
fn two_body_separation_returns_after_one_period() {
    // m = 1, k = 1.5, p = (0, 0.2, 0, -0.5), q = (0.3, 0, -0.4, 0):
    // the radial period is close to 1.275, so integrating to the
    // horizon 1.27 ends within one step of a separation maximum, and
    // the separation must be back at its initial 0.7 within tolerance
    let ham = TwoBodyHamiltonian::new(4294967296, 6442450944);
    let params = IntegrationParams {
        step_size: 4294967,
        max_step_size: 214748365,
        t0: 0,
        pq0: PhaseSpaceVector::new(
            vec![0, 858993459, 0, -2147483648],
            vec![1288490189, 0, -1717986918, 0],
        ),
        tmax: Some(5454608466),
        eps: 42950,
    };
    let mut integ = RungeKuttaIntegrator::new(params, ham).unwrap();
    let mut steps = 0u32;
    loop {
        match integ.next() {
            Ok(Some(_)) => steps += 1,
            Ok(None) => break,
            Err(e) => panic!("diverged after {} steps: {:?}", steps, e),
        }
    }
    let (t, pq) = integ.state();
    assert!(as_real(t) >= 1.27);
    let sep0 = 0.7f64;
    let dx = as_real(pq.positions[0]) - as_real(pq.positions[2]);
    let dy = as_real(pq.positions[1]) - as_real(pq.positions[3]);
    let sep = (dx * dx + dy * dy).sqrt();
    assert!(
        (sep - sep0).abs() < 1e-3,
        "separation {} strays from {} after one period",
        sep,
        sep0,
    );
}

#[test]
fn three_body_time_reversal_returns_home() {
    // the symmetric initial condition p = (v1, v2, v1, v2, -2v1, -2v2),
    // q = (-1, 0, 1, 0, 0, 0) with v1 = 0.5379557207, v2 = 0.3414578545
    // lies on a known periodic choreography; running forward for two
    // time units, reversing all momenta, and running forward for the
    // same span must bring the positions back to the start
    let p0 = vec![2310502227i64, 1466550318, 2310502227, 1466550318, -4621004454, -2933100636];
    let q0 = vec![-4294967296i64, 0, 4294967296, 0, 0, 0];
    let forward = IntegrationParams {
        step_size: 4294967,
        max_step_size: 42949673,
        t0: 0,
        pq0: PhaseSpaceVector::new(p0.clone(), q0.clone()),
        tmax: Some(8589934592),
        eps: 1288,
    };
    let ham = ThreeBodyHamiltonian::new(4294967296, 4294967296);
    let mut integ = RungeKuttaIntegrator::new(forward, ham).unwrap();
    loop {
        match integ.next() {
            Ok(Some(_)) => (),
            Ok(None) => break,
            Err(e) => panic!("forward run diverged: {:?}", e),
        }
    }
    let (t1, mid) = integ.state();
    let reversed: Vec<i64> = mid.momenta.iter().map(|v| -v).collect();
    let positions = mid.positions.clone();
    let back = IntegrationParams {
        step_size: 4294967,
        max_step_size: 42949673,
        t0: 0,
        pq0: PhaseSpaceVector::new(reversed, positions),
        tmax: Some(t1),
        eps: 1288,
    };
    let ham2 = ThreeBodyHamiltonian::new(4294967296, 4294967296);
    let mut integ2 = RungeKuttaIntegrator::new(back, ham2).unwrap();
    loop {
        match integ2.next() {
            Ok(Some(_)) => (),
            Ok(None) => break,
            Err(e) => panic!("return run diverged: {:?}", e),
        }
    }
    let (_, end) = integ2.state();
    let mut dist2 = 0.0f64;
    for i in 0..6 {
        let d = as_real(end.positions[i]) - as_real(q0[i]);
        dist2 += d * d;
    }
    assert!(
        dist2.sqrt() < 0.01,
        "positions end {} away from the start",
        dist2.sqrt(),
    );
}
