use rkf45::physics::{
    Hamiltonian, IntegrationError, PhaseSpaceVector, ThreeBodyHamiltonian, TwoBodyHamiltonian,
};

#[test]
fn two_body_counts_two_particles() {
    let h = TwoBodyHamiltonian::new(4294967296, 6442450944);
    assert_eq!(h.num_particles(), 2);
}

#[test]
fn three_body_counts_three_particles() {
    let h = ThreeBodyHamiltonian::new(4294967296, 4294967296);
    assert_eq!(h.num_particles(), 3);
}

#[test]
fn two_body_derivative_exact() {
    // m = 1, k = 1.5, p = (0, 0.2, 0, -0.5), q = (0.3, 0, -0.4, 0)
    let h = TwoBodyHamiltonian::new(4294967296, 6442450944);
    let pq = PhaseSpaceVector::new(
        vec![0, 858993459, 0, -2147483648],
        vec![1288490189, 0, -1717986918, 0],
    );
    let d = h.eom(0, &pq).unwrap();
    assert_eq!(d.momenta, vec![-5634796755, 0, 7513062336, 0]);
    assert_eq!(d.positions, vec![0, 858993459, 0, -2147483648]);
}

#[test]
fn three_body_derivative_exact() {
    // m = k = 1, the figure-eight-style symmetric start
    let h = ThreeBodyHamiltonian::new(4294967296, 4294967296);
    let pq = PhaseSpaceVector::new(
        vec![2310502227, 1466550318, 2310502227, 1466550318, -4621004454, -2933100636],
        vec![-4294967296, 0, 4294967296, 0, 0, 0],
    );
    let d = h.eom(0, &pq).unwrap();
    assert_eq!(d.momenta, vec![5368709120, 0, -5368709120, 0, 0, 0]);
    assert_eq!(
        d.positions,
        vec![2310502227, 1466550318, 2310502227, 1466550318, -4621004454, -2933100636],
    );
}

#[test]
fn three_body_forces_cancel() {
    // Newton's third law: with the shared mass, the three momentum
    // derivatives sum to (almost exactly) zero; floor rounding leaves at
    // most a few raw units per axis.
    let h = ThreeBodyHamiltonian::new(4294967296, 4294967296);
    let pq = PhaseSpaceVector::new(
        vec![0, 0, 0, 0, 0, 0],
        vec![1288490189, 858993459, -1717986918, 429496730, 214748365, -3006477107],
    );
    let d = h.eom(0, &pq).unwrap();
    let fx = d.momenta[0] + d.momenta[2] + d.momenta[4];
    let fy = d.momenta[1] + d.momenta[3] + d.momenta[5];
    assert!(fx.abs() <= 4, "x forces leave {}", fx);
    assert!(fy.abs() <= 4, "y forces leave {}", fy);
}

#[test]
fn two_body_wrong_dimension_is_mismatch() {
    let h = TwoBodyHamiltonian::new(4294967296, 6442450944);
    let pq = PhaseSpaceVector::new(vec![0; 6], vec![4294967296; 6]);
    match h.eom(0, &pq) {
        Err(e) => assert_eq!(e, IntegrationError::DimensionMismatch),
        Ok(_) => panic!("six coordinates are not a two-body state"),
    }
}

#[test]
fn two_body_coincident_particles_diverge() {
    let h = TwoBodyHamiltonian::new(4294967296, 6442450944);
    let pq = PhaseSpaceVector::new(vec![0; 4], vec![1288490189, 0, 1288490189, 0]);
    match h.eom(0, &pq) {
        Err(e) => assert_eq!(e, IntegrationError::NumericalDivergence),
        Ok(_) => panic!("the singular separation must surface"),
    }
}

#[test]
fn three_body_coincident_particles_diverge() {
    let h = ThreeBodyHamiltonian::new(4294967296, 4294967296);
    let pq = PhaseSpaceVector::new(vec![0; 6], vec![0; 6]);
    match h.eom(0, &pq) {
        Err(e) => assert_eq!(e, IntegrationError::NumericalDivergence),
        Ok(_) => panic!("the singular separation must surface"),
    }
}

#[test]
fn two_body_zero_mass_diverges() {
    let h = TwoBodyHamiltonian::new(0, 6442450944);
    let pq = PhaseSpaceVector::new(
        vec![0, 858993459, 0, -2147483648],
        vec![1288490189, 0, -1717986918, 0],
    );
    match h.eom(0, &pq) {
        Err(e) => assert_eq!(e, IntegrationError::NumericalDivergence),
        Ok(_) => panic!("division by a zero mass must surface"),
    }
}
