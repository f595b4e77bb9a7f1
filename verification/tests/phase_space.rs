use rkf45::physics::{IntegrationError, PhaseSpaceVector};

#[test]
fn new_keeps_coordinates() {
    let v = PhaseSpaceVector::new(vec![1, 2], vec![3, 4]);
    assert_eq!(v.momenta, vec![1, 2]);
    assert_eq!(v.positions, vec![3, 4]);
    assert_eq!(v.dim(), 2);
}

#[test]
fn add_elementwise() {
    let a = PhaseSpaceVector::new(vec![1, 2], vec![10, 20]);
    let b = PhaseSpaceVector::new(vec![100, 200], vec![-10, -20]);
    let s = a.add(&b).unwrap();
    assert_eq!(s.momenta, vec![101, 202]);
    assert_eq!(s.positions, vec![0, 0]);
}

#[test]
fn add_rejects_unequal_dimensions() {
    let a = PhaseSpaceVector::new(vec![1, 2], vec![10, 20]);
    let b = PhaseSpaceVector::new(vec![100], vec![-10]);
    match a.add(&b) {
        Err(e) => assert_eq!(e, IntegrationError::DimensionMismatch),
        Ok(_) => panic!("mismatched dimensions must be rejected"),
    }
}

#[test]
fn add_reports_overflow_as_divergence() {
    let a = PhaseSpaceVector::new(vec![i64::MAX], vec![0]);
    let b = PhaseSpaceVector::new(vec![1], vec![0]);
    match a.add(&b) {
        Err(e) => assert_eq!(e, IntegrationError::NumericalDivergence),
        Ok(_) => panic!("overflow must surface"),
    }
}

#[test]
fn scale_elementwise() {
    // 0.5 * (1.0, -1.0) == (0.5, -0.5)
    let a = PhaseSpaceVector::new(vec![4294967296], vec![-4294967296]);
    let s = a.scale(2147483648).unwrap();
    assert_eq!(s.momenta, vec![2147483648]);
    assert_eq!(s.positions, vec![-2147483648]);
}

#[test]
fn scale_reports_overflow_as_divergence() {
    let a = PhaseSpaceVector::new(vec![i64::MAX], vec![0]);
    match a.scale(i64::MAX) {
        Err(e) => assert_eq!(e, IntegrationError::NumericalDivergence),
        Ok(_) => panic!("overflow must surface"),
    }
}

#[test]
fn particle_views_pair_up_coordinates() {
    let v = PhaseSpaceVector::new(vec![1, 2, 3, 4], vec![5, 6, 7, 8]);
    assert_eq!(v.particle_momenta(), vec![(1, 2), (3, 4)]);
    assert_eq!(v.particle_positions(), vec![(5, 6), (7, 8)]);
}

#[test]
fn duplicate_is_identical() {
    let v = PhaseSpaceVector::new(vec![1, 2], vec![3, 4]);
    let w = v.duplicate();
    assert_eq!(w.momenta, v.momenta);
    assert_eq!(w.positions, v.positions);
}
