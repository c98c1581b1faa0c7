use perpetual::config::{
    codes_from_constraints, constraints_from_codes, copy_features, distinct_features, ConfigError, Constraint,
    MissingNodeTreatment, Objective,
};
use perpetual::matrix::{Matrix, ShapeError};

#[test]
fn matrix_checks_its_shape() {
    let data = vec![1, 2, 3, 4, 5, 6];
    assert_eq!(Matrix::new(&data, 4, 2).err(), Some(ShapeError { expected: 8, found: 6 }));
    assert!(Matrix::new(&data, usize::MAX, 2).is_err());
    let m = Matrix::new(&data, 2, 3).unwrap();
    assert_eq!((m.rows(), m.cols()), (2, 3));
    assert_eq!(*m.get(1, 0), 4);
    assert_eq!(*m.get(0, 2), 3);
    assert_eq!(m.row(1), &[4, 5, 6]);
    assert_eq!(m.as_slice(), &data[..]);
}

#[test]
fn empty_matrix_is_accepted() {
    let data: Vec<u8> = vec![];
    let m = Matrix::new(&data, 0, 5).unwrap();
    assert_eq!(m.rows(), 0);
}

#[test]
fn names_read_back() {
    for o in [
        Objective::LogLoss,
        Objective::SquaredLoss,
        Objective::QuantileLoss,
        Objective::HuberLoss,
        Objective::AdaptiveHuberLoss,
    ] {
        assert_eq!(Objective::parse(&o.name()), Ok(o));
    }
    for t in [
        MissingNodeTreatment::Unassigned,
        MissingNodeTreatment::AssignToParent,
        MissingNodeTreatment::AverageLeafWeight,
        MissingNodeTreatment::AverageNodeWeight,
    ] {
        assert_eq!(MissingNodeTreatment::parse(&t.name()), Ok(t));
    }
    assert_eq!(Objective::SquaredLoss.name(), "SquaredLoss");
    assert_eq!(MissingNodeTreatment::Unassigned.name(), "None");
    assert_eq!(Objective::parse("squaredloss"), Err(ConfigError::UnknownObjective("squaredloss".to_string())));
}

#[test]
fn constraint_codes_convert_both_ways() {
    let codes = vec![(3, 1), (0, -1), (7, 0)];
    let cs = constraints_from_codes(&codes).unwrap();
    assert_eq!(
        cs,
        vec![(3, Constraint::Positive), (0, Constraint::Negative), (7, Constraint::Unconstrained)]
    );
    assert_eq!(codes_from_constraints(&cs), codes);
    assert_eq!(
        constraints_from_codes(&vec![(1, 0), (2, 2), (3, -2)]),
        Err(ConfigError::BadConstraint { feature: 2, code: 2 })
    );
    assert_eq!(
        constraints_from_codes(&vec![(1, 0), (1, 1), (3, -2)]),
        Err(ConfigError::DuplicateFeature { feature: 1 })
    );
    assert_eq!(Constraint::from_code(2), None);
    assert_eq!(Constraint::Negative.code(), -1);
    assert_eq!(copy_features(&vec![4, 2]), vec![4, 2]);
    assert_eq!(distinct_features(&vec![4, 2, 4, 4, 7, 2]), vec![4, 2, 7]);
}
