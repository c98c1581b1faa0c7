use perpetual::config::{Config, ConfigError, Constraint, MissingNodeTreatment, Objective};
use perpetual::engine::{FitOptions, SingleOutputBooster};
use perpetual::matrix::Matrix;
use perpetual::multi_output::{FitError, LoadError, MultiOutputBooster, PredictError};

/// A stand-in engine: each fit grows one "tree" that moves the score to the
/// mean target; a row's prediction is the sum of the trees plus its first feature.
#[derive(Debug)]
struct MeanBooster {
    trees: Vec<f64>,
    missing: f64,
    cols: Option<usize>,
}

impl SingleOutputBooster for MeanBooster {
    type Value = f64;
    type Error = String;

    fn configured(config: &Config<f64>) -> Self {
        MeanBooster { trees: Vec::new(), missing: config.missing, cols: None }
    }

    fn reconfigure(&mut self, config: &Config<f64>) {
        self.missing = config.missing;
    }

    fn save(&self) -> Vec<u8> {
        let mut out = self.missing.to_le_bytes().to_vec();
        for t in &self.trees {
            out.extend_from_slice(&t.to_le_bytes());
        }
        out
    }

    fn load(bytes: &[u8]) -> Result<Self, String> {
        if bytes.len() < 8 || bytes.len() % 8 != 0 {
            return Err(format!("{} bytes do not hold whole values", bytes.len()));
        }
        let mut values = bytes.chunks(8).map(|c| f64::from_le_bytes(c.try_into().unwrap()));
        let missing = values.next().unwrap();
        Ok(MeanBooster { trees: values.collect(), missing, cols: None })
    }

    fn fit(&mut self, x: &Matrix<f64>, y: &[f64], opts: &FitOptions<f64>) -> Result<(), String> {
        if opts.budget <= 0.0 {
            return Err("no budget".to_string());
        }
        if y.iter().any(|v| v.is_nan()) {
            return Err("target holds NaN".to_string());
        }
        if opts.reset != Some(false) {
            self.trees.clear();
        }
        let mean = y.iter().sum::<f64>() / y.len() as f64;
        let current: f64 = self.trees.iter().sum();
        self.trees.push(mean - current);
        self.cols = Some(x.cols());
        Ok(())
    }

    fn predict(&self, x: &Matrix<f64>, _parallel: bool) -> Result<Vec<f64>, String> {
        if let Some(cols) = self.cols {
            if cols != x.cols() {
                return Err(format!("fitted on {} columns, given {}", cols, x.cols()));
            }
        }
        let score: f64 = self.trees.iter().sum();
        Ok((0..x.rows()).map(|r| score + *x.get(r, 0)).collect())
    }

    fn predict_proba(&self, x: &Matrix<f64>, parallel: bool) -> Result<Vec<f64>, String> {
        Ok(self.predict(x, parallel)?.into_iter().map(|v| 1.0 / (1.0 + (-v).exp())).collect())
    }

    fn base_score(&self) -> f64 {
        0.0
    }

    fn number_of_trees(&self) -> usize {
        self.trees.len()
    }
}

fn collection(n: usize) -> MultiOutputBooster<MeanBooster> {
    collection_with_missing(n, f64::NAN)
}

fn collection_with_missing(n: usize, missing: f64) -> MultiOutputBooster<MeanBooster> {
    MultiOutputBooster::new(
        n,
        "SquaredLoss",
        None,
        vec![(0, 1)],
        false,
        missing,
        true,
        false,
        vec![],
        "AssignToParent",
        0,
    )
    .unwrap()
}

#[test]
fn fit_gives_every_output_trees() {
    let mut c = collection(3);
    let x = vec![1.0, 2.0, 3.0, 4.0, 5.0, 6.0, 7.0, 8.0];
    let y = vec![1.0, 2.0, 3.0, 4.0, 5.0, 6.0, 7.0, 8.0, 9.0, 10.0, 11.0, 12.0];
    c.fit(&x, 4, 2, &y, 1.0, None, None, None, None, None).unwrap();
    assert_eq!(c.number_of_trees(), vec![1, 1, 1]);
}

#[test]
fn predict_layout_is_output_major() {
    let mut c = collection(2);
    let x = vec![0.0, 9.0, 10.0, 9.0, 20.0, 9.0];
    // targets: output 0 has mean 1, output 1 has mean 5
    let y = vec![0.0, 4.0, 1.0, 5.0, 2.0, 6.0];
    c.fit(&x, 3, 2, &y, 1.0, None, None, None, None, None).unwrap();
    let out = c.predict(&x, 3, 2, Some(false)).unwrap();
    assert_eq!(out, vec![1.0, 11.0, 21.0, 5.0, 15.0, 25.0]);
}

#[test]
fn predict_parallel_matches_sequential() {
    let mut c = collection(2);
    let x = vec![0.5, 1.0, 1.5, 2.0];
    let y = vec![3.0, 1.0, 5.0, 2.0];
    c.fit(&x, 2, 2, &y, 1.0, None, None, None, None, None).unwrap();
    assert_eq!(c.predict(&x, 2, 2, Some(true)).unwrap(), c.predict(&x, 2, 2, Some(false)).unwrap());
    assert_eq!(c.predict(&x, 2, 2, None).unwrap(), c.predict(&x, 2, 2, Some(false)).unwrap());
    assert_eq!(
        c.predict_proba(&x, 2, 2, Some(true)).unwrap(),
        c.predict_proba(&x, 2, 2, Some(false)).unwrap()
    );
}

#[test]
fn fit_with_wrong_target_count_is_a_shape_error() {
    let mut c = collection(2);
    let x = vec![1.0, 2.0, 3.0];
    let y = vec![1.0, 2.0, 3.0];
    let r = c.fit(&x, 3, 1, &y, 1.0, None, None, None, None, None);
    assert!(matches!(r, Err(FitError::Shape(_))));
    assert_eq!(c.number_of_trees(), vec![0, 0]);
}

#[test]
fn metadata_is_absent_until_inserted() {
    let mut c = collection(1);
    assert!(c.get_metadata("missing_key".to_string()).is_err());
    c.insert_metadata("k".to_string(), "v".to_string());
    assert_eq!(c.get_metadata("k".to_string()).unwrap(), "v");
    c.insert_metadata("k".to_string(), "w".to_string());
    assert_eq!(c.get_metadata("k".to_string()).unwrap(), "w");
    c.insert_metadata("j".to_string(), "x".to_string());
    assert_eq!(c.get_metadata("k".to_string()).unwrap(), "w");
    assert_eq!(c.get_metadata("j".to_string()).unwrap(), "x");
    assert_eq!(c.save_booster().metadata.len(), 2);
}

#[test]
fn failed_constraint_update_keeps_params() {
    let mut c = collection_with_missing(2, -1.0);
    let before = c.get_params();
    let r = c.set_monotone_constraints(vec![(1, 1), (0, 5)]);
    assert_eq!(r, Err(ConfigError::BadConstraint { feature: 0, code: 5 }));
    assert_eq!(c.get_params(), before);
}

#[test]
fn incremental_fit_keeps_trees() {
    let mut c = collection(2);
    let x = vec![1.0, 2.0];
    let y = vec![1.0, 3.0, 2.0, 4.0];
    c.fit(&x, 2, 1, &y, 1.0, None, None, None, None, None).unwrap();
    let first = c.number_of_trees();
    c.fit(&x, 2, 1, &y, 1.0, None, None, Some(false), None, None).unwrap();
    let second = c.number_of_trees();
    for i in 0..2 {
        assert!(second[i] >= first[i]);
    }
    assert_eq!(second, vec![2, 2]);
}

#[test]
fn unknown_names_are_config_errors() {
    let r = MultiOutputBooster::<MeanBooster>::new(
        1, "NoSuchLoss", None, vec![], false, f64::NAN, true, false, vec![], "None", 0,
    );
    assert!(matches!(r, Err(ConfigError::UnknownObjective(_))));
    let mut c = collection(1);
    assert!(matches!(
        c.set_missing_node_treatment("Sometimes"),
        Err(ConfigError::UnknownMissingNodeTreatment(_))
    ));
    assert_eq!(Objective::parse("LogLoss"), Ok(Objective::LogLoss));
    assert_eq!(MissingNodeTreatment::parse("None"), Ok(MissingNodeTreatment::Unassigned));
    assert_eq!(Constraint::from_code(-1), Some(Constraint::Negative));
}

#[test]
fn failing_output_is_reported_and_later_outputs_untouched() {
    let mut c = collection(3);
    let x = vec![1.0, 2.0];
    let y = vec![1.0, f64::NAN, 3.0, 4.0, 5.0, 6.0];
    let r = c.fit(&x, 2, 1, &y, 1.0, None, None, None, None, None);
    assert_eq!(r, Err(FitError::Output { index: 1, cause: "target holds NaN".to_string() }));
    assert_eq!(c.number_of_trees(), vec![1, 0, 0]);
}

#[test]
fn fit_with_wrong_weight_count_is_a_shape_error() {
    let mut c = collection(1);
    let x = vec![1.0, 2.0];
    let y = vec![1.0, 2.0];
    let w = vec![1.0];
    let r = c.fit(&x, 2, 1, &y, 1.0, Some(&w), None, None, None, None);
    assert_eq!(r, Err(FitError::Shape(perpetual::matrix::ShapeError { expected: 2, found: 1 })));
    let r = c.fit(&x, 2, 2, &y, 1.0, None, None, None, None, None);
    assert!(matches!(r, Err(FitError::Shape(_))));
    assert_eq!(c.number_of_trees(), vec![0]);
}

#[test]
fn predict_rejects_a_short_buffer() {
    let c = collection(2);
    assert!(c.predict(&[1.0, 2.0, 3.0], 2, 2, None).is_err());
    assert!(c.predict_proba(&[1.0, 2.0, 3.0], 2, 2, None).is_err());
}

#[test]
fn unfitted_probabilities_are_one_half() {
    let c = collection(2);
    assert_eq!(c.predict_proba(&[0.0, 0.0], 2, 1, Some(true)).unwrap(), vec![0.5, 0.5, 0.5, 0.5]);
    assert_eq!(c.base_score(), vec![0.0, 0.0]);
}

#[test]
fn params_describe_the_configuration() {
    let mut c = collection_with_missing(2, -1.0);
    c.set_num_threads(Some(4));
    c.set_terminate_missing_features(vec![2, 5]);
    c.set_log_iterations(10);
    c.set_objective("LogLoss").unwrap();
    c.set_missing_node_treatment("AverageNodeWeight").unwrap();
    c.set_monotone_constraints(vec![(1, -1)]).unwrap();
    c.set_force_children_to_bound_parent(true);
    c.set_allow_missing_splits(false);
    c.set_create_missing_branch(true);
    c.set_missing(-2.0);
    let p = c.get_params();
    assert_eq!(p.objective, "LogLoss");
    assert_eq!(p.num_threads, Some(4));
    assert_eq!(p.monotone_constraints, vec![(1, -1)]);
    assert!(p.force_children_to_bound_parent);
    assert_eq!(p.missing, -2.0);
    assert!(!p.allow_missing_splits);
    assert!(p.create_missing_branch);
    assert_eq!(p.terminate_missing_features, vec![2, 5]);
    assert_eq!(p.missing_node_treatment, "AverageNodeWeight");
    assert_eq!(p.log_iterations, 10);
}

#[test]
fn params_rebuild_an_equal_collection() {
    let c = collection_with_missing(2, -1.0);
    let p = c.get_params();
    assert_eq!(p.n_boosters, 2);
    let d = MultiOutputBooster::<MeanBooster>::new(
        p.n_boosters,
        &p.objective,
        p.num_threads,
        p.monotone_constraints.clone(),
        p.force_children_to_bound_parent,
        p.missing,
        p.allow_missing_splits,
        p.create_missing_branch,
        p.terminate_missing_features.clone(),
        &p.missing_node_treatment,
        p.log_iterations,
    )
    .unwrap();
    assert_eq!(d.get_params(), p);
}

#[test]
fn failed_name_updates_change_nothing() {
    let mut c = collection_with_missing(1, -1.0);
    let before = c.get_params();
    assert!(c.set_objective("Nope").is_err());
    assert!(c.set_missing_node_treatment("Nope").is_err());
    assert_eq!(c.get_params(), before);
}

#[test]
fn resizing_gives_fresh_boosters() {
    let mut c = collection(2);
    c.fit(&[1.0], 1, 1, &[1.0, 2.0], 1.0, None, None, None, None, None).unwrap();
    c.set_n_boosters(4);
    assert_eq!(c.n_boosters(), 4);
    assert_eq!(c.number_of_trees(), vec![0, 0, 0, 0]);
}

#[test]
fn reset_fit_starts_over() {
    let mut c = collection(1);
    c.fit(&[1.0], 1, 1, &[1.0], 1.0, None, None, None, None, None).unwrap();
    c.fit(&[1.0], 1, 1, &[1.0], 1.0, None, None, Some(false), None, None).unwrap();
    c.fit(&[1.0], 1, 1, &[1.0], 1.0, None, None, Some(true), None, None).unwrap();
    assert_eq!(c.number_of_trees(), vec![1]);
}

#[test]
fn saved_collection_reads_back_alike() {
    let mut c = collection_with_missing(2, -1.0);
    let x = vec![0.0, 1.0, 2.0];
    let y = vec![1.0, 2.0, 3.0, 4.0, 5.0, 6.0];
    c.fit(&x, 3, 1, &y, 1.0, None, None, None, None, None).unwrap();
    c.fit(&x, 3, 1, &y, 1.0, None, None, Some(false), None, None).unwrap();
    c.insert_metadata("author".to_string(), "someone".to_string());
    let saved = c.save_booster();
    assert_eq!(saved.boosters.len(), 2);
    let d = MultiOutputBooster::<MeanBooster>::load_booster(&saved).unwrap();
    assert_eq!(d.predict(&x, 3, 1, None).unwrap(), c.predict(&x, 3, 1, None).unwrap());
    assert_eq!(d.predict(&x, 3, 1, None).unwrap(), vec![3.0, 4.0, 5.0, 4.0, 5.0, 6.0]);
    assert_eq!(d.get_params(), c.get_params());
    assert_eq!(d.number_of_trees(), vec![2, 2]);
    assert_eq!(d.get_metadata("author".to_string()).unwrap(), "someone");
}

#[test]
fn loading_bad_parts_fails() {
    let c = collection_with_missing(2, -1.0);
    let mut saved = c.save_booster();
    saved.boosters[1] = vec![1, 2, 3];
    assert_eq!(
        MultiOutputBooster::<MeanBooster>::load_booster(&saved).err(),
        Some(LoadError::Booster { index: 1, cause: "3 bytes do not hold whole values".to_string() })
    );
    let mut saved = c.save_booster();
    saved.params.objective = "Unheard".to_string();
    assert!(matches!(
        MultiOutputBooster::<MeanBooster>::load_booster(&saved),
        Err(LoadError::Config(ConfigError::UnknownObjective(_)))
    ));
}

#[test]
fn constraint_on_a_missing_feature_fails_fit() {
    let mut c = collection(1);
    c.set_monotone_constraints(vec![(0, 1), (5, -1)]).unwrap();
    let r = c.fit(&[1.0, 2.0], 1, 2, &[1.0], 1.0, None, None, None, None, None);
    assert_eq!(r, Err(FitError::Config(ConfigError::UnknownFeature { feature: 5, cols: 2 })));
    assert_eq!(c.number_of_trees(), vec![0]);
    let r = c.fit(&[1.0; 6], 1, 6, &[1.0], 1.0, None, None, None, None, None);
    assert_eq!(r, Ok(()));
}

#[test]
fn predict_with_other_columns_reports_the_engine_error() {
    let mut c = collection(2);
    c.fit(&[1.0, 2.0, 3.0, 4.0], 2, 2, &[1.0, 2.0, 3.0, 4.0], 1.0, None, None, None, None, None).unwrap();
    let r = c.predict(&[1.0, 2.0, 3.0], 1, 3, None);
    assert_eq!(
        r,
        Err(PredictError::Output { index: 0, cause: "fitted on 2 columns, given 3".to_string() })
    );
    assert!(matches!(c.predict_proba(&[1.0, 2.0, 3.0], 1, 3, Some(false)), Err(PredictError::Output { index: 0, .. })));
    assert!(matches!(c.predict(&[1.0, 2.0, 3.0], 2, 2, None), Err(PredictError::Shape(_))));
    assert_eq!(c.predict(&[1.0, 2.0], 1, 2, None).unwrap(), vec![3.0, 4.0]);
}

#[test]
fn a_feature_constrained_twice_is_refused() {
    let mut c = collection_with_missing(1, -1.0);
    let before = c.get_params();
    assert_eq!(
        c.set_monotone_constraints(vec![(0, 1), (2, 0), (0, -1)]),
        Err(ConfigError::DuplicateFeature { feature: 0 })
    );
    assert_eq!(c.get_params(), before);
}

#[test]
fn terminating_features_are_kept_once() {
    let mut c = collection(1);
    c.set_terminate_missing_features(vec![3, 1, 3, 2, 1]);
    assert_eq!(c.get_params().terminate_missing_features, vec![3, 1, 2]);
}

#[test]
fn saved_count_must_match_the_boosters() {
    let c = collection_with_missing(2, -1.0);
    let mut saved = c.save_booster();
    saved.params.n_boosters = 3;
    assert_eq!(
        MultiOutputBooster::<MeanBooster>::load_booster(&saved).err(),
        Some(LoadError::Count { expected: 3, found: 2 })
    );
}
