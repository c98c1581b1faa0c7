use vstd::prelude::*;

use crate::config::{
    codes_from_constraints, codes_valid, constraints_distinct, distinct_features, distinct_in_order,
    lemma_distinct_of_distinct, constraint_code, constraints_from_codes,
    constraints_match_codes, constraints_within, copy_features, feature_beyond, objective_name, objective_named, treatment_name,
    treatment_named, Config, ConfigError, ConfigView, MissingNodeTreatment, Objective,
};
use crate::engine::{behaves_as, options_view, FitOptions, FitOptionsView, SingleOutputBooster};
use crate::matrix::{Matrix, MatrixView, ShapeError};

verus! {

/// The abstract content of a collection: its shared configuration, one
/// booster per output, and its metadata entries, oldest first.
pub struct MultiOutputView<B: SingleOutputBooster> {
    pub config: ConfigView<B::Value>,
    pub boosters: Seq<B>,
    pub metadata: Seq<(Seq<char>, Seq<char>)>,
}

/// The value stored under `key`: the one inserted last.
pub open spec fn metadata_lookup(entries: Seq<(Seq<char>, Seq<char>)>, key: Seq<char>) -> Option<
    Seq<char>,
>
    decreases entries.len(),
{
    if entries.len() == 0 {
        None
    } else if entries.last().0 == key {
        Some(entries.last().1)
    } else {
        metadata_lookup(entries.drop_last(), key)
    }
}

/// Column `i` of a row-major buffer of `rows` rows and `n` columns.
pub open spec fn column<V>(y: Seq<V>, rows: nat, n: nat, i: int) -> Seq<V> {
    Seq::new(rows, |r: int| y[r * n + i])
}

/// `out` lays the per-output results `part(i)` end to end, output after output,
/// each `rows` long.
pub open spec fn output_major<B: SingleOutputBooster>(
    boosters: Seq<B>,
    rows: nat,
    out: Seq<B::Value>,
    part: spec_fn(B) -> Seq<B::Value>,
) -> bool {
    &&& out.len() == boosters.len() * rows
    &&& forall|i: int, r: int|
        0 <= i < boosters.len() && 0 <= r < rows ==> #[trigger] out[i * rows + r] == part(
            boosters[i],
        )[r]
}

/// Features, targets and weights fit together: `rows * cols` features,
/// `rows * n` targets for `n` outputs, and one weight per row if any.
pub open spec fn fit_shapes_agree<V>(
    n_data: nat,
    rows: nat,
    cols: nat,
    n_targets: nat,
    n: nat,
    sample_weight: Option<&[V]>,
) -> bool {
    &&& n_data == rows * cols
    &&& n_targets == rows * n
    &&& sample_weight matches Some(w) ==> w@.len() == rows
}

/// What each booster is handed by a fit call with these arguments: the
/// categorical features each once, everything else as given.
pub open spec fn requested_options<V>(
    sample_weight: Option<&[V]>,
    alpha: Option<V>,
    budget: V,
    reset: Option<bool>,
    categorical_features: Option<Vec<usize>>,
    timeout: Option<V>,
) -> FitOptionsView<V> {
    FitOptionsView {
        sample_weight: match sample_weight {
            Some(w) => Some(w@),
            None => None,
        },
        alpha,
        budget,
        reset,
        categorical_features: match categorical_features {
            Some(c) => Some(distinct_in_order(c@)),
            None => None,
        },
        timeout,
    }
}

/// A copy of `s`.
fn copy_values<V: Copy>(s: &[V]) -> (r: Vec<V>)
    ensures
        r@ == s@,
{
    let mut out: Vec<V> = Vec::new();
    let mut i: usize = 0;
    while i < s.len()
        invariant
            i <= s@.len(),
            out@ == s@.subrange(0, i as int),
        decreases s@.len() - i,
    {
        out.push(s[i]);
        i = i + 1;
    }
    assert(out@ =~= s@);
    out
}

/// Column `i` of `m`.
fn column_of<V: Copy>(m: &Matrix<V>, i: usize) -> (r: Vec<V>)
    requires
        i < m@.cols,
    ensures
        r@ == column(m@.data, m@.rows, m@.cols, i as int),
{
    let mut out: Vec<V> = Vec::new();
    let mut r: usize = 0;
    while r < m.rows()
        invariant
            i < m@.cols,
            r <= m@.rows,
            out@.len() == r,
            forall|k: int| 0 <= k < r ==> #[trigger] out@[k] == m@.at(k, i as int),
        decreases m@.rows - r,
    {
        out.push(*m.get(r, i));
        r = r + 1;
    }
    assert(out@ =~= column(m@.data, m@.rows, m@.cols, i as int));
    out
}

/// What booster `b` gives for the rows of `x`: probabilities when `proba`,
/// raw predictions otherwise.
pub open spec fn booster_output<B: SingleOutputBooster>(b: B, x: MatrixView<B::Value>, proba: bool) -> Seq<B::Value> {
    if proba {
        b.probability(x)
    } else {
        b.prediction(x)
    }
}

/// `p` states `c` field by field, with the objective and the missing-node
/// treatment by name and each constraint by its code.
pub open spec fn params_describe<V>(p: Params<V>, c: ConfigView<V>) -> bool {
    &&& p.objective@ == objective_name(c.objective)
    &&& p.num_threads == c.num_threads
    &&& p.monotone_constraints@.len() == c.monotone_constraints.len()
    &&& forall|i: int|
        0 <= i < c.monotone_constraints.len() ==> #[trigger] p.monotone_constraints@[i] == (
            c.monotone_constraints[i].0,
            constraint_code(c.monotone_constraints[i].1),
        )
    &&& p.force_children_to_bound_parent == c.force_children_to_bound_parent
    &&& p.missing == c.missing
    &&& p.allow_missing_splits == c.allow_missing_splits
    &&& p.create_missing_branch == c.create_missing_branch
    &&& p.terminate_missing_features@ == c.terminate_missing_features
    &&& p.missing_node_treatment@ == treatment_name(c.missing_node_treatment)
    &&& p.log_iterations == c.log_iterations
}

/// Row `k` of block `j` lies before block `i` when `j < i`.
proof fn lemma_block_before(j: int, k: int, i: int, rows: int)
    requires
        0 <= j < i,
        0 <= k < rows,
    ensures
        0 <= j * rows + k < i * rows,
{
    assert(0 <= j * rows + k < i * rows) by (nonlinear_arith)
        requires
            0 <= j < i,
            0 <= k < rows,
    ;
}

/// No feature of `c`'s configuration carries two constraints or occurs twice
/// among the features whose missing values end branching, and every booster
/// of `c` follows that configuration.
pub open spec fn follows_config<B: SingleOutputBooster>(c: MultiOutputView<B>) -> bool {
    &&& constraints_distinct(c.config.monotone_constraints)
    &&& c.config.terminate_missing_features.no_duplicates()
    &&& forall|i: int| 0 <= i < c.boosters.len() ==> (#[trigger] c.boosters[i]).settings() == c.config
}

/// The abstract content of a list of metadata entries.
pub open spec fn entries_view(m: Seq<(String, String)>) -> Seq<(Seq<char>, Seq<char>)> {
    m.map_values(|e: (String, String)| (e.0@, e.1@))
}

/// `s` is `c` written out: its parameters describe the configuration, its
/// byte blobs are the boosters' encodings in output order, and its entries
/// are the metadata entries.
pub open spec fn saved_describes<B: SingleOutputBooster>(s: SavedBooster<B::Value>, c: MultiOutputView<B>) -> bool {
    &&& params_describe(s.params, c.config)
    &&& s.params.n_boosters == c.boosters.len()
    &&& s.boosters@.len() == c.boosters.len()
    &&& forall|i: int| 0 <= i < c.boosters.len() ==> (#[trigger] s.boosters@[i])@ == c.boosters[i].encoding()
    &&& entries_view(s.metadata@) == c.metadata
}

/// `r` is what reading `saved` back gives: a well-formed collection, a
/// configuration error exactly when the parameters name no known objective or
/// treatment or hold a bad code, else a count error exactly when the
/// parameters count another number of outputs than there are boosters, or an
/// error on one of the boosters; and
/// whatever collection `saved` was taken from comes back whole.
pub open spec fn loaded_from<B: SingleOutputBooster>(
    r: Result<MultiOutputBooster<B>, LoadError<B::Error>>,
    saved: SavedBooster<B::Value>,
) -> bool {
    &&& r matches Ok(d) ==> {
        &&& d.wf()
        &&& d@.boosters.len() == saved.boosters@.len()
        &&& d@.metadata == entries_view(saved.metadata@)
        &&& config_read_from(d@.config, saved.params)
    }
    &&& (r matches Err(LoadError::Config(_))) <==> !(objective_named(saved.params.objective@) is Some
        && treatment_named(saved.params.missing_node_treatment@) is Some && codes_valid(
        saved.params.monotone_constraints@,
    ))
    &&& (r matches Err(LoadError::Count { .. })) <==> objective_named(saved.params.objective@) is Some
        && treatment_named(saved.params.missing_node_treatment@) is Some && codes_valid(
        saved.params.monotone_constraints@,
    ) && saved.params.n_boosters != saved.boosters@.len()
    &&& r matches Err(LoadError::Booster { index, .. }) ==> index < saved.boosters@.len()
    &&& forall|c: MultiOutputView<B>|
        follows_config(c) && #[trigger] saved_describes(saved, c) ==> (r matches Ok(d)
            && same_collection(d@, c))
}

/// `d` holds the configuration and metadata of `c`, and boosters that behave
/// as those of `c`, output by output.
pub open spec fn same_collection<B: SingleOutputBooster>(d: MultiOutputView<B>, c: MultiOutputView<B>) -> bool {
    &&& d.config == c.config
    &&& d.metadata == c.metadata
    &&& d.boosters.len() == c.boosters.len()
    &&& forall|j: int| 0 <= j < c.boosters.len() ==> behaves_as(#[trigger] d.boosters[j], c.boosters[j])
}

/// `c` is the configuration that the parameters `p` spell out.
pub open spec fn config_read_from<V>(c: ConfigView<V>, p: Params<V>) -> bool {
    &&& Some(c.objective) == objective_named(p.objective@)
    &&& c.num_threads == p.num_threads
    &&& constraints_match_codes(c.monotone_constraints, p.monotone_constraints@)
    &&& c.force_children_to_bound_parent == p.force_children_to_bound_parent
    &&& c.missing == p.missing
    &&& c.allow_missing_splits == p.allow_missing_splits
    &&& c.create_missing_branch == p.create_missing_branch
    &&& c.terminate_missing_features == distinct_in_order(p.terminate_missing_features@)
    &&& Some(c.missing_node_treatment) == treatment_named(p.missing_node_treatment@)
    &&& c.log_iterations == p.log_iterations
}

/// A collection written out as plain values: its configuration as a
/// parameter snapshot, each booster's bytes in output order, and its
/// metadata entries, oldest first.
#[derive(Debug, Clone, PartialEq)]
pub struct SavedBooster<V> {
    pub params: Params<V>,
    pub boosters: Vec<Vec<u8>>,
    pub metadata: Vec<(String, String)>,
}

/// Why a saved collection could not be read back.
#[derive(Debug, Clone, PartialEq, Eq)]
pub enum LoadError<E> {
    /// The parameters name an unknown objective or treatment, or hold a bad code.
    Config(ConfigError),
    /// The parameters count `expected` outputs but `found` boosters were saved.
    Count { expected: usize, found: usize },
    /// The bytes of booster `index` could not be read.
    Booster { index: usize, cause: E },
}

/// A copy of a list of feature/code pairs.
fn copy_codes(codes: &Vec<(usize, i8)>) -> (r: Vec<(usize, i8)>)
    ensures
        r@ == codes@,
{
    let mut out: Vec<(usize, i8)> = Vec::new();
    let mut i: usize = 0;
    while i < codes.len()
        invariant
            i <= codes@.len(),
            out@ == codes@.subrange(0, i as int),
        decreases codes@.len() - i,
    {
        out.push(codes[i]);
        i = i + 1;
    }
    assert(out@ =~= codes@);
    out
}

/// A copy of a list of metadata entries.
fn copy_entries(m: &Vec<(String, String)>) -> (r: Vec<(String, String)>)
    ensures
        entries_view(r@) == entries_view(m@),
{
    let mut out: Vec<(String, String)> = Vec::new();
    let mut i: usize = 0;
    while i < m.len()
        invariant
            i <= m@.len(),
            entries_view(out@) == entries_view(m@).subrange(0, i as int),
        decreases m@.len() - i,
    {
        let k = m[i].0.clone();
        let v = m[i].1.clone();
        let ghost before = out@;
        out.push((k, v));
        assert(entries_view(out@) =~= entries_view(before).push((k@, v@)));
        assert(entries_view(m@).subrange(0, i + 1) =~= entries_view(m@).subrange(0, i as int).push(
            (k@, v@),
        ));
        i = i + 1;
    }
    assert(entries_view(m@).subrange(0, m@.len() as int) =~= entries_view(m@));
    out
}

/// A key that no metadata entry holds.
#[derive(Debug, Clone, PartialEq, Eq)]
pub struct NotFoundError {
    pub key: String,
}

/// Why a prediction call did not complete.
#[derive(Debug, Clone, PartialEq, Eq)]
pub enum PredictError<E> {
    /// The data do not hold `rows * cols` values.
    Shape(ShapeError),
    /// Booster `index` does not accept the matrix; `cause` is its own report.
    Output { index: usize, cause: E },
}

/// Why a fit call did not complete.
#[derive(Debug, Clone, PartialEq, Eq)]
pub enum FitError<E> {
    /// The data, the targets or the weights do not have the shape the call needs.
    Shape(ShapeError),
    /// A monotonic constraint names a feature beyond the columns of the data.
    Config(ConfigError),
    /// Fitting output `index` failed; outputs before it were fitted, those after it untouched.
    Output { index: usize, cause: E },
}

/// A snapshot of the shared configuration, in the form a new collection is
/// built from.
#[derive(Debug, Clone, PartialEq)]
pub struct Params<V> {
    /// The number of outputs.
    pub n_boosters: usize,
    pub objective: String,
    pub num_threads: Option<usize>,
    pub monotone_constraints: Vec<(usize, i8)>,
    pub force_children_to_bound_parent: bool,
    pub missing: V,
    pub allow_missing_splits: bool,
    pub create_missing_branch: bool,
    pub terminate_missing_features: Vec<usize>,
    pub missing_node_treatment: String,
    pub log_iterations: usize,
}

/// One gradient-boosted booster per output column, all following one configuration.
pub struct MultiOutputBooster<B: SingleOutputBooster> {
    config: Config<B::Value>,
    boosters: Vec<B>,
    metadata: Vec<(String, String)>,
}

impl<B: SingleOutputBooster> View for MultiOutputBooster<B> {
    type V = MultiOutputView<B>;

    closed spec fn view(&self) -> MultiOutputView<B> {
        MultiOutputView {
            config: self.config@,
            boosters: self.boosters@,
            metadata: entries_view(self.metadata@),
        }
    }
}

impl<B: SingleOutputBooster> MultiOutputBooster<B> {
    /// Every booster follows the collection's configuration.
    pub open spec fn wf(&self) -> bool {
        follows_config(self@)
    }

    /// The metadata value stored under `key`, if any.
    pub open spec fn metadata_value(&self, key: Seq<char>) -> Option<Seq<char>> {
        metadata_lookup(self@.metadata, key)
    }

    /// `n` unfitted boosters that follow `config`.
    fn fresh_boosters(config: &Config<B::Value>, n: usize) -> (r: Vec<B>)
        ensures
            r@.len() == n,
            forall|i: int| 0 <= i < n ==> (#[trigger] r@[i]).settings() == config@ && r@[i].tree_count() == 0,
    {
        let mut out: Vec<B> = Vec::new();
        let mut i: usize = 0;
        while i < n
            invariant
                i <= n,
                out@.len() == i,
                forall|j: int| 0 <= j < i ==> (#[trigger] out@[j]).settings() == config@ && out@[j].tree_count() == 0,
            decreases n - i,
        {
            out.push(B::configured(config));
            i = i + 1;
        }
        out
    }

    /// A collection of `n_boosters` unfitted boosters that all follow the
    /// configuration given by the arguments. Fails on an unknown objective
    /// name, then on an unknown missing-node treatment name, then on the
    /// first constraint whose code is not -1, 0 or 1 or whose feature is
    /// constrained twice. Repeated terminating features are kept once.
    pub fn new(
        n_boosters: usize,
        objective: &str,
        num_threads: Option<usize>,
        monotone_constraints: Vec<(usize, i8)>,
        force_children_to_bound_parent: bool,
        missing: B::Value,
        allow_missing_splits: bool,
        create_missing_branch: bool,
        terminate_missing_features: Vec<usize>,
        missing_node_treatment: &str,
        log_iterations: usize,
    ) -> (r: Result<Self, ConfigError>)
        ensures
            r is Ok <==> objective_named(objective@) is Some && treatment_named(
                missing_node_treatment@,
            ) is Some && codes_valid(monotone_constraints@),
            objective_named(objective@) is None ==> r matches Err(
                ConfigError::UnknownObjective(_),
            ),
            objective_named(objective@) is Some && treatment_named(missing_node_treatment@) is None
                ==> r matches Err(ConfigError::UnknownMissingNodeTreatment(_)),
            objective_named(objective@) is Some && treatment_named(missing_node_treatment@) is Some
                && !codes_valid(monotone_constraints@) ==> (r matches Err(
                ConfigError::BadConstraint { .. },
            ) || r matches Err(ConfigError::DuplicateFeature { .. })),
            r matches Ok(c) ==> {
                &&& c.wf()
                &&& c@.boosters.len() == n_boosters
                &&& forall|i: int| 0 <= i < n_boosters ==> (#[trigger] c@.boosters[i]).tree_count() == 0
                &&& c@.metadata.len() == 0
                &&& Some(c@.config.objective) == objective_named(objective@)
                &&& c@.config.num_threads == num_threads
                &&& constraints_match_codes(c@.config.monotone_constraints, monotone_constraints@)
                &&& c@.config.force_children_to_bound_parent == force_children_to_bound_parent
                &&& c@.config.missing == missing
                &&& c@.config.allow_missing_splits == allow_missing_splits
                &&& c@.config.create_missing_branch == create_missing_branch
                &&& c@.config.terminate_missing_features == distinct_in_order(terminate_missing_features@)
                &&& Some(c@.config.missing_node_treatment) == treatment_named(missing_node_treatment@)
                &&& c@.config.log_iterations == log_iterations
            },
    {
        let objective = Objective::parse(objective)?;
        let missing_node_treatment = MissingNodeTreatment::parse(missing_node_treatment)?;
        let monotone_constraints = constraints_from_codes(&monotone_constraints)?;
        let terminate_missing_features = distinct_features(&terminate_missing_features);
        let config = Config {
            objective,
            num_threads,
            monotone_constraints,
            force_children_to_bound_parent,
            missing,
            allow_missing_splits,
            create_missing_branch,
            terminate_missing_features,
            missing_node_treatment,
            log_iterations,
        };
        let boosters = Self::fresh_boosters(&config, n_boosters);
        let r = MultiOutputBooster { config, boosters, metadata: Vec::new() };
        assert(r@.metadata.len() == 0);
        Ok(r)
    }

    /// The number of outputs, one booster each.
    pub fn n_boosters(&self) -> (r: usize)
        ensures
            r == self@.boosters.len(),
    {
        self.boosters.len()
    }

    /// Replaces the boosters by `value` unfitted ones that follow the current configuration.
    pub fn set_n_boosters(&mut self, value: usize)
        requires
            old(self).wf(),
        ensures
            final(self).wf(),
            final(self)@.config == old(self)@.config,
            final(self)@.metadata == old(self)@.metadata,
            final(self)@.boosters.len() == value,
            forall|i: int| 0 <= i < value ==> (#[trigger] final(self)@.boosters[i]).tree_count() == 0,
    {
        self.boosters = Self::fresh_boosters(&self.config, value);
    }

    /// `self` is `before` with its configuration replaced by `config`, which
    /// every booster now follows; trees and metadata are kept.
    pub open spec fn reconfigured_from(&self, before: Self, config: ConfigView<B::Value>) -> bool {
        &&& self.wf()
        &&& self@.config == config
        &&& self@.metadata == before@.metadata
        &&& self@.boosters.len() == before@.boosters.len()
        &&& forall|i: int|
            0 <= i < before@.boosters.len() ==> (#[trigger] self@.boosters[i]).tree_count()
                == before@.boosters[i].tree_count()
    }

    /// Sets the objective by name; an unknown name changes nothing.
    pub fn set_objective(&mut self, value: &str) -> (r: Result<(), ConfigError>)
        requires
            old(self).wf(),
        ensures
            match objective_named(value@) {
                Some(o) => r is Ok && final(self).reconfigured_from(
                    *old(self),
                    ConfigView { objective: o, ..old(self)@.config },
                ),
                None => r matches Err(ConfigError::UnknownObjective(_)) && final(self)@ == old(self)@,
            },
    {
        let objective = Objective::parse(value)?;
        self.config.objective = objective;
        self.propagate();
        Ok(())
    }

    /// Sets the size of the worker pool; `None` uses every core.
    pub fn set_num_threads(&mut self, value: Option<usize>)
        requires
            old(self).wf(),
        ensures
            final(self).reconfigured_from(*old(self), ConfigView { num_threads: value, ..old(self)@.config }),
    {
        self.config.num_threads = value;
        self.propagate();
    }

    /// Sets the monotonic constraints from feature/code pairs; a code other
    /// than -1, 0 or 1, or a feature given twice, changes nothing.
    pub fn set_monotone_constraints(&mut self, value: Vec<(usize, i8)>) -> (r: Result<(), ConfigError>)
        requires
            old(self).wf(),
        ensures
            r is Ok <==> codes_valid(value@),
            r is Ok ==> final(self).wf() && constraints_match_codes(final(self)@.config.monotone_constraints, value@)
                && final(self).reconfigured_from(
                *old(self),
                ConfigView { monotone_constraints: final(self)@.config.monotone_constraints, ..old(self)@.config },
            ),
            r is Err ==> (r matches Err(ConfigError::BadConstraint { .. }) || r matches Err(
                ConfigError::DuplicateFeature { .. },
            )) && final(self)@ == old(self)@,
    {
        let constraints = constraints_from_codes(&value)?;
        self.config.monotone_constraints = constraints;
        self.propagate();
        Ok(())
    }

    /// Sets whether child nodes keep within their parent's monotonic bound.
    pub fn set_force_children_to_bound_parent(&mut self, value: bool)
        requires
            old(self).wf(),
        ensures
            final(self).reconfigured_from(*old(self), ConfigView { force_children_to_bound_parent: value, ..old(self)@.config }),
    {
        self.config.force_children_to_bound_parent = value;
        self.propagate();
    }

    /// Sets the value that marks a missing feature.
    pub fn set_missing(&mut self, value: B::Value)
        requires
            old(self).wf(),
        ensures
            final(self).reconfigured_from(*old(self), ConfigView { missing: value, ..old(self)@.config }),
    {
        self.config.missing = value;
        self.propagate();
    }

    /// Sets whether a split may set missing values apart.
    pub fn set_allow_missing_splits(&mut self, value: bool)
        requires
            old(self).wf(),
        ensures
            final(self).reconfigured_from(*old(self), ConfigView { allow_missing_splits: value, ..old(self)@.config }),
    {
        self.config.allow_missing_splits = value;
        self.propagate();
    }

    /// Sets whether splits grow a branch of their own for missing values.
    pub fn set_create_missing_branch(&mut self, value: bool)
        requires
            old(self).wf(),
        ensures
            final(self).reconfigured_from(*old(self), ConfigView { create_missing_branch: value, ..old(self)@.config }),
    {
        self.config.create_missing_branch = value;
        self.propagate();
    }

    /// Sets the features whose missing values end further branching, each kept once.
    pub fn set_terminate_missing_features(&mut self, value: Vec<usize>)
        requires
            old(self).wf(),
        ensures
            final(self).reconfigured_from(
                *old(self),
                ConfigView { terminate_missing_features: distinct_in_order(value@), ..old(self)@.config },
            ),
    {
        self.config.terminate_missing_features = distinct_features(&value);
        self.propagate();
    }

    /// Sets the missing-node treatment by name; an unknown name changes nothing.
    pub fn set_missing_node_treatment(&mut self, value: &str) -> (r: Result<(), ConfigError>)
        requires
            old(self).wf(),
        ensures
            match treatment_named(value@) {
                Some(t) => r is Ok && final(self).reconfigured_from(
                    *old(self),
                    ConfigView { missing_node_treatment: t, ..old(self)@.config },
                ),
                None => r matches Err(ConfigError::UnknownMissingNodeTreatment(_)) && final(self)@ == old(self)@,
            },
    {
        let treatment = MissingNodeTreatment::parse(value)?;
        self.config.missing_node_treatment = treatment;
        self.propagate();
        Ok(())
    }

    /// Sets how many iterations pass between progress logs; 0 logs nothing.
    pub fn set_log_iterations(&mut self, value: usize)
        requires
            old(self).wf(),
        ensures
            final(self).reconfigured_from(*old(self), ConfigView { log_iterations: value, ..old(self)@.config }),
    {
        self.config.log_iterations = value;
        self.propagate();
    }

    /// Fits booster `i` on the rows of the feature matrix against column `i`
    /// of the target matrix, for each output `i` in order. Every output gets
    /// the same weights, budget, options and timeout. Fails before touching
    /// any booster when the features do not hold `rows * cols` values, the
    /// targets do not hold one value per row and output, or the weights do
    /// not hold one value per row; then when a monotonic constraint names a
    /// feature beyond the `cols` columns. When output `i` fails, the outputs
    /// before it keep their new fit and those after it are left as they were.
    pub fn fit(
        &mut self,
        flat_data: &[B::Value],
        rows: usize,
        cols: usize,
        y: &[B::Value],
        budget: B::Value,
        sample_weight: Option<&[B::Value]>,
        alpha: Option<B::Value>,
        reset: Option<bool>,
        categorical_features: Option<Vec<usize>>,
        timeout: Option<B::Value>,
    ) -> (r: Result<(), FitError<B::Error>>)
        requires
            old(self).wf(),
        ensures
            final(self).wf(),
            final(self)@.config == old(self)@.config,
            final(self)@.metadata == old(self)@.metadata,
            final(self)@.boosters.len() == old(self)@.boosters.len(),
            (r matches Err(FitError::Shape(_))) <==> !fit_shapes_agree(
                flat_data@.len(),
                rows as nat,
                cols as nat,
                y@.len(),
                old(self)@.boosters.len(),
                sample_weight,
            ),
            (r matches Err(FitError::Shape(_))) ==> final(self)@ == old(self)@,
            (r matches Err(FitError::Config(_))) <==> fit_shapes_agree(
                flat_data@.len(),
                rows as nat,
                cols as nat,
                y@.len(),
                old(self)@.boosters.len(),
                sample_weight,
            ) && !constraints_within(old(self)@.config.monotone_constraints, cols as nat),
            r matches Err(FitError::Config(e)) ==> final(self)@ == old(self)@ && (e matches ConfigError::UnknownFeature { feature, cols: c } && c == cols && feature >= cols),
            r is Ok ==> forall|i: int|
                0 <= i < old(self)@.boosters.len() ==> old(self)@.boosters[i].fitted(
                    #[trigger] final(self)@.boosters[i],
                    MatrixView { data: flat_data@, rows: rows as nat, cols: cols as nat },
                    column(y@, rows as nat, old(self)@.boosters.len(), i),
                    requested_options(sample_weight, alpha, budget, reset, categorical_features, timeout),
                ),
            r matches Err(FitError::Output { index, cause }) ==> {
                &&& index < old(self)@.boosters.len()
                &&& old(self)@.boosters[index as int].fit_failed(
                    final(self)@.boosters[index as int],
                    MatrixView { data: flat_data@, rows: rows as nat, cols: cols as nat },
                    column(y@, rows as nat, old(self)@.boosters.len(), index as int),
                    requested_options(sample_weight, alpha, budget, reset, categorical_features, timeout),
                    cause,
                )
                &&& forall|j: int|
                    0 <= j < index ==> old(self)@.boosters[j].fitted(
                        #[trigger] final(self)@.boosters[j],
                        MatrixView { data: flat_data@, rows: rows as nat, cols: cols as nat },
                        column(y@, rows as nat, old(self)@.boosters.len(), j),
                        requested_options(sample_weight, alpha, budget, reset, categorical_features, timeout),
                    )
                &&& forall|j: int|
                    index < j < old(self)@.boosters.len() ==> 0 <= j && #[trigger] final(self)@.boosters[j]
                        == old(self)@.boosters[j]
            },
            r is Ok && reset == Some(true) ==> forall|i: int|
                0 <= i < old(self)@.boosters.len() ==> B::unfitted(old(self)@.config).fitted(
                    #[trigger] final(self)@.boosters[i],
                    MatrixView { data: flat_data@, rows: rows as nat, cols: cols as nat },
                    column(y@, rows as nat, old(self)@.boosters.len(), i),
                    requested_options(sample_weight, alpha, budget, reset, categorical_features, timeout),
                ),
            r is Ok && reset == Some(false) ==> forall|i: int|
                0 <= i < old(self)@.boosters.len() ==> (#[trigger] final(self)@.boosters[i]).tree_count()
                    >= old(self)@.boosters[i].tree_count(),
    {
        let n = self.boosters.len();
        let x = match Matrix::new(flat_data, rows, cols) {
            Ok(m) => m,
            Err(e) => return Err(FitError::Shape(e)),
        };
        let targets = match Matrix::new(y, rows, n) {
            Ok(m) => m,
            Err(e) => return Err(FitError::Shape(e)),
        };
        let weights = match sample_weight {
            Some(w) => {
                if w.len() != rows {
                    return Err(FitError::Shape(ShapeError { expected: rows, found: w.len() }));
                }
                Some(copy_values(w))
            },
            None => None,
        };
        if let Some(feature) = feature_beyond(&self.config.monotone_constraints, cols) {
            return Err(FitError::Config(ConfigError::UnknownFeature { feature, cols }));
        }
        let ghost cats = categorical_features;
        let categorical = match &categorical_features {
            Some(c) => Some(distinct_features(c)),
            None => None,
        };
        let opts = FitOptions { sample_weight: weights, alpha, budget, reset, categorical_features: categorical, timeout };
        let ghost before = self@;
        let mut i: usize = 0;
        while i < n
            invariant
                before == old(self)@,
                n == before.boosters.len(),
                fit_shapes_agree(flat_data@.len(), rows as nat, cols as nat, y@.len(), n as nat, sample_weight),
                cats == categorical_features,
                constraints_within(before.config.monotone_constraints, cols as nat),
                options_view(opts) == requested_options(sample_weight, alpha, budget, reset, cats, timeout),
                i <= n,
                x@ == (MatrixView { data: flat_data@, rows: rows as nat, cols: cols as nat }),
                targets@ == (MatrixView { data: y@, rows: rows as nat, cols: n as nat }),
                opts.sample_weight matches Some(w) ==> w@.len() == rows,
                self@.config == before.config,
                self@.metadata == before.metadata,
                self@.boosters.len() == n,
                self.wf(),
                forall|j: int|
                    0 <= j < i ==> before.boosters[j].fitted(
                        #[trigger] self@.boosters[j],
                        x@,
                        column(y@, rows as nat, n as nat, j),
                        options_view(opts),
                    ),
                forall|j: int| i <= j < n ==> #[trigger] self@.boosters[j] == before.boosters[j],
                reset == Some(false) ==> forall|j: int|
                    0 <= j < i ==> (#[trigger] self@.boosters[j]).tree_count() >= before.boosters[j].tree_count(),
                reset == Some(true) ==> forall|j: int|
                    0 <= j < i ==> B::unfitted(before.config).fitted(
                        #[trigger] self@.boosters[j],
                        x@,
                        column(y@, rows as nat, n as nat, j),
                        options_view(opts),
                    ),
                opts.reset == reset,
            decreases n - i,
        {
            let target = column_of(&targets, i);
            let result = self.boosters[i].fit(&x, target.as_slice(), &opts);
            match result {
                Ok(()) => {},
                Err(cause) => {
                    return Err(FitError::Output { index: i, cause });
                },
            }
            i = i + 1;
        }
        Ok(())
    }

    /// The raw predictions of every output for the rows of the feature
    /// matrix: the rows of output 0, then those of output 1, and so on. The
    /// result does not depend on `parallel`. Fails when the features do not
    /// hold `rows * cols` values, and otherwise with the rejection of the
    /// first booster that does not accept the matrix.
    pub fn predict(
        &self,
        flat_data: &[B::Value],
        rows: usize,
        cols: usize,
        parallel: Option<bool>,
    ) -> (r: Result<Vec<B::Value>, PredictError<B::Error>>)
        ensures
            self.prediction_outcome(flat_data@, rows as nat, cols as nat, false, r),
    {
        let x = match Matrix::new(flat_data, rows, cols) {
            Ok(x) => x,
            Err(e) => return Err(PredictError::Shape(e)),
        };
        let parallel = match parallel {
            Some(p) => p,
            None => true,
        };
        self.stack_outputs(&x, parallel, false)
    }

    /// The predicted probabilities of every output for the rows of the
    /// feature matrix, laid out and failing as `predict` does.
    pub fn predict_proba(
        &self,
        flat_data: &[B::Value],
        rows: usize,
        cols: usize,
        parallel: Option<bool>,
    ) -> (r: Result<Vec<B::Value>, PredictError<B::Error>>)
        ensures
            self.prediction_outcome(flat_data@, rows as nat, cols as nat, true, r),
    {
        let x = match Matrix::new(flat_data, rows, cols) {
            Ok(x) => x,
            Err(e) => return Err(PredictError::Shape(e)),
        };
        let parallel = match parallel {
            Some(p) => p,
            None => true,
        };
        self.stack_outputs(&x, parallel, true)
    }

    /// `out` holds, output after output, each booster's predictions for the
    /// rows of `x` (probabilities when `proba`).
    pub open spec fn predicted(&self, x: MatrixView<B::Value>, proba: bool, out: Seq<B::Value>) -> bool {
        output_major(self@.boosters, x.rows, out, |b: B| booster_output(b, x, proba))
    }

    /// Every booster accepts `x`.
    pub open spec fn all_accept(&self, x: MatrixView<B::Value>) -> bool {
        forall|i: int| 0 <= i < self@.boosters.len() ==> (#[trigger] self@.boosters[i]).accepts(x)
    }

    /// `r` is what predicting for the buffer `data` of `rows` rows and `cols`
    /// columns gives: a shape error exactly when the buffer does not hold
    /// `rows * cols` values; else the rejection of the first booster that does
    /// not accept the matrix, unchanged; else every output's values.
    pub open spec fn prediction_outcome(
        &self,
        data: Seq<B::Value>,
        rows: nat,
        cols: nat,
        proba: bool,
        r: Result<Vec<B::Value>, PredictError<B::Error>>,
    ) -> bool {
        let x = MatrixView { data, rows, cols };
        &&& (r matches Err(PredictError::Shape(_))) <==> data.len() != rows * cols
        &&& r is Ok <==> data.len() == rows * cols && self.all_accept(x)
        &&& r matches Ok(out) ==> self.predicted(x, proba, out@)
        &&& r matches Err(PredictError::Output { index, cause }) ==> {
            &&& index < self@.boosters.len()
            &&& !self@.boosters[index as int].accepts(x)
            &&& cause == self@.boosters[index as int].rejection(x)
            &&& forall|j: int| 0 <= j < index ==> (#[trigger] self@.boosters[j]).accepts(x)
        }
    }

    /// Each booster's output for the rows of `x`, output after output, or the
    /// rejection of the first booster that does not accept `x`.
    fn stack_outputs(&self, x: &Matrix<B::Value>, parallel: bool, proba: bool) -> (r: Result<
        Vec<B::Value>,
        PredictError<B::Error>,
    >)
        requires
            x@.data.len() == x@.rows * x@.cols,
        ensures
            self.prediction_outcome(x@.data, x@.rows, x@.cols, proba, r),
    {
        let n = self.boosters.len();
        let rows = x.rows();
        let ghost part = |b: B| booster_output(b, x@, proba);
        let mut out: Vec<B::Value> = Vec::new();
        let mut i: usize = 0;
        while i < n
            invariant
                n == self@.boosters.len(),
                rows == x@.rows,
                x@.data.len() == x@.rows * x@.cols,
                i <= n,
                part == (|b: B| booster_output(b, x@, proba)),
                out@.len() == i * rows,
                forall|j: int| 0 <= j < i ==> (#[trigger] self@.boosters[j]).accepts(x@),
                forall|j: int, k: int|
                    0 <= j < i && 0 <= k < rows ==> #[trigger] out@[j * rows + k] == part(
                        self@.boosters[j],
                    )[k],
            decreases n - i,
        {
            let result = if proba {
                self.boosters[i].predict_proba(x, parallel)
            } else {
                self.boosters[i].predict(x, parallel)
            };
            let mut p = match result {
                Ok(p) => p,
                Err(cause) => return Err(PredictError::Output { index: i, cause }),
            };
            assert(p@ == part(self@.boosters[i as int]));
            let ghost prev = out@;
            out.append(&mut p);
            proof {
                assert((i + 1) * rows == i * rows + rows) by (nonlinear_arith);
                assert forall|j: int, k: int|
                    0 <= j < i + 1 && 0 <= k < rows implies #[trigger] out@[j * rows + k] == part(
                        self@.boosters[j],
                    )[k] by {
                    if j < i {
                        lemma_block_before(j, k, i as int, rows as int);
                        assert(out@[j * rows + k] == prev[j * rows + k]);
                    }
                }
            }
            i = i + 1;
        }
        Ok(out)
    }

    /// The starting score of each output's booster, in output order.
    pub fn base_score(&self) -> (r: Vec<B::Value>)
        ensures
            r@.len() == self@.boosters.len(),
            forall|i: int| 0 <= i < r@.len() ==> #[trigger] r@[i] == self@.boosters[i].base(),
    {
        let mut out: Vec<B::Value> = Vec::new();
        let mut i: usize = 0;
        while i < self.boosters.len()
            invariant
                i <= self@.boosters.len(),
                out@.len() == i,
                forall|j: int| 0 <= j < i ==> #[trigger] out@[j] == self@.boosters[j].base(),
            decreases self@.boosters.len() - i,
        {
            out.push(self.boosters[i].base_score());
            i = i + 1;
        }
        out
    }

    /// The number of trees of each output's booster, in output order.
    pub fn number_of_trees(&self) -> (r: Vec<usize>)
        ensures
            r@.len() == self@.boosters.len(),
            forall|i: int| 0 <= i < r@.len() ==> #[trigger] r@[i] == self@.boosters[i].tree_count(),
    {
        let mut out: Vec<usize> = Vec::new();
        let mut i: usize = 0;
        while i < self.boosters.len()
            invariant
                i <= self@.boosters.len(),
                out@.len() == i,
                forall|j: int| 0 <= j < i ==> #[trigger] out@[j] == self@.boosters[j].tree_count(),
            decreases self@.boosters.len() - i,
        {
            out.push(self.boosters[i].number_of_trees());
            i = i + 1;
        }
        out
    }

    /// Stores `value` under `key`, replacing any value stored there before.
    pub fn insert_metadata(&mut self, key: String, value: String)
        ensures
            final(self)@.config == old(self)@.config,
            final(self)@.boosters == old(self)@.boosters,
            final(self).wf() == old(self).wf(),
            forall|k: Seq<char>|
                #[trigger] final(self).metadata_value(k) == if k == key@ {
                    Some(value@)
                } else {
                    old(self).metadata_value(k)
                },
    {
        let ghost key_view = key@;
        let ghost value_view = value@;
        let mut i: usize = self.metadata.len();
        while i > 0
            invariant
                i <= self@.metadata.len(),
                self@ == old(self)@,
                key@ == key_view,
                value@ == value_view,
                forall|m: int| i <= m < self@.metadata.len() ==> (#[trigger] self@.metadata[m]).0 != key_view,
            decreases i,
        {
            if self.metadata[i - 1].0 == key {
                let ghost entries = self@.metadata;
                self.metadata.set(i - 1, (key, value));
                proof {
                    assert(self@.metadata =~= entries.update(i - 1, (key_view, value_view)));
                    assert forall|k: Seq<char>|
                        #[trigger] metadata_lookup(self@.metadata, k) == if k == key_view {
                            Some(value_view)
                        } else {
                            metadata_lookup(entries, k)
                        } by {
                        lemma_lookup_after_update(entries, i - 1, key_view, value_view, k);
                    }
                }
                return;
            }
            i = i - 1;
        }
        self.metadata.push((key, value));
        proof {
            let entries = self@.metadata;
            assert(entries.drop_last() =~= old(self)@.metadata);
            assert(entries.last() == (key_view, value_view));
        }
    }

    /// The value stored under `key`; fails when no value is stored there.
    pub fn get_metadata(&self, key: String) -> (r: Result<String, NotFoundError>)
        ensures
            match self.metadata_value(key@) {
                Some(v) => r matches Ok(s) && s@ == v,
                None => r matches Err(e) && e.key@ == key@,
            },
    {
        let mut i: usize = self.metadata.len();
        assert(self@.metadata.subrange(0, i as int) =~= self@.metadata);
        while i > 0
            invariant
                i <= self@.metadata.len(),
                self.metadata_value(key@) == metadata_lookup(self@.metadata.subrange(0, i as int), key@),
            decreases i,
        {
            let ghost prefix = self@.metadata.subrange(0, i as int);
            if self.metadata[i - 1].0 == key {
                return Ok(self.metadata[i - 1].1.clone());
            }
            assert(prefix.drop_last() =~= self@.metadata.subrange(0, i - 1));
            i = i - 1;
        }
        Err(NotFoundError { key })
    }

    /// A snapshot of the shared configuration, with the objective and the
    /// missing-node treatment by name and the constraints by code.
    pub fn get_params(&self) -> (r: Params<B::Value>)
        ensures
            params_describe(r, self@.config),
            r.n_boosters == self@.boosters.len(),
    {
        Params {
            n_boosters: self.boosters.len(),
            objective: self.config.objective.name(),
            num_threads: self.config.num_threads,
            monotone_constraints: codes_from_constraints(&self.config.monotone_constraints),
            force_children_to_bound_parent: self.config.force_children_to_bound_parent,
            missing: self.config.missing,
            allow_missing_splits: self.config.allow_missing_splits,
            create_missing_branch: self.config.create_missing_branch,
            terminate_missing_features: copy_features(&self.config.terminate_missing_features),
            missing_node_treatment: self.config.missing_node_treatment.name(),
            log_iterations: self.config.log_iterations,
        }
    }

    /// The collection written out as plain values.
    pub fn save_booster(&self) -> (r: SavedBooster<B::Value>)
        ensures
            saved_describes(r, self@),
    {
        let mut blobs: Vec<Vec<u8>> = Vec::new();
        let mut i: usize = 0;
        while i < self.boosters.len()
            invariant
                i <= self@.boosters.len(),
                blobs@.len() == i,
                forall|j: int| 0 <= j < i ==> (#[trigger] blobs@[j])@ == self@.boosters[j].encoding(),
            decreases self@.boosters.len() - i,
        {
            blobs.push(self.boosters[i].save());
            i = i + 1;
        }
        SavedBooster { params: self.get_params(), boosters: blobs, metadata: copy_entries(&self.metadata) }
    }

    /// The collection that `saved` writes out. Fails when its parameters do
    /// not name a known objective and treatment with valid constraint codes,
    /// or when the bytes of a booster cannot be read. Each booster is made to
    /// follow the configuration read. Whatever collection `saved` was taken
    /// from comes back whole: its configuration, its boosters in order, and
    /// its metadata.
    pub fn load_booster(saved: &SavedBooster<B::Value>) -> (r: Result<Self, LoadError<B::Error>>)
        ensures
            loaded_from(r, *saved),
    {
        let p = &saved.params;
        let mut d = match Self::new(
            0,
            p.objective.as_str(),
            p.num_threads,
            copy_codes(&p.monotone_constraints),
            p.force_children_to_bound_parent,
            p.missing,
            p.allow_missing_splits,
            p.create_missing_branch,
            copy_features(&p.terminate_missing_features),
            p.missing_node_treatment.as_str(),
            p.log_iterations,
        ) {
            Ok(d) => d,
            Err(e) => return Err(LoadError::Config(e)),
        };
        let n = saved.boosters.len();
        if p.n_boosters != n {
            return Err(LoadError::Count { expected: p.n_boosters, found: n });
        }
        let mut i: usize = 0;
        while i < n
            invariant
                n == saved.boosters@.len(),
                i <= n,
                d@.boosters.len() == i,
                d.wf(),
                d@.metadata.len() == 0,
                forall|j: int, b: B|
                    #![trigger b.encoding(), saved.boosters@[j]]
                    0 <= j < i && b.encoding() == saved.boosters@[j]@ && b.settings() == d@.config
                        ==> behaves_as(d@.boosters[j], b),
                Some(d@.config.objective) == objective_named(p.objective@),
                d@.config.num_threads == p.num_threads,
                constraints_match_codes(d@.config.monotone_constraints, p.monotone_constraints@),
                d@.config.force_children_to_bound_parent == p.force_children_to_bound_parent,
                d@.config.missing == p.missing,
                d@.config.allow_missing_splits == p.allow_missing_splits,
                d@.config.create_missing_branch == p.create_missing_branch,
                d@.config.terminate_missing_features == distinct_in_order(p.terminate_missing_features@),
                Some(d@.config.missing_node_treatment) == treatment_named(p.missing_node_treatment@),
                d@.config.log_iterations == p.log_iterations,
                codes_valid(p.monotone_constraints@),
                *p == saved.params,
                p.n_boosters == n,
            decreases n - i,
        {
            let mut b = match B::load(saved.boosters[i].as_slice()) {
                Ok(b) => b,
                Err(cause) => return Err(LoadError::Booster { index: i, cause }),
            };
            let ghost loaded = b;
            b.reconfigure(&d.config);
            proof {
                assert forall|c: B|
                    #[trigger] c.encoding() == saved.boosters@[i as int]@ && c.settings() == d@.config implies behaves_as(b, c) by {
                    assert(loaded.settings() == c.settings());
                    assert(b == loaded);
                }
            }
            d.boosters.push(b);
            i = i + 1;
        }
        d.metadata = copy_entries(&saved.metadata);
        proof {
            assert forall|c: MultiOutputView<B>|
                follows_config(c) && #[trigger] saved_describes(*saved, c) implies same_collection(d@, c) by {
                lemma_config_from_params(saved.params, c.config, d@.config);
                assert forall|j: int| 0 <= j < c.boosters.len() implies behaves_as(#[trigger] d@.boosters[j], c.boosters[j]) by {
                    let b = c.boosters[j];
                    assert(b.encoding() == saved.boosters@[j]@);
                }
            }
        }
        Ok(d)
    }

    /// Makes every booster follow the current configuration, keeping its trees.
    fn propagate(&mut self)
        requires
            constraints_distinct(old(self)@.config.monotone_constraints),
            old(self)@.config.terminate_missing_features.no_duplicates(),
        ensures
            final(self)@.config == old(self)@.config,
            final(self)@.metadata == old(self)@.metadata,
            final(self)@.boosters.len() == old(self)@.boosters.len(),
            final(self).wf(),
            forall|i: int| 0 <= i < old(self)@.boosters.len() ==> (#[trigger] final(self)@.boosters[i]).tree_count() == old(self)@.boosters[i].tree_count(),
    {
        let ghost before = self@;
        let mut i: usize = 0;
        while i < self.boosters.len()
            invariant
                i <= self@.boosters.len(),
                self@.config == before.config,
                constraints_distinct(before.config.monotone_constraints),
                before.config.terminate_missing_features.no_duplicates(),
                self@.metadata == before.metadata,
                self@.boosters.len() == before.boosters.len(),
                forall|j: int| 0 <= j < i ==> (#[trigger] self@.boosters[j]).settings() == self@.config,
                forall|j: int| 0 <= j < before.boosters.len() ==> (#[trigger] self@.boosters[j]).tree_count() == before.boosters[j].tree_count(),
            decreases self@.boosters.len() - i,
        {
            self.boosters[i].reconfigure(&self.config);
            i = i + 1;
        }
    }
}

/// A configuration rebuilt from a snapshot of another is that other one.
proof fn lemma_config_from_params<V>(p: Params<V>, c: ConfigView<V>, d: ConfigView<V>)
    requires
        params_describe(p, c),
        constraints_distinct(c.monotone_constraints),
        c.terminate_missing_features.no_duplicates(),
        config_read_from(d, p),
    ensures
        d == c,
{
    crate::laws::lemma_params_rebuild_config(p, c);
    lemma_distinct_of_distinct(c.terminate_missing_features);
    assert(d.monotone_constraints =~= c.monotone_constraints);
}

/// Storing `v` over the last entry with key `k` makes `k` look up `v` and
/// leaves every other key as it was.
proof fn lemma_lookup_after_update(
    s: Seq<(Seq<char>, Seq<char>)>,
    j: int,
    k: Seq<char>,
    v: Seq<char>,
    q: Seq<char>,
)
    requires
        0 <= j < s.len(),
        s[j].0 == k,
        forall|m: int| j < m < s.len() ==> (#[trigger] s[m]).0 != k,
    ensures
        metadata_lookup(s.update(j, (k, v)), q) == if q == k {
            Some(v)
        } else {
            metadata_lookup(s, q)
        },
    decreases s.len(),
{
    let t = s.update(j, (k, v));
    if j == s.len() - 1 {
        assert(t.drop_last() =~= s.drop_last());
    } else {
        lemma_lookup_after_update(s.drop_last(), j, k, v, q);
        assert(t.drop_last() =~= s.drop_last().update(j, (k, v)));
        assert(s.last().0 != k);
    }
}

} // verus!
