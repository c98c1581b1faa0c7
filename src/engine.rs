use vstd::prelude::*;

use crate::config::{Config, ConfigView};
use crate::matrix::{Matrix, MatrixView};

verus! {

/// What one fit call asks of a booster besides the data and the target.
pub struct FitOptions<V> {
    /// One weight per row, or equal weights.
    pub sample_weight: Option<Vec<V>>,
    pub alpha: Option<V>,
    /// How much boosting work the call may do.
    pub budget: V,
    /// `Some(false)` continues boosting on the trees already grown;
    /// `Some(true)` starts over; `None` leaves the choice to the booster.
    pub reset: Option<bool>,
    pub categorical_features: Option<Vec<usize>>,
    pub timeout: Option<V>,
}

/// The abstract content of `FitOptions`: what a fit call hands to each
/// booster besides the data and its target column.
pub struct FitOptionsView<V> {
    pub sample_weight: Option<Seq<V>>,
    pub alpha: Option<V>,
    pub budget: V,
    pub reset: Option<bool>,
    pub categorical_features: Option<Seq<usize>>,
    pub timeout: Option<V>,
}

/// The abstract content of `o`.
pub open spec fn options_view<V>(o: FitOptions<V>) -> FitOptionsView<V> {
    FitOptionsView {
        sample_weight: match o.sample_weight {
            Some(w) => Some(w@),
            None => None,
        },
        alpha: o.alpha,
        budget: o.budget,
        reset: o.reset,
        categorical_features: match o.categorical_features {
            Some(c) => Some(c@),
            None => None,
        },
        timeout: o.timeout,
    }
}

/// `a` and `b` cannot be told apart by what a booster reports: the same
/// settings, trees, base score, and answer to every matrix.
pub open spec fn behaves_as<B: SingleOutputBooster>(a: B, b: B) -> bool {
    &&& a.settings() == b.settings()
    &&& a.tree_count() == b.tree_count()
    &&& a.base() == b.base()
    &&& forall|x: MatrixView<B::Value>| #[trigger] a.accepts(x) == b.accepts(x)
    &&& forall|x: MatrixView<B::Value>| #[trigger] a.prediction(x) == b.prediction(x)
    &&& forall|x: MatrixView<B::Value>| #[trigger] a.probability(x) == b.probability(x)
    &&& forall|x: MatrixView<B::Value>| #[trigger] a.rejection(x) == b.rejection(x)
}

/// A gradient-boosted tree ensemble for a single output: the engine that a
/// multi-output collection holds one of per output column.
///
/// The spec functions describe what the engine's operations observe and
/// return. Their default bodies leave them unspecified; an implementation
/// verified against this trait defines them.
pub trait SingleOutputBooster: Sized {
    /// The numeric type of features, targets and predictions.
    type Value: Copy;
    /// What a failed fit, prediction or load reports.
    type Error;

    /// The configuration the booster currently follows.
    closed spec fn settings(&self) -> ConfigView<Self::Value> {
        arbitrary()
    }

    /// The number of trees that prediction uses.
    closed spec fn tree_count(&self) -> nat {
        arbitrary()
    }

    /// The score that prediction starts from.
    closed spec fn base(&self) -> Self::Value {
        arbitrary()
    }

    /// The booster can predict for `x` (its columns are those it was fitted on).
    closed spec fn accepts(&self, x: MatrixView<Self::Value>) -> bool {
        arbitrary()
    }

    /// The error that predicting for a matrix it does not accept reports.
    closed spec fn rejection(&self, x: MatrixView<Self::Value>) -> Self::Error {
        arbitrary()
    }

    /// The raw prediction for each row of `x`.
    closed spec fn prediction(&self, x: MatrixView<Self::Value>) -> Seq<Self::Value> {
        arbitrary()
    }

    /// The predicted probability for each row of `x`.
    closed spec fn probability(&self, x: MatrixView<Self::Value>) -> Seq<Self::Value> {
        arbitrary()
    }

    /// The booster with no trees that follows `config`.
    closed spec fn unfitted(config: ConfigView<Self::Value>) -> Self {
        arbitrary()
    }

    /// `after` is what fitting `self` on `x` against `y` with `opts` gave.
    closed spec fn fitted(
        &self,
        after: Self,
        x: MatrixView<Self::Value>,
        y: Seq<Self::Value>,
        opts: FitOptionsView<Self::Value>,
    ) -> bool {
        arbitrary()
    }

    /// Fitting `self` on `x` against `y` with `opts` failed with `e`, leaving `after`.
    closed spec fn fit_failed(
        &self,
        after: Self,
        x: MatrixView<Self::Value>,
        y: Seq<Self::Value>,
        opts: FitOptionsView<Self::Value>,
        e: Self::Error,
    ) -> bool {
        arbitrary()
    }

    /// The bytes that `save` writes for this booster.
    closed spec fn encoding(&self) -> Seq<u8> {
        arbitrary()
    }

    /// An unfitted booster that follows `config`.
    fn configured(config: &Config<Self::Value>) -> (b: Self)
        ensures
            b == Self::unfitted(config@),
            b.settings() == config@,
            b.tree_count() == 0,
    ;

    /// Makes the booster follow `config`, keeping its trees; a booster that
    /// already follows `config` is left as it is.
    fn reconfigure(&mut self, config: &Config<Self::Value>)
        ensures
            final(self).settings() == config@,
            final(self).tree_count() == old(self).tree_count(),
            old(self).settings() == config@ ==> *final(self) == *old(self),
    ;

    /// The booster as bytes.
    fn save(&self) -> (r: Vec<u8>)
        ensures
            r@ == self.encoding(),
    ;

    /// A booster read from `bytes`; bytes that some booster saves as read
    /// back as a booster that behaves as it does (see `behaves_as`).
    fn load(bytes: &[u8]) -> (r: Result<Self, Self::Error>)
        ensures
            forall|b: Self| #[trigger] b.encoding() == bytes@ ==> (r matches Ok(l) && {
                &&& l.settings() == b.settings()
                &&& l.tree_count() == b.tree_count()
                &&& l.base() == b.base()
                &&& forall|x: MatrixView<Self::Value>| #[trigger] l.accepts(x) == b.accepts(x)
                &&& forall|x: MatrixView<Self::Value>| #[trigger] l.prediction(x) == b.prediction(x)
                &&& forall|x: MatrixView<Self::Value>| #[trigger] l.probability(x) == b.probability(x)
                &&& forall|x: MatrixView<Self::Value>| #[trigger] l.rejection(x) == b.rejection(x)
            }),
    ;

    /// Fits the booster on the rows of `x` against the targets `y`.
    /// `Some(true)` for `opts.reset` starts from the unfitted booster of the
    /// same settings; `Some(false)` keeps the trees already grown.
    fn fit(
        &mut self,
        x: &Matrix<Self::Value>,
        y: &[Self::Value],
        opts: &FitOptions<Self::Value>,
    ) -> (r: Result<(), Self::Error>)
        requires
            y@.len() == x@.rows,
            opts.sample_weight matches Some(w) ==> w@.len() == x@.rows,
        ensures
            final(self).settings() == old(self).settings(),
            r is Ok ==> old(self).fitted(*final(self), x@, y@, options_view(*opts)),
            r matches Err(e) ==> old(self).fit_failed(*final(self), x@, y@, options_view(*opts), e),
            r is Ok && opts.reset == Some(true) ==> Self::unfitted(old(self).settings()).fitted(
                *final(self),
                x@,
                y@,
                options_view(*opts),
            ),
            r is Ok && opts.reset == Some(false) ==> final(self).tree_count() >= old(
                self,
            ).tree_count(),
    ;

    /// The raw prediction for each row of `x`, or the rejection of `x`.
    fn predict(&self, x: &Matrix<Self::Value>, parallel: bool) -> (r: Result<Vec<Self::Value>, Self::Error>)
        ensures
            r is Ok <==> self.accepts(x@),
            r matches Ok(v) ==> v@ == self.prediction(x@) && v@.len() == x@.rows,
            r matches Err(e) ==> e == self.rejection(x@),
    ;

    /// The predicted probability for each row of `x`, or the rejection of `x`.
    fn predict_proba(&self, x: &Matrix<Self::Value>, parallel: bool) -> (r: Result<Vec<Self::Value>, Self::Error>)
        ensures
            r is Ok <==> self.accepts(x@),
            r matches Ok(v) ==> v@ == self.probability(x@) && v@.len() == x@.rows,
            r matches Err(e) ==> e == self.rejection(x@),
    ;

    fn base_score(&self) -> (r: Self::Value)
        ensures
            r == self.base(),
    ;

    fn number_of_trees(&self) -> (r: usize)
        ensures
            r == self.tree_count(),
    ;
}

} // verus!
