use vstd::prelude::*;

verus! {

/// The loss that every booster of a collection minimises.
#[derive(Debug, Clone, Copy, PartialEq, Eq, Structural)]
pub enum Objective {
    LogLoss,
    SquaredLoss,
    QuantileLoss,
    HuberLoss,
    AdaptiveHuberLoss,
}

/// How a node scores rows whose split feature is missing.
#[derive(Debug, Clone, Copy, PartialEq, Eq, Structural)]
pub enum MissingNodeTreatment {
    Unassigned,
    AssignToParent,
    AverageLeafWeight,
    AverageNodeWeight,
}

/// The monotonic restriction declared for one feature.
#[derive(Debug, Clone, Copy, PartialEq, Eq, Structural)]
pub enum Constraint {
    Positive,
    Negative,
    Unconstrained,
}

/// A configuration value that could not be understood.
#[derive(Debug, Clone, PartialEq, Eq)]
pub enum ConfigError {
    /// No objective goes by this name.
    UnknownObjective(String),
    /// No missing-node treatment goes by this name.
    UnknownMissingNodeTreatment(String),
    /// A monotonic constraint code other than -1, 0 or 1, with its feature.
    BadConstraint { feature: usize, code: i8 },
    /// A second monotonic constraint for a feature that already has one.
    DuplicateFeature { feature: usize },
    /// A monotonic constraint on a feature that the data at hand does not have.
    UnknownFeature { feature: usize, cols: usize },
}

/// The name under which an objective is written.
pub open spec fn objective_name(o: Objective) -> Seq<char> {
    match o {
        Objective::LogLoss => "LogLoss"@,
        Objective::SquaredLoss => "SquaredLoss"@,
        Objective::QuantileLoss => "QuantileLoss"@,
        Objective::HuberLoss => "HuberLoss"@,
        Objective::AdaptiveHuberLoss => "AdaptiveHuberLoss"@,
    }
}

/// The name under which a missing-node treatment is written.
pub open spec fn treatment_name(t: MissingNodeTreatment) -> Seq<char> {
    match t {
        MissingNodeTreatment::Unassigned => "None"@,
        MissingNodeTreatment::AssignToParent => "AssignToParent"@,
        MissingNodeTreatment::AverageLeafWeight => "AverageLeafWeight"@,
        MissingNodeTreatment::AverageNodeWeight => "AverageNodeWeight"@,
    }
}

/// The objective written under a name, if any.
pub open spec fn objective_named(s: Seq<char>) -> Option<Objective> {
    if s == "LogLoss"@ {
        Some(Objective::LogLoss)
    } else if s == "SquaredLoss"@ {
        Some(Objective::SquaredLoss)
    } else if s == "QuantileLoss"@ {
        Some(Objective::QuantileLoss)
    } else if s == "HuberLoss"@ {
        Some(Objective::HuberLoss)
    } else if s == "AdaptiveHuberLoss"@ {
        Some(Objective::AdaptiveHuberLoss)
    } else {
        None
    }
}

/// The missing-node treatment written under a name, if any.
pub open spec fn treatment_named(s: Seq<char>) -> Option<MissingNodeTreatment> {
    if s == "None"@ {
        Some(MissingNodeTreatment::Unassigned)
    } else if s == "AssignToParent"@ {
        Some(MissingNodeTreatment::AssignToParent)
    } else if s == "AverageLeafWeight"@ {
        Some(MissingNodeTreatment::AverageLeafWeight)
    } else if s == "AverageNodeWeight"@ {
        Some(MissingNodeTreatment::AverageNodeWeight)
    } else {
        None
    }
}

/// Reading an objective's name gives the objective back.
pub proof fn lemma_objective_name_reads_back(o: Objective)
    ensures
        objective_named(objective_name(o)) == Some(o),
{
    reveal_strlit("LogLoss");
    reveal_strlit("SquaredLoss");
    reveal_strlit("QuantileLoss");
    reveal_strlit("HuberLoss");
    reveal_strlit("AdaptiveHuberLoss");
    assert("LogLoss"@.len() == 7);
    assert("SquaredLoss"@.len() == 11);
    assert("QuantileLoss"@.len() == 12);
    assert("HuberLoss"@.len() == 9);
    assert("AdaptiveHuberLoss"@.len() == 17);
}

/// Reading a treatment's name gives the treatment back.
pub proof fn lemma_treatment_name_reads_back(t: MissingNodeTreatment)
    ensures
        treatment_named(treatment_name(t)) == Some(t),
{
    reveal_strlit("None");
    reveal_strlit("AssignToParent");
    reveal_strlit("AverageLeafWeight");
    reveal_strlit("AverageNodeWeight");
    assert("None"@.len() == 4);
    assert("AssignToParent"@.len() == 14);
    assert("AverageLeafWeight"@[7] != "AverageNodeWeight"@[7]);
}

/// The integer code of a constraint: 1 for positive, -1 for negative, 0 for none.
pub open spec fn constraint_code(c: Constraint) -> i8 {
    match c {
        Constraint::Positive => 1,
        Constraint::Negative => -1i8,
        Constraint::Unconstrained => 0,
    }
}

/// The constraint that an integer code stands for, if any.
pub open spec fn constraint_of_code(code: i8) -> Option<Constraint> {
    if code == 1 {
        Some(Constraint::Positive)
    } else if code == -1 {
        Some(Constraint::Negative)
    } else if code == 0 {
        Some(Constraint::Unconstrained)
    } else {
        None
    }
}

/// The abstract content of a configuration.
pub struct ConfigView<V> {
    pub objective: Objective,
    pub num_threads: Option<usize>,
    pub monotone_constraints: Seq<(usize, Constraint)>,
    pub force_children_to_bound_parent: bool,
    pub missing: V,
    pub allow_missing_splits: bool,
    pub create_missing_branch: bool,
    pub terminate_missing_features: Seq<usize>,
    pub missing_node_treatment: MissingNodeTreatment,
    pub log_iterations: usize,
}

/// The settings that every booster of a collection shares. `V` is the type of
/// the feature values, of which `missing` is the one that marks a missing value.
pub struct Config<V> {
    pub objective: Objective,
    /// Size of the worker pool; `None` uses every available core.
    pub num_threads: Option<usize>,
    /// Feature index and the constraint declared for it.
    pub monotone_constraints: Vec<(usize, Constraint)>,
    pub force_children_to_bound_parent: bool,
    pub missing: V,
    pub allow_missing_splits: bool,
    pub create_missing_branch: bool,
    pub terminate_missing_features: Vec<usize>,
    pub missing_node_treatment: MissingNodeTreatment,
    /// Log progress every this many iterations; 0 logs nothing.
    pub log_iterations: usize,
}

impl<V> View for Config<V> {
    type V = ConfigView<V>;

    open spec fn view(&self) -> ConfigView<V> {
        ConfigView {
            objective: self.objective,
            num_threads: self.num_threads,
            monotone_constraints: self.monotone_constraints@,
            force_children_to_bound_parent: self.force_children_to_bound_parent,
            missing: self.missing,
            allow_missing_splits: self.allow_missing_splits,
            create_missing_branch: self.create_missing_branch,
            terminate_missing_features: self.terminate_missing_features@,
            missing_node_treatment: self.missing_node_treatment,
            log_iterations: self.log_iterations,
        }
    }
}

/// Entry `i` of `codes` has a valid code and a feature that no earlier entry has.
pub open spec fn code_entry_ok(codes: Seq<(usize, i8)>, i: int) -> bool {
    &&& constraint_of_code(codes[i].1) is Some
    &&& forall|j: int| 0 <= j < i ==> (#[trigger] codes[j]).0 != codes[i].0
}

/// Every entry of `codes` has a valid code, and no feature occurs twice.
pub open spec fn codes_valid(codes: Seq<(usize, i8)>) -> bool {
    forall|i: int| 0 <= i < codes.len() ==> #[trigger] code_entry_ok(codes, i)
}

/// No feature carries two constraints.
pub open spec fn constraints_distinct(cs: Seq<(usize, Constraint)>) -> bool {
    forall|i: int, j: int| 0 <= i < j < cs.len() ==> (#[trigger] cs[i]).0 != (#[trigger] cs[j]).0
}

/// `s` with each value kept at its first occurrence only.
pub open spec fn distinct_in_order(s: Seq<usize>) -> Seq<usize>
    decreases s.len(),
{
    if s.len() == 0 {
        Seq::empty()
    } else {
        let d = distinct_in_order(s.drop_last());
        if d.contains(s.last()) {
            d
        } else {
            d.push(s.last())
        }
    }
}

/// A sequence without repeats is its own first occurrences.
pub proof fn lemma_distinct_of_distinct(s: Seq<usize>)
    requires
        s.no_duplicates(),
    ensures
        distinct_in_order(s) == s,
    decreases s.len(),
{
    if s.len() > 0 {
        let t = s.drop_last();
        assert(t.no_duplicates());
        lemma_distinct_of_distinct(t);
        assert(!t.contains(s.last()));
        assert(t.push(s.last()) =~= s);
    }
}

/// The features of `fs`, each once, in order of first occurrence.
pub fn distinct_features(fs: &Vec<usize>) -> (r: Vec<usize>)
    ensures
        r@ == distinct_in_order(fs@),
        r@.no_duplicates(),
{
    let mut out: Vec<usize> = Vec::new();
    let mut i: usize = 0;
    assert(fs@.subrange(0, 0) =~= Seq::<usize>::empty());
    while i < fs.len()
        invariant
            i <= fs@.len(),
            out@ == distinct_in_order(fs@.subrange(0, i as int)),
            out@.no_duplicates(),
        decreases fs@.len() - i,
    {
        let f = fs[i];
        assert(fs@.subrange(0, i + 1).drop_last() =~= fs@.subrange(0, i as int));
        let mut seen = false;
        let mut j: usize = 0;
        while j < out.len()
            invariant
                j <= out@.len(),
                seen <==> exists|k: int| 0 <= k < j && out@[k] == f,
            decreases out@.len() - j,
        {
            if out[j] == f {
                seen = true;
            }
            j = j + 1;
        }
        if !seen {
            out.push(f);
        }
        i = i + 1;
    }
    assert(fs@.subrange(0, fs@.len() as int) =~= fs@);
    out
}

/// `cs` holds, in order, the features of `codes` with the constraints that
/// their codes stand for.
pub open spec fn constraints_match_codes(cs: Seq<(usize, Constraint)>, codes: Seq<(usize, i8)>) -> bool {
    &&& cs.len() == codes.len()
    &&& forall|i: int|
        0 <= i < codes.len() ==> (#[trigger] cs[i]).0 == codes[i].0 && constraint_of_code(codes[i].1)
            == Some(cs[i].1)
}

/// Turns feature/code pairs into feature/constraint pairs, keeping their
/// order. Fails on the first pair whose code is not -1, 0 or 1, or whose
/// feature an earlier pair already has.
pub fn constraints_from_codes(codes: &Vec<(usize, i8)>) -> (r: Result<Vec<(usize, Constraint)>, ConfigError>)
    ensures
        r is Ok <==> codes_valid(codes@),
        r matches Ok(cs) ==> constraints_match_codes(cs@, codes@) && constraints_distinct(cs@),
        r matches Err(e) ==> exists|i: int|
            0 <= i < codes@.len() && !code_entry_ok(codes@, i) && (forall|j: int|
                0 <= j < i ==> #[trigger] code_entry_ok(codes@, j)) && e == if constraint_of_code(
                codes@[i].1,
            ) is None {
                ConfigError::BadConstraint { feature: codes@[i].0, code: codes@[i].1 }
            } else {
                ConfigError::DuplicateFeature { feature: codes@[i].0 }
            },
{
    let mut out: Vec<(usize, Constraint)> = Vec::new();
    let mut i: usize = 0;
    while i < codes.len()
        invariant
            i <= codes@.len(),
            out@.len() == i,
            forall|j: int| 0 <= j < i ==> #[trigger] code_entry_ok(codes@, j),
            forall|j: int|
                0 <= j < i ==> (#[trigger] out@[j]).0 == codes@[j].0 && constraint_of_code(codes@[j].1)
                    == Some(out@[j].1),
        decreases codes@.len() - i,
    {
        let (feature, code) = codes[i];
        let c = match Constraint::from_code(code) {
            Some(c) => c,
            None => {
                assert(!code_entry_ok(codes@, i as int));
                return Err(ConfigError::BadConstraint { feature, code });
            },
        };
        let mut j: usize = 0;
        while j < i
            invariant
                j <= i,
                i < codes@.len(),
                out@.len() == i,
                codes@[i as int] == (feature, code),
                constraint_of_code(code) is Some,
                forall|k: int| 0 <= k < i ==> #[trigger] code_entry_ok(codes@, k),
                forall|k: int| 0 <= k < i ==> (#[trigger] out@[k]).0 == codes@[k].0,
                forall|k: int| 0 <= k < j ==> (#[trigger] codes@[k]).0 != feature,
            decreases i - j,
        {
            if out[j].0 == feature {
                assert(codes@[j as int].0 == feature);
                assert(!code_entry_ok(codes@, i as int));
                assert(constraint_of_code(codes@[i as int].1) is Some);
                assert(forall|k: int| 0 <= k < i ==> #[trigger] code_entry_ok(codes@, k));
                return Err(ConfigError::DuplicateFeature { feature });
            }
            j = j + 1;
        }
        assert(code_entry_ok(codes@, i as int));
        out.push((feature, c));
        i = i + 1;
    }
    proof {
        assert forall|a: int, b: int| 0 <= a < b < out@.len() implies (#[trigger] out@[a]).0 != (
        #[trigger] out@[b]).0 by {
            assert(code_entry_ok(codes@, b));
        }
    }
    Ok(out)
}

/// Every constrained feature is one of the first `cols` features.
pub open spec fn constraints_within(cs: Seq<(usize, Constraint)>, cols: nat) -> bool {
    forall|i: int| 0 <= i < cs.len() ==> (#[trigger] cs[i]).0 < cols
}

/// The first constrained feature that is not one of the first `cols`, if any.
pub fn feature_beyond(cs: &Vec<(usize, Constraint)>, cols: usize) -> (r: Option<usize>)
    ensures
        r is None <==> constraints_within(cs@, cols as nat),
        r matches Some(f) ==> f >= cols && exists|i: int|
            0 <= i < cs@.len() && #[trigger] cs@[i].0 == f && forall|j: int| 0 <= j < i ==> (#[trigger] cs@[j]).0 < cols,
{
    let mut i: usize = 0;
    while i < cs.len()
        invariant
            i <= cs@.len(),
            forall|j: int| 0 <= j < i ==> (#[trigger] cs@[j]).0 < cols,
        decreases cs@.len() - i,
    {
        if cs[i].0 >= cols {
            return Some(cs[i].0);
        }
        i = i + 1;
    }
    None
}

/// Turns feature/constraint pairs into feature/code pairs, keeping their order.
pub fn codes_from_constraints(cs: &Vec<(usize, Constraint)>) -> (r: Vec<(usize, i8)>)
    ensures
        r@.len() == cs@.len(),
        forall|i: int|
            0 <= i < cs@.len() ==> (#[trigger] r@[i]) == (cs@[i].0, constraint_code(cs@[i].1)),
{
    let mut out: Vec<(usize, i8)> = Vec::new();
    let mut i: usize = 0;
    while i < cs.len()
        invariant
            i <= cs@.len(),
            out@.len() == i,
            forall|j: int| 0 <= j < i ==> (#[trigger] out@[j]) == (cs@[j].0, constraint_code(cs@[j].1)),
        decreases cs@.len() - i,
    {
        let (feature, c) = cs[i];
        out.push((feature, c.code()));
        i = i + 1;
    }
    out
}

/// A copy of a list of feature indices.
pub fn copy_features(fs: &Vec<usize>) -> (r: Vec<usize>)
    ensures
        r@ == fs@,
{
    let mut out: Vec<usize> = Vec::new();
    let mut i: usize = 0;
    while i < fs.len()
        invariant
            i <= fs@.len(),
            out@ == fs@.subrange(0, i as int),
        decreases fs@.len() - i,
    {
        out.push(fs[i]);
        i = i + 1;
    }
    assert(out@ =~= fs@);
    out
}

fn same_text(s: &str, lit: &str) -> (r: bool)
    ensures
        r == (s@ == lit@),
{
    s.to_owned() == lit.to_owned()
}

impl Objective {
    /// Reads an objective from its name.
    pub fn parse(s: &str) -> (r: Result<Objective, ConfigError>)
        ensures
            match objective_named(s@) {
                Some(o) => r == Ok::<Objective, ConfigError>(o),
                None => r matches Err(ConfigError::UnknownObjective(name)) && name@ == s@,
            },
    {
        if same_text(s, "LogLoss") {
            Ok(Objective::LogLoss)
        } else if same_text(s, "SquaredLoss") {
            Ok(Objective::SquaredLoss)
        } else if same_text(s, "QuantileLoss") {
            Ok(Objective::QuantileLoss)
        } else if same_text(s, "HuberLoss") {
            Ok(Objective::HuberLoss)
        } else if same_text(s, "AdaptiveHuberLoss") {
            Ok(Objective::AdaptiveHuberLoss)
        } else {
            Err(ConfigError::UnknownObjective(s.to_owned()))
        }
    }

    /// The name of this objective.
    pub fn name(&self) -> (r: String)
        ensures
            r@ == objective_name(*self),
    {
        match self {
            Objective::LogLoss => "LogLoss".to_owned(),
            Objective::SquaredLoss => "SquaredLoss".to_owned(),
            Objective::QuantileLoss => "QuantileLoss".to_owned(),
            Objective::HuberLoss => "HuberLoss".to_owned(),
            Objective::AdaptiveHuberLoss => "AdaptiveHuberLoss".to_owned(),
        }
    }
}

impl MissingNodeTreatment {
    /// Reads a missing-node treatment from its name.
    pub fn parse(s: &str) -> (r: Result<MissingNodeTreatment, ConfigError>)
        ensures
            match treatment_named(s@) {
                Some(t) => r == Ok::<MissingNodeTreatment, ConfigError>(t),
                None => r matches Err(ConfigError::UnknownMissingNodeTreatment(name)) && name@ == s@,
            },
    {
        if same_text(s, "None") {
            Ok(MissingNodeTreatment::Unassigned)
        } else if same_text(s, "AssignToParent") {
            Ok(MissingNodeTreatment::AssignToParent)
        } else if same_text(s, "AverageLeafWeight") {
            Ok(MissingNodeTreatment::AverageLeafWeight)
        } else if same_text(s, "AverageNodeWeight") {
            Ok(MissingNodeTreatment::AverageNodeWeight)
        } else {
            Err(ConfigError::UnknownMissingNodeTreatment(s.to_owned()))
        }
    }

    /// The name of this treatment.
    pub fn name(&self) -> (r: String)
        ensures
            r@ == treatment_name(*self),
    {
        match self {
            MissingNodeTreatment::Unassigned => "None".to_owned(),
            MissingNodeTreatment::AssignToParent => "AssignToParent".to_owned(),
            MissingNodeTreatment::AverageLeafWeight => "AverageLeafWeight".to_owned(),
            MissingNodeTreatment::AverageNodeWeight => "AverageNodeWeight".to_owned(),
        }
    }
}

impl Constraint {
    /// The constraint for an integer code, if the code is -1, 0 or 1.
    pub fn from_code(code: i8) -> (r: Option<Constraint>)
        ensures
            r == constraint_of_code(code),
    {
        if code == 1 {
            Some(Constraint::Positive)
        } else if code == -1 {
            Some(Constraint::Negative)
        } else if code == 0 {
            Some(Constraint::Unconstrained)
        } else {
            None
        }
    }

    /// The integer code of this constraint.
    pub fn code(&self) -> (r: i8)
        ensures
            r == constraint_code(*self),
    {
        match self {
            Constraint::Positive => 1,
            Constraint::Negative => -1,
            Constraint::Unconstrained => 0,
        }
    }
}

} // verus!
