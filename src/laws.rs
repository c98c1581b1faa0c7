use vstd::prelude::*;

use crate::config::{
    code_entry_ok, codes_valid, constraint_code, constraints_distinct, constraint_of_code, constraints_match_codes, lemma_objective_name_reads_back,
    lemma_treatment_name_reads_back, objective_named, treatment_named, Constraint, ConfigView,
};
use crate::engine::SingleOutputBooster;
use crate::matrix::MatrixView;
use crate::engine::behaves_as;
use crate::multi_output::{
    booster_output, loaded_from, same_collection, metadata_lookup, params_describe, saved_describes, LoadError, MultiOutputBooster,
    Params, SavedBooster,
};

verus! {

/// A collection's predictions for a matrix are determined by its boosters and
/// the matrix alone: whether they were computed in parallel or in sequence,
/// any two results are equal.
pub proof fn lemma_prediction_is_determined<B: SingleOutputBooster>(
    c: MultiOutputBooster<B>,
    x: MatrixView<B::Value>,
    proba: bool,
    a: Seq<B::Value>,
    b: Seq<B::Value>,
)
    requires
        c.predicted(x, proba, a),
        c.predicted(x, proba, b),
    ensures
        a == b,
{
    let n = c@.boosters.len();
    let rows = x.rows;
    assert forall|k: int| 0 <= k < a.len() implies a[k] == b[k] by {
        lemma_split_index(k, n as int, rows as int);
        let i = k / rows as int;
        let r = k % rows as int;
        assert(a[i * rows + r] == b[i * rows + r]);
    }
    assert(a =~= b);
}

/// An index below `n * rows` is `i * rows + r` for an output `i` below `n`
/// and a row `r` below `rows`.
proof fn lemma_split_index(k: int, n: int, rows: int)
    requires
        0 <= k < n * rows,
        0 <= n,
        0 <= rows,
    ensures
        rows > 0,
        0 <= k / rows < n,
        0 <= k % rows < rows,
        k == (k / rows) * rows + k % rows,
{
    if rows <= 0 {
        assert(n * rows <= 0) by (nonlinear_arith)
            requires
                0 <= n,
                rows <= 0,
        ;
    }
    vstd::arithmetic::div_mod::lemma_fundamental_div_mod(k, rows);
    vstd::arithmetic::div_mod::lemma_div_pos_is_pos(k, rows);
    vstd::arithmetic::div_mod::lemma_mod_pos_bound(k, rows);
    vstd::arithmetic::mul::lemma_mul_is_commutative(k / rows, rows);
    assert((n * rows) / rows == n) by {
        vstd::arithmetic::div_mod::lemma_div_multiples_vanish(n, rows);
        vstd::arithmetic::mul::lemma_mul_is_commutative(n, rows);
    }
    assert(k / rows < n) by {
        vstd::arithmetic::div_mod::lemma_div_is_ordered(k, n * rows - 1, rows);
        vstd::arithmetic::div_mod::lemma_fundamental_div_mod(n * rows - 1, rows);
        vstd::arithmetic::div_mod::lemma_mod_pos_bound(n * rows - 1, rows);
        assert((n * rows - 1) / rows < n) by (nonlinear_arith)
            requires
                rows > 0,
                n * rows - 1 == rows * ((n * rows - 1) / rows) + (n * rows - 1) % rows,
                0 <= (n * rows - 1) % rows,
        ;
    }
}

/// A store with no entries holds no value under any key.
pub proof fn lemma_empty_metadata_has_no_value(entries: Seq<(Seq<char>, Seq<char>)>, key: Seq<char>)
    requires
        entries.len() == 0,
    ensures
        metadata_lookup(entries, key) is None,
{
}

/// After `value` is stored under `key`, looking `key` up gives `value`, and
/// looking up any other key gives what it gave before.
pub proof fn lemma_metadata_insert_then_get(
    entries: Seq<(Seq<char>, Seq<char>)>,
    key: Seq<char>,
    value: Seq<char>,
    other: Seq<char>,
)
    ensures
        metadata_lookup(entries.push((key, value)), key) == Some(value),
        other != key ==> metadata_lookup(entries.push((key, value)), other) == metadata_lookup(
            entries,
            other,
        ),
{
    assert(entries.push((key, value)).drop_last() =~= entries);
}

/// Two parameter snapshots of one configuration are equal, so a snapshot
/// changes only when the configuration does.
pub proof fn lemma_params_follow_config<V>(p: Params<V>, q: Params<V>, c: ConfigView<V>)
    requires
        params_describe(p, c),
        params_describe(q, c),
    ensures
        p.objective@ == q.objective@,
        p.num_threads == q.num_threads,
        p.monotone_constraints@ == q.monotone_constraints@,
        p.force_children_to_bound_parent == q.force_children_to_bound_parent,
        p.missing == q.missing,
        p.allow_missing_splits == q.allow_missing_splits,
        p.create_missing_branch == q.create_missing_branch,
        p.terminate_missing_features@ == q.terminate_missing_features@,
        p.missing_node_treatment@ == q.missing_node_treatment@,
        p.log_iterations == q.log_iterations,
{
    assert(p.monotone_constraints@ =~= q.monotone_constraints@);
}

/// A parameter snapshot of a configuration with one constraint per feature
/// reads back as that configuration: its names are known, its codes are valid
/// with no feature twice, and they stand for the same objective, treatment
/// and constraints. A collection built from a snapshot
/// therefore follows the configuration of the one it was taken from.
pub proof fn lemma_params_rebuild_config<V>(p: Params<V>, c: ConfigView<V>)
    requires
        params_describe(p, c),
        constraints_distinct(c.monotone_constraints),
    ensures
        objective_named(p.objective@) == Some(c.objective),
        treatment_named(p.missing_node_treatment@) == Some(c.missing_node_treatment),
        codes_valid(p.monotone_constraints@),
        constraints_match_codes(c.monotone_constraints, p.monotone_constraints@),
{
    lemma_objective_name_reads_back(c.objective);
    lemma_treatment_name_reads_back(c.missing_node_treatment);
    assert forall|i: int| 0 <= i < p.monotone_constraints@.len() implies constraint_of_code(
        (#[trigger] p.monotone_constraints@[i]).1,
    ) == Some(c.monotone_constraints[i].1) by {
        lemma_code_reads_back(c.monotone_constraints[i].1);
    }
}

proof fn lemma_code_reads_back(k: Constraint)
    ensures
        constraint_of_code(constraint_code(k)) == Some(k),
{
}

/// Reading back what a collection was saved as gives a collection with the
/// same configuration and metadata whose boosters behave as the original
/// ones: it accepts the same matrices, predicts as the original does on
/// every matrix, and reports the same parameters.
pub proof fn lemma_save_then_load<B: SingleOutputBooster>(
    c: MultiOutputBooster<B>,
    saved: SavedBooster<B::Value>,
    r: Result<MultiOutputBooster<B>, LoadError<B::Error>>,
    x: MatrixView<B::Value>,
    proba: bool,
    out: Seq<B::Value>,
)
    requires
        c.wf(),
        saved_describes(saved, c@),
        loaded_from(r, saved),
    ensures
        r matches Ok(d) && same_collection(d@, c@),
        r matches Ok(d) && (c.all_accept(x) <==> d.all_accept(x)),
        r matches Ok(d) && (c.predicted(x, proba, out) <==> d.predicted(x, proba, out)),
{
    let d = r->Ok_0;
    assert forall|i: int| 0 <= i < c@.boosters.len() implies booster_output(
        #[trigger] d@.boosters[i],
        x,
        proba,
    ) == booster_output(c@.boosters[i], x, proba) && (d@.boosters[i].accepts(x) == c@.boosters[i].accepts(x)) by {
        assert(behaves_as(d@.boosters[i], c@.boosters[i]));
    }
    assert forall|i: int| 0 <= i < c@.boosters.len() implies (#[trigger] c@.boosters[i]).accepts(x)
        == d@.boosters[i].accepts(x) by {
        assert(behaves_as(d@.boosters[i], c@.boosters[i]));
    }
    assert(c.all_accept(x) <==> d.all_accept(x));
}

} // verus!
