//! What the plugin registry makes of its plugins' answers: the findings of
//! every analyzer that succeeded and the contributions every generator made,
//! in registration order. Running the plugins is the application's part.
use vstd::prelude::*;

use crate::common::models::{Contribution, Finding};

verus! {

/// The findings of the analyzers that succeeded, one list after another.
pub open spec fn successful_findings(outcomes: Seq<Result<Vec<Finding>, String>>) -> Seq<Finding>
    decreases outcomes.len(),
{
    if outcomes.len() == 0 {
        seq![]
    } else {
        successful_findings(outcomes.drop_last()) + match outcomes.last() {
            Ok(fs) => fs@,
            Err(_) => seq![],
        }
    }
}

/// Gather the findings of every analyzer that succeeded; failed analyzers
/// contribute nothing.
pub fn collect_plugin_findings(outcomes: Vec<Result<Vec<Finding>, String>>) -> (r: Vec<Finding>)
    ensures
        r@ == successful_findings(outcomes@),
{
    let ghost all = outcomes@;
    let mut rest = outcomes;
    let mut out: Vec<Finding> = Vec::new();
    let mut k: usize = 0;
    let n = rest.len();
    while rest.len() > 0
        invariant
            k + rest@.len() == n,
            n == all.len(),
            rest@ == all.skip(k as int),
            out@ == successful_findings(all.take(k as int)),
        decreases rest@.len(),
    {
        let o = rest.remove(0);
        proof {
            assert(rest@ =~= all.skip(k + 1));
            assert(all.take(k + 1).drop_last() =~= all.take(k as int));
            assert(all.take(k + 1).last() == o);
        }
        match o {
            Ok(mut fs) => {
                out.append(&mut fs);
            },
            Err(_) => {},
        }
        k = k + 1;
    }
    proof {
        assert(all.take(k as int) =~= all);
    }
    out
}

/// The contributions the generators made, in order.
pub open spec fn made_contributions(outcomes: Seq<Result<Option<Contribution>, String>>) -> Seq<Contribution>
    decreases outcomes.len(),
{
    if outcomes.len() == 0 {
        seq![]
    } else {
        let before = made_contributions(outcomes.drop_last());
        match outcomes.last() {
            Ok(Some(c)) => before.push(c),
            _ => before,
        }
    }
}

/// Gather the contributions of every generator that made one; generators
/// that declined or failed contribute nothing.
pub fn collect_plugin_contributions(outcomes: Vec<Result<Option<Contribution>, String>>) -> (r: Vec<
    Contribution,
>)
    ensures
        r@ == made_contributions(outcomes@),
{
    let ghost all = outcomes@;
    let mut rest = outcomes;
    let mut out: Vec<Contribution> = Vec::new();
    let mut k: usize = 0;
    let n = rest.len();
    while rest.len() > 0
        invariant
            k + rest@.len() == n,
            n == all.len(),
            rest@ == all.skip(k as int),
            out@ == made_contributions(all.take(k as int)),
        decreases rest@.len(),
    {
        let o = rest.remove(0);
        proof {
            assert(rest@ =~= all.skip(k + 1));
            assert(all.take(k + 1).drop_last() =~= all.take(k as int));
            assert(all.take(k + 1).last() == o);
        }
        match o {
            Ok(Some(c)) => {
                out.push(c);
            },
            _ => {},
        }
        k = k + 1;
    }
    proof {
        assert(all.take(k as int) =~= all);
    }
    out
}

} // verus!
