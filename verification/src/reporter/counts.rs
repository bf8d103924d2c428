//! The numbers that a report sums up.

use crate::checker::CheckResult;
use vstd::prelude::*;

verus! {

/// The number of issues in all results.
pub open spec fn issue_total(results: Seq<CheckResult>) -> nat
    decreases results.len(),
{
    if results.len() == 0 {
        0
    } else {
        issue_total(results.drop_last()) + results.last().issues@.len()
    }
}

/// The number of results that have at least one issue.
pub open spec fn files_with_issues(results: Seq<CheckResult>) -> nat
    decreases results.len(),
{
    if results.len() == 0 {
        0
    } else if results.last().issues@.len() > 0 {
        files_with_issues(results.drop_last()) + 1
    } else {
        files_with_issues(results.drop_last())
    }
}

/// The sums of a report.
pub struct Counts {
    /// The number of results.
    pub files_checked: usize,
    /// The number of results that have at least one issue.
    pub files_with_issues: usize,
    /// The number of issues in all results.
    pub total_issues: u128,
}

/// Counts the results, those with issues, and the issues.
pub fn count(results: &[CheckResult]) -> (counts: Counts)
    ensures
        counts.files_checked == results@.len(),
        counts.files_with_issues == files_with_issues(results@),
        counts.total_issues == issue_total(results@),
{
    let mut files: usize = 0;
    let mut total: u128 = 0;
    let mut i: usize = 0;
    assert(results@.take(0) =~= Seq::<CheckResult>::empty());
    while i < results.len()
        invariant
            0 <= i <= results@.len(),
            files == files_with_issues(results@.take(i as int)),
            files <= i,
            total == issue_total(results@.take(i as int)),
            total <= i * usize::MAX,
        decreases results@.len() - i,
    {
        proof {
            assert(results@.take(i as int + 1).drop_last() =~= results@.take(i as int));
            assert(results@.take(i as int + 1).last() == results@[i as int]);
            assert(i * usize::MAX + usize::MAX <= usize::MAX * usize::MAX) by (nonlinear_arith)
                requires
                    i < usize::MAX,
            ;
            assert(usize::MAX * usize::MAX <= u128::MAX) by (nonlinear_arith)
                requires
                    usize::MAX <= 0xFFFF_FFFF_FFFF_FFFF,
                    u128::MAX == 0xFFFF_FFFF_FFFF_FFFF_FFFF_FFFF_FFFF_FFFF,
            ;
            assert((i + 1) * usize::MAX == i * usize::MAX + usize::MAX) by (nonlinear_arith);
        }
        let n: usize = results[i].issues.len();
        if n > 0 {
            files = files + 1;
        }
        total = total + n as u128;
        i = i + 1;
    }
    assert(results@.take(results@.len() as int) =~= results@);
    Counts { files_checked: results.len(), files_with_issues: files, total_issues: total }
}

} // verus!
