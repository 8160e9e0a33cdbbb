//! The per-archive pipeline around the transcoder: the eligibility gate,
//! the fail-fast count of replaced files and the commit decision.
use vstd::prelude::*;

verus! {

/// Average bytes per entry above which an archive is worth processing (2 KiB).
pub const AVERAGE_SIZE_THRESHOLD: u64 = 2048;

/// Number of results that are `Ok(true)`: the files replaced.
pub open spec fn replaced_count<E>(rs: Seq<Result<bool, E>>) -> nat
    decreases rs.len(),
{
    if rs.len() == 0 {
        0
    } else {
        replaced_count(rs.drop_last()) + if rs.last() matches Ok(true) {
            1nat
        } else {
            0nat
        }
    }
}

/// Whether every per-file result is `Ok`.
pub open spec fn all_ok<E>(rs: Seq<Result<bool, E>>) -> bool {
    forall|i: int| 0 <= i < rs.len() ==> rs[i] is Ok
}

/// Whether the result at `i` is the first failed one: an `Err` with only
/// `Ok` results before it.
pub open spec fn first_err<E>(rs: Seq<Result<bool, E>>, i: int) -> bool {
    0 <= i < rs.len() && rs[i] is Err && all_ok(rs.take(i))
}

/// Aggregates the per-file outcomes of one archive: the number of replaced
/// files when no file failed, else the first failure.
#[verifier::loop_isolation(false)]
pub fn count_replaced<E>(results: Vec<Result<bool, E>>) -> (r: Result<usize, E>)
    ensures
        r is Ok <==> all_ok(results@),
        r matches Ok(n) ==> n == replaced_count(results@),
        r matches Err(e) ==> exists|i: int| first_err(results@, i) && results@[i] == Err::<bool, E>(e),
{
    let ghost rs = results@;
    // bounds the length by usize, so that the counters fit
    let _n: usize = results.len();
    let mut count: usize = 0;
    let mut results = results;
    let mut rest: Vec<Result<bool, E>> = Vec::new();
    // Reverse so that popping yields the results front to back.
    while results.len() > 0
        invariant
            rs.len() == results@.len() + rest@.len(),
            forall|j: int| 0 <= j < results@.len() ==> results@[j] == rs[j],
            forall|j: int| 0 <= j < rest@.len() ==> rest@[j] == rs[rs.len() - 1 - j],
        decreases results@.len(),
    {
        let x = results.pop().unwrap();
        rest.push(x);
    }
    let mut i: usize = 0;
    while rest.len() > 0
        invariant
            i + rest@.len() == rs.len(),
            rs.len() <= usize::MAX,
            forall|j: int| 0 <= j < rest@.len() ==> rest@[j] == rs[rs.len() - 1 - j],
            all_ok(rs.take(i as int)),
            count == replaced_count(rs.take(i as int)),
            count <= i,
        decreases rest@.len(),
    {
        let x = rest.pop().unwrap();
        proof {
            assert(x == rs[i as int]);
            assert(rs.take(i + 1).drop_last() =~= rs.take(i as int));
        }
        match x {
            Ok(replaced) => {
                if replaced {
                    count = count + 1;
                }
                i = i + 1;
                proof {
                    assert forall|j: int| 0 <= j < rs.take(i as int).len() implies rs.take(i as int)[j] is Ok by {
                        if j < i - 1 {
                            assert(rs.take(i as int)[j] == rs.take(i - 1)[j]);
                        }
                    }
                }
            },
            Err(e) => {
                assert(rs[i as int] is Err);
                assert(first_err(rs, i as int));
                assert(rs[i as int] == Err::<bool, E>(e));
                return Err(e);
            },
        }
    }
    assert(rs.take(i as int) =~= rs);
    Ok(count)
}

/// Whether the repacked archive is written out: only when a file changed.
pub fn commit_needed(replaced: usize) -> (r: bool)
    ensures
        r == (replaced > 0),
{
    replaced > 0
}

/// Average size of an entry of an archive of `file_size` bytes holding
/// `file_count` entries; none for an archive without entries.
pub fn calc_average_size_per_file(file_size: u64, file_count: u64) -> (r: Option<u64>)
    ensures
        file_count == 0 ==> r is None,
        file_count > 0 ==> r == Some((file_size / file_count) as u64),
{
    if file_count == 0 {
        None
    } else {
        Some(file_size / file_count)
    }
}

/// The eligibility gate: an archive is processed only when its entries are
/// on average larger than the threshold.
pub fn is_eligible(file_size: u64, file_count: u64) -> (r: bool)
    ensures
        r == (file_count > 0 && file_size / file_count > AVERAGE_SIZE_THRESHOLD),
{
    match calc_average_size_per_file(file_size, file_count) {
        Some(avg) => avg > AVERAGE_SIZE_THRESHOLD,
        None => false,
    }
}

/// No file is replaced exactly when no outcome says so, and then nothing is
/// committed: no destination archive is written.
pub proof fn lemma_no_change_no_output<E>(rs: Seq<Result<bool, E>>)
    ensures
        (replaced_count(rs) == 0) == (forall|i: int| 0 <= i < rs.len() ==> rs[i] != Ok::<bool, E>(true)),
    decreases rs.len(),
{
    if rs.len() > 0 {
        lemma_no_change_no_output(rs.drop_last());
        if replaced_count(rs) == 0 {
            assert forall|i: int| 0 <= i < rs.len() implies rs[i] != Ok::<bool, E>(true) by {
                if i < rs.len() - 1 {
                    assert(rs[i] == rs.drop_last()[i]);
                }
            }
        } else if replaced_count(rs.drop_last()) > 0 {
            let i = choose|i: int| 0 <= i < rs.drop_last().len() && rs.drop_last()[i] == Ok::<bool, E>(true);
            assert(rs[i] == Ok::<bool, E>(true));
        } else {
            assert(rs[rs.len() - 1] == Ok::<bool, E>(true));
        }
    }
}

} // verus!
