use vstd::prelude::*;
use crate::types::HoloHash;
use crate::error::ZomeUtilsError;

verus! {

/// True when no record before the first failed conversion, nor the one
/// that fails, lacks its create action: each outcome is the record's action
/// hash, its create action if it is one, and its converted entry.
#[verifier::opaque]
pub open spec fn creates_before_failure<H, C, R, E>(outcomes: Seq<(H, Option<C>, Result<R, E>)>) -> bool {
    forall|i: int|
        0 <= i < outcomes.len() && (forall|j: int| 0 <= j <= i ==> (#[trigger] outcomes[j]).2 is Ok)
            ==> (#[trigger] outcomes[i]).1 is Some
}

/// The typed creates of a query's records: the first failed conversion, or
/// each record's action hash, create action and converted entry, in order.
pub open spec fn typed_creates_of<H, C, R, E>(outcomes: Seq<(H, Option<C>, Result<R, E>)>) -> Result<Seq<(H, C, R)>, E>
    decreases outcomes.len(),
{
    if outcomes.len() == 0 {
        Ok(seq![])
    } else {
        match typed_creates_of(outcomes.drop_last()) {
            Err(e) => Err(e),
            Ok(done) => match outcomes.last().2 {
                Err(e) => Err(e),
                Ok(typed) => Ok(done.push((outcomes.last().0, outcomes.last().1.unwrap(), typed))),
            },
        }
    }
}

/// Where every conversion up to a record succeeded, that record has its
/// create action.
proof fn lemma_create_present<H, C, R, E>(outcomes: Seq<(H, Option<C>, Result<R, E>)>, i: int)
    requires
        creates_before_failure(outcomes),
        0 <= i < outcomes.len(),
        forall|j: int| 0 <= j < i ==> (#[trigger] outcomes[j]).2 is Ok,
        outcomes[i].2 is Ok,
    ensures
        outcomes[i].1 is Some,
{
    reveal(creates_before_failure);
    assert forall|j: int| 0 <= j <= i implies (#[trigger] outcomes[j]).2 is Ok by {
        if j < i {
            assert(outcomes[j].2 is Ok);
        }
    }
}

/// Where a prefix of the outcomes fails, all of them fail with its error.
proof fn lemma_typed_creates_prefix_fails<H, C, R, E>(outcomes: Seq<(H, Option<C>, Result<R, E>)>, n: int)
    requires
        0 <= n <= outcomes.len(),
        typed_creates_of(outcomes.take(n)) is Err,
    ensures
        typed_creates_of(outcomes) == typed_creates_of(outcomes.take(n)),
    decreases outcomes.len() - n,
{
    if n < outcomes.len() {
        assert(outcomes.take(n + 1).drop_last() =~= outcomes.take(n));
        lemma_typed_creates_prefix_fails(outcomes, n + 1);
    } else {
        assert(outcomes.take(n) =~= outcomes);
    }
}

/// Collect the typed creates of a query's records, stopping at the first
/// record whose entry does not convert.
pub fn typed_creates<H, C, R, E>(outcomes: Vec<(H, Option<C>, Result<R, E>)>) -> (res: Result<Vec<(H, C, R)>, E>)
    requires
        creates_before_failure(outcomes@),
    ensures
        res is Ok <==> typed_creates_of(outcomes@) is Ok,
        res matches Ok(v) ==> typed_creates_of(outcomes@) == Ok::<Seq<(H, C, R)>, E>(v@),
        res matches Err(e) ==> typed_creates_of(outcomes@) == Err::<Seq<(H, C, R)>, E>(e),
{
    let ghost all = outcomes@;
    let total = outcomes.len();
    let mut rest = outcomes;
    let mut done: Vec<(H, C, R)> = Vec::new();
    let mut i: usize = 0;
    while rest.len() > 0
        invariant
            all == outcomes@,
            all.len() == total,
            i + rest@.len() == all.len(),
            rest@ == all.skip(i as int),
            creates_before_failure(all),
            typed_creates_of(all.take(i as int)) == Ok::<Seq<(H, C, R)>, E>(done@),
            forall|j: int| 0 <= j < i ==> (#[trigger] all[j]).2 is Ok,
        decreases rest@.len(),
    {
        let ghost before = rest@;
        let item = rest.remove(0);
        assert(item == all[i as int]);
        let (h, c, r) = item;
        assert(rest@ =~= all.skip(i + 1));
        assert(all.take(i + 1).drop_last() =~= all.take(i as int));
        assert(all.take(i + 1).last() == all[i as int]);
        match r {
            Err(e) => {
                proof {
                    assert(typed_creates_of(all.take(i + 1)) == Err::<Seq<(H, C, R)>, E>(e));
                    lemma_typed_creates_prefix_fails(all, i + 1);
                }
                return Err(e);
            },
            Ok(typed) => {
                proof {
                    lemma_create_present(all, i as int);
                }
                let create = c.unwrap();
                done.push((h, create, typed));
            },
        }
        i = i + 1;
    }
    assert(all.take(i as int) =~= all);
    Ok(done)
}

/// The only record of a query, where it found exactly one.
pub fn single_record<R>(records: Vec<R>) -> (res: Result<R, ZomeUtilsError>)
    ensures
        records@.len() == 1 ==> res == Ok::<R, ZomeUtilsError>(records@[0]),
        records@.len() != 1 ==> res matches Err(ZomeUtilsError::RecordNotFoundAtEntryHash),
{
    if records.len() != 1 {
        return Err(ZomeUtilsError::RecordNotFoundAtEntryHash);
    }
    let mut records = records;
    let r = records.remove(0);
    Ok(r)
}

/// Whether two byte strings are equal.
pub fn bytes_equal(a: &Vec<u8>, b: &Vec<u8>) -> (res: bool)
    ensures
        res == (a@ == b@),
{
    if a.len() != b.len() {
        return false;
    }
    let mut k: usize = 0;
    while k < a.len()
        invariant
            k <= a@.len(),
            a@.len() == b@.len(),
            forall|j: int| 0 <= j < k ==> a@[j] == b@[j],
        decreases a@.len() - k,
    {
        if a[k] != b[k] {
            return false;
        }
        k = k + 1;
    }
    assert(a@ =~= b@);
    true
}

/// The position of the first record whose action has the given hash.
pub fn position_of_action(addresses: &Vec<HoloHash>, ah: &HoloHash) -> (res: Result<usize, ZomeUtilsError>)
    ensures
        res matches Ok(i) ==> {
            &&& i < addresses@.len()
            &&& addresses@[i as int]@ == ah@
            &&& forall|j: int| 0 <= j < i ==> (#[trigger] addresses@[j])@ != ah@
        },
        res is Err ==> {
            &&& res matches Err(ZomeUtilsError::RecordNotFoundAtActionHash)
            &&& forall|j: int| 0 <= j < addresses@.len() ==> (#[trigger] addresses@[j])@ != ah@
        },
{
    let mut k: usize = 0;
    while k < addresses.len()
        invariant
            k <= addresses@.len(),
            forall|j: int| 0 <= j < k ==> (#[trigger] addresses@[j])@ != ah@,
        decreases addresses@.len() - k,
    {
        if bytes_equal(&addresses[k].0, &ah.0) {
            return Ok(k);
        }
        k = k + 1;
    }
    Err(ZomeUtilsError::RecordNotFoundAtActionHash)
}

/// Where every record converts, the typed creates are all of them: one
/// entry per record, in order, the `i`-th being that record's action hash,
/// create action and converted value.
pub proof fn lemma_typed_creates_all_converted<H, C, R, E>(outcomes: Seq<(H, Option<C>, Result<R, E>)>)
    requires
        forall|i: int| 0 <= i < outcomes.len() ==> (#[trigger] outcomes[i]).2 is Ok,
    ensures
        typed_creates_of(outcomes) is Ok,
        typed_creates_of(outcomes)->Ok_0.len() == outcomes.len(),
        forall|i: int| 0 <= i < outcomes.len() ==> (#[trigger] typed_creates_of(outcomes)->Ok_0[i])
            == (outcomes[i].0, outcomes[i].1.unwrap(), outcomes[i].2->Ok_0),
    decreases outcomes.len(),
{
    if outcomes.len() > 0 {
        let init = outcomes.drop_last();
        assert forall|i: int| 0 <= i < init.len() implies (#[trigger] init[i]).2 is Ok by {
            assert(init[i] == outcomes[i]);
        }
        lemma_typed_creates_all_converted(init);
        assert(outcomes.last().2 is Ok);
        let done = typed_creates_of(init)->Ok_0;
        assert forall|i: int| 0 <= i < outcomes.len() implies (#[trigger] typed_creates_of(outcomes)->Ok_0[i])
            == (outcomes[i].0, outcomes[i].1.unwrap(), outcomes[i].2->Ok_0) by {
            if i < init.len() {
                assert(init[i] == outcomes[i]);
                assert(done[i] == (init[i].0, init[i].1.unwrap(), init[i].2->Ok_0));
            }
        }
    }
}

/// Where a record's conversion is the first to fail, the typed creates fail
/// with exactly its error.
pub proof fn lemma_typed_creates_first_failure<H, C, R, E>(outcomes: Seq<(H, Option<C>, Result<R, E>)>, k: int)
    requires
        0 <= k < outcomes.len(),
        outcomes[k].2 is Err,
        forall|i: int| 0 <= i < k ==> (#[trigger] outcomes[i]).2 is Ok,
    ensures
        typed_creates_of(outcomes) == Err::<Seq<(H, C, R)>, E>(outcomes[k].2->Err_0),
{
    let prefix = outcomes.take(k);
    assert forall|i: int| 0 <= i < prefix.len() implies (#[trigger] prefix[i]).2 is Ok by {
        assert(prefix[i] == outcomes[i]);
    }
    lemma_typed_creates_all_converted(prefix);
    assert(outcomes.take(k + 1).drop_last() =~= prefix);
    assert(outcomes.take(k + 1).last() == outcomes[k]);
    lemma_typed_creates_prefix_fails(outcomes, k + 1);
}

} // verus!
