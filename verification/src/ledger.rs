use vstd::prelude::*;

verus! {

/// An account identity as handed in by the host environment. The host
/// authenticates callers; this ledger only compares identities for equality.
#[derive(Clone, Copy, Debug, PartialEq, Eq, Structural)]
pub struct AccountId(pub u64);

/// One purchase of shares by one investor: immutable once appended,
/// never deleted or merged.
#[derive(Clone, Copy, Debug, PartialEq, Eq, Structural)]
pub struct Investment {
    pub investor: AccountId,
    pub shares: i128,
    pub amount_paid: i128,
    pub timestamp: u64,
}

/// Per-asset accumulator of deposited versus already-distributed revenue.
#[derive(Clone, Copy, Debug, PartialEq, Eq, Structural)]
pub struct Revenue {
    pub total_amount: i128,
    pub distributed_amount: i128,
    pub last_distribution: u64,
}

/// A revenue record never distributes more than was deposited.
pub open spec fn revenue_wf(rv: Revenue) -> bool {
    0 <= rv.distributed_amount <= rv.total_amount
}

/// Total shares recorded across a ledger.
pub open spec fn sum_shares(s: Seq<Investment>) -> int
    decreases s.len(),
{
    if s.len() == 0 {
        0
    } else {
        sum_shares(s.drop_last()) + s.last().shares
    }
}

/// Shares recorded for one investor across a ledger.
pub open spec fn shares_of(s: Seq<Investment>, who: AccountId) -> int
    decreases s.len(),
{
    if s.len() == 0 {
        0
    } else {
        shares_of(s.drop_last(), who) + (if s.last().investor == who {
            s.last().shares as int
        } else {
            0
        })
    }
}

/// Every recorded purchase is of a positive number of shares.
pub open spec fn all_shares_positive(s: Seq<Investment>) -> bool {
    forall|i: int| 0 <= i < s.len() ==> s[i].shares > 0
}

/// Appending a record grows the share total by exactly its shares and
/// keeps every record positive.
pub proof fn lemma_sum_shares_push(s: Seq<Investment>, inv: Investment)
    ensures
        sum_shares(s.push(inv)) == sum_shares(s) + inv.shares,
        all_shares_positive(s) && inv.shares > 0 ==> all_shares_positive(s.push(inv)),
{
    assert(s.push(inv).drop_last() =~= s);
    assert(s.push(inv).last() == inv);
    if all_shares_positive(s) && inv.shares > 0 {
        assert forall|i: int| 0 <= i < s.push(inv).len() implies s.push(inv)[i].shares > 0 by {
            if i < s.len() {
                assert(s.push(inv)[i] == s[i]);
            }
        }
    }
}

/// Extending a prefix by one record extends both running sums accordingly.
pub proof fn lemma_sums_take_succ(s: Seq<Investment>, who: AccountId, i: int)
    requires
        0 <= i < s.len(),
    ensures
        sum_shares(s.take(i + 1)) == sum_shares(s.take(i)) + s[i].shares,
        shares_of(s.take(i + 1), who) == shares_of(s.take(i), who) + (if s[i].investor == who {
            s[i].shares as int
        } else {
            0
        }),
{
    assert(s.take(i + 1).drop_last() =~= s.take(i));
    assert(s.take(i + 1).last() == s[i]);
}

/// One investor's shares are a non-negative part of the ledger's total.
pub proof fn lemma_shares_of_bounds(s: Seq<Investment>, who: AccountId)
    requires
        all_shares_positive(s),
    ensures
        0 <= shares_of(s, who) <= sum_shares(s),
    decreases s.len(),
{
    if s.len() > 0 {
        assert(all_shares_positive(s.drop_last())) by {
            assert forall|i: int| 0 <= i < s.drop_last().len() implies s.drop_last()[i].shares
                > 0 by {
                assert(s.drop_last()[i] == s[i]);
            }
        }
        lemma_shares_of_bounds(s.drop_last(), who);
        assert(s.last().shares > 0);
    }
}

/// A prefix of a ledger of positive records never records more shares
/// than the whole ledger.
pub proof fn lemma_sum_take_le(s: Seq<Investment>, i: int)
    requires
        all_shares_positive(s),
        0 <= i <= s.len(),
    ensures
        sum_shares(s.take(i)) <= sum_shares(s),
    decreases s.len() - i,
{
    if i == s.len() {
        assert(s.take(i) =~= s);
    } else {
        lemma_sums_take_succ(s, s[i].investor, i);
        lemma_sum_take_le(s, i + 1);
    }
}

/// Every prefix of a ledger of positive records keeps its share totals
/// positive as well.
pub proof fn lemma_take_positive(s: Seq<Investment>, i: int)
    requires
        all_shares_positive(s),
        0 <= i <= s.len(),
    ensures
        all_shares_positive(s.take(i)),
{
    assert forall|j: int| 0 <= j < s.take(i).len() implies s.take(i)[j].shares > 0 by {
        assert(s.take(i)[j] == s[j]);
    }
}

} // verus!
