use vstd::prelude::*;

verus! {

/// The sum of the amounts a finite balance map holds.
pub open spec fn total_of(balances: Map<Seq<u8>, int>) -> int
    decreases balances.dom().len(),
    when balances.dom().finite()
{
    if balances.dom().len() == 0 {
        0
    } else {
        let holder = balances.dom().choose();
        balances[holder] + total_of(balances.remove(holder))
    }
}

/// The sum does not depend on the order of summation: any holder's amount can
/// be taken out first.
pub proof fn lemma_total_split(balances: Map<Seq<u8>, int>, holder: Seq<u8>)
    requires
        balances.dom().finite(),
        balances.dom().contains(holder),
    ensures
        total_of(balances) == balances[holder] + total_of(balances.remove(holder)),
    decreases balances.dom().len(),
{
    let first = balances.dom().choose();
    if first != holder {
        lemma_total_split(balances.remove(first), holder);
        lemma_total_split(balances.remove(holder), first);
        assert(balances.remove(first).remove(holder) =~= balances.remove(holder).remove(first));
    }
}

/// Writing `amount` for `holder` changes the sum by the difference to what
/// `holder` held before, an absent holder counting as zero.
pub proof fn lemma_total_insert(balances: Map<Seq<u8>, int>, holder: Seq<u8>, amount: int)
    requires
        balances.dom().finite(),
    ensures
        balances.insert(holder, amount).dom().finite(),
        total_of(balances.insert(holder, amount)) == total_of(balances) + amount - (
        if balances.dom().contains(holder) {
            balances[holder]
        } else {
            0
        }),
{
    let written = balances.insert(holder, amount);
    lemma_total_split(written, holder);
    if balances.dom().contains(holder) {
        lemma_total_split(balances, holder);
        assert(written.remove(holder) =~= balances.remove(holder));
    } else {
        assert(written.remove(holder) =~= balances);
    }
}

} // verus!
