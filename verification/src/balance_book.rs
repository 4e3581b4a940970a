use crate::identity::Identity;
use vstd::prelude::*;

verus! {

/// What one identity holds.
#[derive(Debug)]
pub struct Holding {
    pub holder: Identity,
    pub amount: i128,
}

/// Whether some entry is kept for `who`.
pub open spec fn has_entry(entries: Seq<Holding>, who: Seq<u8>) -> bool {
    exists|i: int| 0 <= i < entries.len() && entries[i].holder@ == who
}

/// The place of an entry kept for `who`.
pub open spec fn entry_index(entries: Seq<Holding>, who: Seq<u8>) -> int {
    choose|i: int| 0 <= i < entries.len() && entries[i].holder@ == who
}

/// No identity has two entries.
pub open spec fn distinct_holders(entries: Seq<Holding>) -> bool {
    forall|i: int, j: int|
        0 <= i < j < entries.len() ==> entries[i].holder@ != entries[j].holder@
}

/// The balances that a list of entries with distinct holders stands for.
pub open spec fn entries_map(entries: Seq<Holding>) -> Map<Seq<u8>, int> {
    Map::new(
        |who: Seq<u8>| has_entry(entries, who),
        |who: Seq<u8>| entries[entry_index(entries, who)].amount as int,
    )
}

/// What `who` holds according to `balances`: nothing where no entry is kept.
pub open spec fn balance_in(balances: Map<Seq<u8>, int>, who: Seq<u8>) -> int {
    if balances.dom().contains(who) {
        balances[who]
    } else {
        0
    }
}

/// A list of entries stands for finitely many balances.
pub proof fn lemma_entries_map_finite(entries: Seq<Holding>)
    ensures
        entries_map(entries).dom().finite(),
{
    let holders = entries.map_values(|h: Holding| h.holder@);
    vstd::seq_lib::seq_to_set_is_finite(holders);
    assert forall|who: Seq<u8>| entries_map(entries).dom().contains(who) == holders.to_set().contains(
        who,
    ) by {
        if has_entry(entries, who) {
            let i = entry_index(entries, who);
            assert(holders[i] == who);
        }
        if holders.contains(who) {
            let i = choose|i: int| 0 <= i < holders.len() && holders[i] == who;
            assert(entries[i].holder@ == who);
        }
    }
    assert(entries_map(entries).dom() =~= holders.to_set());
}

/// The balances kept per identity, one entry for each identity that was ever
/// written; an identity without an entry holds nothing.
pub struct BalanceBook {
    entries: Vec<Holding>,
}

impl View for BalanceBook {
    type V = Map<Seq<u8>, int>;

    closed spec fn view(&self) -> Map<Seq<u8>, int> {
        entries_map(self.entries@)
    }
}

impl BalanceBook {
    #[verifier::type_invariant]
    spec fn well_formed(self) -> bool {
        distinct_holders(self.entries@)
    }

    /// A book without entries.
    pub fn new() -> (book: BalanceBook)
        ensures
            book@ == Map::<Seq<u8>, int>::empty(),
    {
        let book = BalanceBook { entries: Vec::new() };
        assert(book@ =~= Map::<Seq<u8>, int>::empty());
        book
    }

    /// The balances of a book are finitely many.
    pub proof fn lemma_finite(&self)
        ensures
            self@.dom().finite(),
    {
        lemma_entries_map_finite(self.entries@);
    }

    /// Where the entry of `who` is kept, if there is one.
    fn position(&self, who: &Identity) -> (found: Option<usize>)
        ensures
            match found {
                Some(i) => i < self.entries@.len() && self.entries@[i as int].holder@ == who@,
                None => !has_entry(self.entries@, who@),
            },
    {
        let mut i: usize = 0;
        while i < self.entries.len()
            invariant
                i <= self.entries.len(),
                forall|j: int| 0 <= j < i ==> self.entries@[j].holder@ != who@,
            decreases self.entries.len() - i,
        {
            if self.entries[i].holder == *who {
                return Some(i);
            }
            i += 1;
        }
        None
    }

    /// What `who` holds; zero where no entry is kept.
    pub fn get(&self, who: &Identity) -> (amount: i128)
        ensures
            amount == balance_in(self@, who@),
    {
        proof {
            use_type_invariant(self);
        }
        match self.position(who) {
            Some(i) => {
                assert(entry_index(self.entries@, who@) == i);
                self.entries[i].amount
            },
            None => 0,
        }
    }

    /// Writes `amount` as what `who` holds, in place of an earlier entry or as
    /// a new one.
    pub fn set(&mut self, who: Identity, amount: i128)
        ensures
            final(self)@ == old(self)@.insert(who@, amount as int),
    {
        proof {
            use_type_invariant(&*self);
        }
        let found = self.position(&who);
        let ghost key = who@;
        let ghost before = self.entries@;
        let mut entries: Vec<Holding> = Vec::new();
        std::mem::swap(&mut entries, &mut self.entries);
        match found {
            Some(i) => {
                entries.set(i, Holding { holder: who, amount });
            },
            None => {
                entries.push(Holding { holder: who, amount });
            },
        }
        proof {
            let after = entries@;
            let at: int = match found {
                Some(i) => i as int,
                None => before.len() as int,
            };
            assert(after[at].holder@ == key && after[at].amount == amount);
            assert forall|j: int| 0 <= j < before.len() && j != at implies after[j] == before[j] by {}
            assert forall|j: int| 0 <= j < after.len() && j != at implies after[j].holder@
                != key by {
                if found is Some {
                    assert(before[at].holder@ == key);
                } else {
                    assert(before[j].holder@ != key);
                }
            }
            assert(distinct_holders(after));
            assert forall|other: Seq<u8>| #[trigger]
                entries_map(after).dom().contains(other) == entries_map(before).insert(
                    key,
                    amount as int,
                ).dom().contains(other) by {
                if has_entry(after, other) && other != key {
                    let j = entry_index(after, other);
                    assert(before[j].holder@ == other);
                }
                if has_entry(before, other) {
                    let j = entry_index(before, other);
                    assert(after[j].holder@ == other);
                }
            }
            assert forall|other: Seq<u8>| #[trigger]
                entries_map(after).dom().contains(other) implies entries_map(after)[other]
                == entries_map(before).insert(key, amount as int)[other] by {
                let j = entry_index(after, other);
                if other == key {
                    assert(j == at);
                } else {
                    assert(j != at);
                    assert(before[j].holder@ == other);
                    assert(entry_index(before, other) == j);
                }
            }
            assert(entries_map(after) =~= entries_map(before).insert(key, amount as int));
        }
        self.entries = entries;
    }
}

} // verus!
