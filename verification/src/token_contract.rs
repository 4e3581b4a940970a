use crate::auth::AuthGate;
use crate::balance_book::{balance_in, BalanceBook, Holding};
use crate::error::ContractError;
use crate::identity::Identity;
use crate::ratio::fits_i128;
use crate::supply::{lemma_total_insert, total_of};
use vstd::prelude::*;

verus! {

/// The state of a balance ledger: who may mint, and what each identity holds.
#[verifier::ext_equal]
pub struct LedgerView {
    /// The identity that may mint, once one was set.
    pub admin: Option<Seq<u8>>,
    /// One entry per identity that was ever written; no entry means zero.
    pub balances: Map<Seq<u8>, int>,
}

impl LedgerView {
    /// The ledger before anything happened: no admin, no balances.
    pub open spec fn empty() -> LedgerView {
        LedgerView { admin: None, balances: Map::empty() }
    }

    /// What `who` holds; zero for an identity the ledger has never seen.
    pub open spec fn balance_of(self, who: Seq<u8>) -> int {
        balance_in(self.balances, who)
    }

    /// The sum of all balances.
    pub open spec fn total_supply(self) -> int {
        total_of(self.balances)
    }

    /// How `initialize` answers: it asks only that `admin` has proved control.
    pub open spec fn initialize_result(self, proven: Set<Seq<u8>>, admin: Seq<u8>) -> Result<
        (),
        ContractError,
    > {
        if proven.contains(admin) {
            Ok(())
        } else {
            Err(ContractError::AuthorizationError)
        }
    }

    /// The ledger with `admin` as the identity that may mint.
    pub open spec fn with_admin(self, admin: Seq<u8>) -> LedgerView {
        LedgerView { admin: Some(admin), ..self }
    }

    /// How `mint` answers. An admin must have been set and must have proved
    /// control, and the receiver's new balance must fit in 128 bits.
    pub open spec fn mint_result(self, proven: Set<Seq<u8>>, to: Seq<u8>, amount: int) -> Result<
        (),
        ContractError,
    > {
        match self.admin {
            None => Err(ContractError::NotFoundError),
            Some(admin) => {
                if !proven.contains(admin) {
                    Err(ContractError::AuthorizationError)
                } else if !fits_i128(self.balance_of(to) + amount) {
                    Err(ContractError::ArithmeticError)
                } else {
                    Ok(())
                }
            },
        }
    }

    /// The ledger with `amount` added to what `to` holds.
    pub open spec fn credited(self, to: Seq<u8>, amount: int) -> LedgerView {
        LedgerView { balances: self.balances.insert(to, self.balance_of(to) + amount), ..self }
    }

    /// How `transfer` answers. The sender must have proved control and must
    /// hold at least `amount`. A transfer to oneself then succeeds as it is;
    /// any other needs both new balances to fit in 128 bits.
    pub open spec fn transfer_result(
        self,
        proven: Set<Seq<u8>>,
        from: Seq<u8>,
        to: Seq<u8>,
        amount: int,
    ) -> Result<(), ContractError> {
        if !proven.contains(from) {
            Err(ContractError::AuthorizationError)
        } else if self.balance_of(from) < amount {
            Err(ContractError::InsufficientBalanceError)
        } else if from == to {
            Ok(())
        } else if !fits_i128(self.balance_of(from) - amount) || !fits_i128(
            self.balance_of(to) + amount,
        ) {
            Err(ContractError::ArithmeticError)
        } else {
            Ok(())
        }
    }

    /// The ledger with `amount` moved from `from` to `to`; unchanged where the
    /// two are the same identity.
    pub open spec fn moved(self, from: Seq<u8>, to: Seq<u8>, amount: int) -> LedgerView {
        if from == to {
            self
        } else {
            LedgerView {
                balances: self.balances.insert(from, self.balance_of(from) - amount).insert(
                    to,
                    self.balance_of(to) + amount,
                ),
                ..self
            }
        }
    }
}

/// One call made to a ledger, with the identities that had proved control
/// when it was made.
pub enum LedgerCall {
    Initialize { proven: Set<Seq<u8>>, admin: Seq<u8> },
    Mint { proven: Set<Seq<u8>>, to: Seq<u8>, amount: int },
    Transfer { proven: Set<Seq<u8>>, from: Seq<u8>, to: Seq<u8>, amount: int },
}

impl LedgerView {
    /// The ledger after `call`: changed as the call asks where it is
    /// accepted, and as it was where it is refused.
    pub open spec fn after(self, call: LedgerCall) -> LedgerView {
        match call {
            LedgerCall::Initialize { proven, admin } => {
                if self.initialize_result(proven, admin) is Ok {
                    self.with_admin(admin)
                } else {
                    self
                }
            },
            LedgerCall::Mint { proven, to, amount } => {
                if self.mint_result(proven, to, amount) is Ok {
                    self.credited(to, amount)
                } else {
                    self
                }
            },
            LedgerCall::Transfer { proven, from, to, amount } => {
                if self.transfer_result(proven, from, to, amount) is Ok {
                    self.moved(from, to, amount)
                } else {
                    self
                }
            },
        }
    }

    /// What `call` mints: its amount where it is an accepted mint, and
    /// nothing otherwise.
    pub open spec fn minted_by(self, call: LedgerCall) -> int {
        match call {
            LedgerCall::Mint { proven, to, amount } => {
                if self.mint_result(proven, to, amount) is Ok {
                    amount
                } else {
                    0
                }
            },
            _ => 0,
        }
    }

    /// The ledger after `calls`, made one after the other.
    pub open spec fn after_all(self, calls: Seq<LedgerCall>) -> LedgerView
        decreases calls.len(),
    {
        if calls.len() == 0 {
            self
        } else {
            self.after_all(calls.drop_last()).after(calls.last())
        }
    }

    /// What `calls`, made one after the other, mint in sum.
    pub open spec fn minted_by_all(self, calls: Seq<LedgerCall>) -> int
        decreases calls.len(),
    {
        if calls.len() == 0 {
            0
        } else {
            self.minted_by_all(calls.drop_last()) + self.after_all(calls.drop_last()).minted_by(
                calls.last(),
            )
        }
    }
}

/// Crediting changes the receiver's balance by the amount and no other.
pub proof fn lemma_credit_changes_one_balance(
    ledger: LedgerView,
    to: Seq<u8>,
    amount: int,
    who: Seq<u8>,
)
    ensures
        ledger.credited(to, amount).balance_of(who) == ledger.balance_of(who) + (if who == to {
            amount
        } else {
            0
        }),
        ledger.credited(to, amount).admin == ledger.admin,
{
}

/// Crediting grows the supply by the amount.
pub proof fn lemma_credit_grows_supply(ledger: LedgerView, to: Seq<u8>, amount: int)
    requires
        ledger.balances.dom().finite(),
    ensures
        ledger.credited(to, amount).balances.dom().finite(),
        ledger.credited(to, amount).total_supply() == ledger.total_supply() + amount,
{
    lemma_total_insert(ledger.balances, to, ledger.balance_of(to) + amount);
}

/// Moving takes the amount from the sender, gives it to the receiver and
/// touches no other balance; between one identity and itself it changes
/// nothing at all.
pub proof fn lemma_move_changes_two_balances(
    ledger: LedgerView,
    from: Seq<u8>,
    to: Seq<u8>,
    amount: int,
    who: Seq<u8>,
)
    ensures
        from != to ==> ledger.moved(from, to, amount).balance_of(who) == ledger.balance_of(who) - (
        if who == from {
            amount
        } else {
            0
        }) + (if who == to {
            amount
        } else {
            0
        }),
        from == to ==> ledger.moved(from, to, amount) == ledger,
        ledger.moved(from, to, amount).admin == ledger.admin,
{
}

/// Moving neither creates nor destroys value: the supply stays.
pub proof fn lemma_move_conserves_supply(
    ledger: LedgerView,
    from: Seq<u8>,
    to: Seq<u8>,
    amount: int,
)
    requires
        ledger.balances.dom().finite(),
    ensures
        ledger.moved(from, to, amount).balances.dom().finite(),
        ledger.moved(from, to, amount).total_supply() == ledger.total_supply(),
{
    if from != to {
        let debited = ledger.balances.insert(from, ledger.balance_of(from) - amount);
        lemma_total_insert(ledger.balances, from, ledger.balance_of(from) - amount);
        lemma_total_insert(debited, to, ledger.balance_of(to) + amount);
    }
}

/// A transfer of more than the sender holds is refused, whoever has proved
/// control, and leaves every balance as it was.
pub proof fn lemma_overdrawn_transfer_changes_nothing(
    ledger: LedgerView,
    proven: Set<Seq<u8>>,
    from: Seq<u8>,
    to: Seq<u8>,
    amount: int,
)
    requires
        ledger.balance_of(from) < amount,
    ensures
        ledger.transfer_result(proven, from, to, amount) is Err,
        proven.contains(from) ==> ledger.transfer_result(proven, from, to, amount) == Err::<
            (),
            ContractError,
        >(ContractError::InsufficientBalanceError),
        ledger.after(LedgerCall::Transfer { proven, from, to, amount }) == ledger,
{
}

/// A transfer from an identity to itself of no more than it holds is accepted
/// once the identity has proved control, and changes nothing either way.
pub proof fn lemma_self_transfer_changes_nothing(
    ledger: LedgerView,
    proven: Set<Seq<u8>>,
    who: Seq<u8>,
    amount: int,
)
    requires
        ledger.balance_of(who) >= amount,
    ensures
        proven.contains(who) ==> ledger.transfer_result(proven, who, who, amount) is Ok,
        ledger.after(LedgerCall::Transfer { proven, from: who, to: who, amount }) == ledger,
{
}

/// The amount a call names, if it names one.
pub open spec fn amount_of(call: LedgerCall) -> int {
    match call {
        LedgerCall::Initialize { .. } => 0,
        LedgerCall::Mint { amount, .. } => amount,
        LedgerCall::Transfer { amount, .. } => amount,
    }
}

/// No balance is below zero.
pub open spec fn non_negative(ledger: LedgerView) -> bool {
    forall|who: Seq<u8>| ledger.balance_of(who) >= 0
}

/// A call that names no negative amount never drives a balance below zero:
/// a transfer of more than is held is refused instead.
pub proof fn lemma_call_keeps_balances_non_negative(ledger: LedgerView, call: LedgerCall)
    requires
        non_negative(ledger),
        amount_of(call) >= 0,
    ensures
        non_negative(ledger.after(call)),
{
    assert forall|who: Seq<u8>| ledger.after(call).balance_of(who) >= 0 by {
        assert(ledger.balance_of(who) >= 0);
        match call {
            LedgerCall::Initialize { proven, admin } => {},
            LedgerCall::Mint { proven, to, amount } => {
                assert(ledger.balance_of(to) >= 0);
            },
            LedgerCall::Transfer { proven, from, to, amount } => {
                assert(ledger.balance_of(from) >= 0);
                assert(ledger.balance_of(to) >= 0);
            },
        }
    }
}

/// While no call names a negative amount, no balance is ever below zero.
pub proof fn lemma_balances_stay_non_negative(start: LedgerView, calls: Seq<LedgerCall>)
    requires
        non_negative(start),
        forall|i: int| 0 <= i < calls.len() ==> amount_of(#[trigger] calls[i]) >= 0,
    ensures
        non_negative(start.after_all(calls)),
    decreases calls.len(),
{
    if calls.len() > 0 {
        lemma_balances_stay_non_negative(start, calls.drop_last());
        lemma_call_keeps_balances_non_negative(start.after_all(calls.drop_last()), calls.last());
    }
}

/// One call changes the supply by exactly what it mints.
pub proof fn lemma_call_changes_supply_by_minted(ledger: LedgerView, call: LedgerCall)
    requires
        ledger.balances.dom().finite(),
    ensures
        ledger.after(call).balances.dom().finite(),
        ledger.after(call).total_supply() == ledger.total_supply() + ledger.minted_by(call),
{
    match call {
        LedgerCall::Initialize { proven, admin } => {},
        LedgerCall::Mint { proven, to, amount } => {
            lemma_credit_grows_supply(ledger, to, amount);
        },
        LedgerCall::Transfer { proven, from, to, amount } => {
            lemma_move_conserves_supply(ledger, from, to, amount);
        },
    }
}

/// Conservation: after any calls whatever, accepted or refused, the supply is
/// what it was at the start plus what the accepted mints added.
pub proof fn lemma_supply_is_conserved(start: LedgerView, calls: Seq<LedgerCall>)
    requires
        start.balances.dom().finite(),
    ensures
        start.after_all(calls).balances.dom().finite(),
        start.after_all(calls).total_supply() == start.total_supply() + start.minted_by_all(calls),
    decreases calls.len(),
{
    if calls.len() > 0 {
        lemma_supply_is_conserved(start, calls.drop_last());
        lemma_call_changes_supply_by_minted(start.after_all(calls.drop_last()), calls.last());
    }
}

/// On a ledger that started empty, the sum of all balances is the sum of all
/// accepted mints.
pub proof fn lemma_supply_equals_minted(calls: Seq<LedgerCall>)
    ensures
        LedgerView::empty().after_all(calls).total_supply() == LedgerView::empty().minted_by_all(
            calls,
        ),
{
    lemma_supply_is_conserved(LedgerView::empty(), calls);
}

/// The balances that a list of holdings stands for, a later holding of an
/// identity replacing an earlier one.
pub open spec fn holdings_map(holdings: Seq<Holding>) -> Map<Seq<u8>, int>
    decreases holdings.len(),
{
    if holdings.len() == 0 {
        Map::empty()
    } else {
        holdings_map(holdings.drop_last()).insert(
            holdings.last().holder@,
            holdings.last().amount as int,
        )
    }
}

/// The model of an optional identity.
pub open spec fn identity_view(identity: Option<Identity>) -> Option<Seq<u8>> {
    match identity {
        Some(id) => Some(id@),
        None => None,
    }
}

/// A fungible balance ledger: an admin mints, holders transfer, anyone reads.
pub struct TokenContract {
    admin: Option<Identity>,
    balances: BalanceBook,
}

impl View for TokenContract {
    type V = LedgerView;

    closed spec fn view(&self) -> LedgerView {
        LedgerView { admin: identity_view(self.admin), balances: self.balances@ }
    }
}

impl TokenContract {
    /// A ledger without admin and without balances.
    pub fn new() -> (ledger: TokenContract)
        ensures
            ledger@ == LedgerView::empty(),
    {
        TokenContract { admin: None, balances: BalanceBook::new() }
    }

    /// Rebuilds a ledger from what was stored of it: its admin, if one was
    /// set, and the holdings, a later holding of an identity replacing an
    /// earlier one.
    pub fn restore(admin: Option<Identity>, holdings: &Vec<Holding>) -> (ledger: TokenContract)
        ensures
            ledger@.admin == identity_view(admin),
            ledger@.balances == holdings_map(holdings@),
    {
        let mut balances = BalanceBook::new();
        let mut i: usize = 0;
        while i < holdings.len()
            invariant
                i <= holdings.len(),
                balances@ == holdings_map(holdings@.take(i as int)),
            decreases holdings.len() - i,
        {
            proof {
                let next = holdings@.take(i + 1);
                assert(next.drop_last() =~= holdings@.take(i as int));
                assert(next.last() == holdings@[i as int]);
            }
            balances.set(holdings[i].holder.clone(), holdings[i].amount);
            i += 1;
        }
        assert(holdings@.take(i as int) =~= holdings@);
        TokenContract { admin, balances }
    }

    /// The identity that may mint, once one was set.
    pub fn admin(&self) -> (admin: Option<&Identity>)
        ensures
            match admin {
                Some(id) => self@.admin == Some(id@),
                None => self@.admin is None,
            },
    {
        self.admin.as_ref()
    }

    /// Every ledger holds finitely many balances, so its supply is a sum.
    pub proof fn lemma_finite(&self)
        ensures
            self@.balances.dom().finite(),
    {
        self.balances.lemma_finite();
    }

    /// Makes `admin` the identity that may mint, in place of any earlier one.
    /// Refused with `AuthorizationError` unless `admin` has proved control.
    pub fn initialize(&mut self, auth: &AuthGate, admin: Identity) -> (done: Result<
        (),
        ContractError,
    >)
        ensures
            done == old(self)@.initialize_result(auth@, admin@),
            done is Ok ==> final(self)@ == old(self)@.with_admin(admin@),
            done is Err ==> final(self)@ == old(self)@,
    {
        if !auth.is_authorized(&admin) {
            return Err(ContractError::AuthorizationError);
        }
        self.admin = Some(admin);
        Ok(())
    }

    /// Adds `amount` to what `to` holds.
    ///
    /// Refused with `NotFoundError` while no admin is set, with
    /// `AuthorizationError` unless the admin has proved control, and with
    /// `ArithmeticError` where the new balance does not fit in 128 bits. The
    /// sign of `amount` is not examined. On success the supply grows by
    /// `amount`.
    pub fn mint(&mut self, auth: &AuthGate, to: Identity, amount: i128) -> (done: Result<
        (),
        ContractError,
    >)
        ensures
            done == old(self)@.mint_result(auth@, to@, amount as int),
            done is Ok ==> final(self)@ == old(self)@.credited(to@, amount as int),
            done is Ok ==> final(self)@.total_supply() == old(self)@.total_supply() + amount,
            done is Err ==> final(self)@ == old(self)@,
    {
        let authorized = match &self.admin {
            None => {
                return Err(ContractError::NotFoundError);
            },
            Some(admin) => auth.is_authorized(admin),
        };
        if !authorized {
            return Err(ContractError::AuthorizationError);
        }
        let held = self.balances.get(&to);
        match held.checked_add(amount) {
            None => Err(ContractError::ArithmeticError),
            Some(credited) => {
                proof {
                    self.balances.lemma_finite();
                    lemma_total_insert(self.balances@, to@, credited as int);
                }
                self.balances.set(to, credited);
                Ok(())
            },
        }
    }

    /// Moves `amount` from `from` to `to`, both balances or neither.
    ///
    /// Refused with `AuthorizationError` unless `from` has proved control,
    /// with `InsufficientBalanceError` where `from` holds less than `amount`,
    /// and with `ArithmeticError` where a new balance does not fit in 128
    /// bits. A transfer to oneself that is not refused changes nothing. The
    /// supply is the same before and after.
    pub fn transfer(&mut self, auth: &AuthGate, from: Identity, to: Identity, amount: i128) -> (done:
        Result<(), ContractError>)
        ensures
            done == old(self)@.transfer_result(auth@, from@, to@, amount as int),
            done is Ok ==> final(self)@ == old(self)@.moved(from@, to@, amount as int),
            done is Err ==> final(self)@ == old(self)@,
            final(self)@.total_supply() == old(self)@.total_supply(),
    {
        if !auth.is_authorized(&from) {
            return Err(ContractError::AuthorizationError);
        }
        let from_balance = self.balances.get(&from);
        let to_balance = self.balances.get(&to);
        if from_balance < amount {
            return Err(ContractError::InsufficientBalanceError);
        }
        if from == to {
            return Ok(());
        }
        let debited = match from_balance.checked_sub(amount) {
            None => {
                return Err(ContractError::ArithmeticError);
            },
            Some(v) => v,
        };
        let credited = match to_balance.checked_add(amount) {
            None => {
                return Err(ContractError::ArithmeticError);
            },
            Some(v) => v,
        };
        proof {
            self.balances.lemma_finite();
            lemma_total_insert(self.balances@, from@, debited as int);
            lemma_total_insert(self.balances@.insert(from@, debited as int), to@, credited as int);
        }
        self.balances.set(from, debited);
        self.balances.set(to, credited);
        Ok(())
    }

    /// What `user` holds; zero for an identity the ledger has never seen.
    pub fn balance(&self, user: Identity) -> (amount: i128)
        ensures
            amount == self@.balance_of(user@),
    {
        self.balances.get(&user)
    }
}

} // verus!
