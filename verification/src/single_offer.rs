use crate::auth::{authorization, AuthGate};
use crate::error::ContractError;
use crate::identity::Identity;
use crate::ratio::{fits_i128, scale_amount, scaled_amount, truncating_div};
use vstd::prelude::*;

verus! {

/// A standing proposal to exchange one asset for another at a fixed ratio of
/// `buy_price` to `sell_price`.
#[derive(Debug, PartialEq, Eq)]
pub struct Offer {
    /// The only identity that may change the prices.
    pub seller: Identity,
    /// The asset the seller gives.
    pub sell_token: Identity,
    /// The asset the seller takes.
    pub buy_token: Identity,
    pub sell_price: i128,
    pub buy_price: i128,
}

/// The model of an [`Offer`].
pub struct OfferView {
    pub seller: Seq<u8>,
    pub sell_token: Seq<u8>,
    pub buy_token: Seq<u8>,
    pub sell_price: int,
    pub buy_price: int,
}

impl View for Offer {
    type V = OfferView;

    open spec fn view(&self) -> OfferView {
        OfferView {
            seller: self.seller@,
            sell_token: self.sell_token@,
            buy_token: self.buy_token@,
            sell_price: self.sell_price as int,
            buy_price: self.buy_price as int,
        }
    }
}

impl Clone for Offer {
    fn clone(&self) -> (copy: Offer)
        ensures
            copy@ == self@,
    {
        Offer {
            seller: self.seller.clone(),
            sell_token: self.sell_token.clone(),
            buy_token: self.buy_token.clone(),
            sell_price: self.sell_price,
            buy_price: self.buy_price,
        }
    }
}

impl OfferView {
    /// What a buyer is owed for `sell_amount`:
    /// `sell_amount * buy_price / sell_price`, rounded toward zero. It cannot
    /// be computed where `sell_price` is zero, nor where the product or the
    /// quotient does not fit in 128 bits.
    pub open spec fn quote(self, sell_amount: int) -> Result<int, ContractError> {
        match scaled_amount(sell_amount, self.buy_price, self.sell_price) {
            Some(buy_amount) => Ok(buy_amount),
            None => Err(ContractError::ArithmeticError),
        }
    }

    /// This offer at new prices; seller and assets stay.
    pub open spec fn repriced(self, sell_price: int, buy_price: int) -> OfferView {
        OfferView { sell_price, buy_price, ..self }
    }
}

impl Offer {
    /// What a buyer is owed for `sell_amount` under this offer, or
    /// `ArithmeticError` where `sell_price` is zero or a value overflows.
    pub fn quote(&self, sell_amount: i128) -> (quoted: Result<i128, ContractError>)
        ensures
            match quoted {
                Ok(buy_amount) => self@.quote(sell_amount as int) == Ok::<int, ContractError>(
                    buy_amount as int,
                ),
                Err(e) => self@.quote(sell_amount as int) == Err::<int, ContractError>(e),
            },
    {
        match scale_amount(sell_amount, self.buy_price, self.sell_price) {
            Some(buy_amount) => Ok(buy_amount),
            None => Err(ContractError::ArithmeticError),
        }
    }
}

/// The notice that a trade was settled: who bought, what was sold and what is
/// owed in return. No asset has moved when it is issued.
#[derive(Debug, PartialEq, Eq)]
pub struct TradeEvent {
    pub buyer: Identity,
    pub sell_amount: i128,
    pub buy_amount: i128,
}

/// The model of a [`TradeEvent`].
pub struct TradeEventView {
    pub buyer: Seq<u8>,
    pub sell_amount: int,
    pub buy_amount: int,
}

impl View for TradeEvent {
    type V = TradeEventView;

    open spec fn view(&self) -> TradeEventView {
        TradeEventView {
            buyer: self.buyer@,
            sell_amount: self.sell_amount as int,
            buy_amount: self.buy_amount as int,
        }
    }
}

/// How `update_price` answers: there must be an offer, `seller` must have
/// proved control, and `seller` must be the offer's own seller.
pub open spec fn update_price_result(
    state: Option<OfferView>,
    proven: Set<Seq<u8>>,
    seller: Seq<u8>,
) -> Result<(), ContractError> {
    match state {
        None => Err(ContractError::NotFoundError),
        Some(offer) => {
            if !proven.contains(seller) || offer.seller != seller {
                Err(ContractError::AuthorizationError)
            } else {
                Ok(())
            }
        },
    }
}

/// How `trade` answers: there must be an offer, `buyer` must have proved
/// control, and the amount owed must be computable; the notice then carries
/// the buyer, the amount sold and the amount owed.
pub open spec fn trade_result(
    state: Option<OfferView>,
    proven: Set<Seq<u8>>,
    buyer: Seq<u8>,
    sell_amount: int,
) -> Result<TradeEventView, ContractError> {
    match state {
        None => Err(ContractError::NotFoundError),
        Some(offer) => {
            if !proven.contains(buyer) {
                Err(ContractError::AuthorizationError)
            } else {
                match offer.quote(sell_amount) {
                    Ok(buy_amount) => Ok(TradeEventView { buyer, sell_amount, buy_amount }),
                    Err(e) => Err(e),
                }
            }
        },
    }
}

/// The offer a contract holds after `update_price`: repriced where the call
/// is accepted, and as it was where it is refused.
pub open spec fn after_update_price(
    state: Option<OfferView>,
    proven: Set<Seq<u8>>,
    seller: Seq<u8>,
    new_sell_price: int,
    new_buy_price: int,
) -> Option<OfferView> {
    if update_price_result(state, proven, seller) is Ok {
        Some(state.unwrap().repriced(new_sell_price, new_buy_price))
    } else {
        state
    }
}

/// A trade against an offer with a non-zero `sell_price`, by a buyer who has
/// proved control, emits exactly `sell_amount * buy_price / sell_price`
/// rounded toward zero, whatever the signs, as long as the product and the
/// quotient fit in 128 bits.
pub proof fn lemma_trade_emits_ratio(
    offer: OfferView,
    proven: Set<Seq<u8>>,
    buyer: Seq<u8>,
    sell_amount: int,
)
    requires
        offer.sell_price != 0,
        proven.contains(buyer),
        fits_i128(sell_amount * offer.buy_price),
        fits_i128(truncating_div(sell_amount * offer.buy_price, offer.sell_price)),
    ensures
        trade_result(Some(offer), proven, buyer, sell_amount) == Ok::<
            TradeEventView,
            ContractError,
        >(
            TradeEventView {
                buyer,
                sell_amount,
                buy_amount: truncating_div(sell_amount * offer.buy_price, offer.sell_price),
            },
        ),
{
}

/// Only the offer's own seller, having proved control, can change the
/// prices: from anyone else `update_price` is refused with
/// `AuthorizationError` and the offer stays as it was.
pub proof fn lemma_update_price_needs_the_seller(
    offer: OfferView,
    proven: Set<Seq<u8>>,
    caller: Seq<u8>,
    new_sell_price: int,
    new_buy_price: int,
)
    requires
        caller != offer.seller || !proven.contains(caller),
    ensures
        update_price_result(Some(offer), proven, caller) == Err::<(), ContractError>(
            ContractError::AuthorizationError,
        ),
        after_update_price(Some(offer), proven, caller, new_sell_price, new_buy_price) == Some(
            offer,
        ),
{
}

/// The model of an optional offer.
pub open spec fn offer_view(offer: Option<Offer>) -> Option<OfferView> {
    match offer {
        Some(o) => Some(o@),
        None => None,
    }
}

/// The holder of the one offer of an exchange: empty until an offer is
/// created, then always holding exactly one.
pub struct SingleOfferContract {
    offer: Option<Offer>,
}

impl View for SingleOfferContract {
    type V = Option<OfferView>;

    closed spec fn view(&self) -> Option<OfferView> {
        offer_view(self.offer)
    }
}

impl SingleOfferContract {
    /// A contract in which no offer was created yet.
    pub fn new() -> (contract: SingleOfferContract)
        ensures
            contract@ is None,
    {
        SingleOfferContract { offer: None }
    }

    /// A contract that holds `offer`, as stored by an earlier call.
    pub fn with_offer(offer: Offer) -> (contract: SingleOfferContract)
        ensures
            contract@ == Some(offer@),
    {
        SingleOfferContract { offer: Some(offer) }
    }

    /// Stores a new offer in place of any earlier one.
    ///
    /// Refused with `AuthorizationError` unless `seller` has proved control.
    /// The prices are taken as they are, zero and negative ones too.
    pub fn create_offer(
        &mut self,
        auth: &AuthGate,
        seller: Identity,
        sell_token: Identity,
        buy_token: Identity,
        sell_price: i128,
        buy_price: i128,
    ) -> (done: Result<(), ContractError>)
        ensures
            done == authorization(auth@, seller@),
            done is Ok ==> final(self)@ == Some(
                OfferView {
                    seller: seller@,
                    sell_token: sell_token@,
                    buy_token: buy_token@,
                    sell_price: sell_price as int,
                    buy_price: buy_price as int,
                },
            ),
            done is Err ==> final(self)@ == old(self)@,
    {
        if !auth.is_authorized(&seller) {
            return Err(ContractError::AuthorizationError);
        }
        self.offer = Some(Offer { seller, sell_token, buy_token, sell_price, buy_price });
        Ok(())
    }

    /// Settles a trade of `sell_amount` against the offer and returns the
    /// notice to publish. Nothing stored changes and no asset moves.
    ///
    /// Refused with `NotFoundError` before an offer exists, with
    /// `AuthorizationError` unless `buyer` has proved control, and with
    /// `ArithmeticError` where the amount owed cannot be computed. The sign of
    /// `sell_amount` is not examined.
    pub fn trade(&self, auth: &AuthGate, buyer: Identity, sell_amount: i128) -> (settled: Result<
        TradeEvent,
        ContractError,
    >)
        ensures
            match trade_result(self@, auth@, buyer@, sell_amount as int) {
                Ok(notice) => settled matches Ok(event) && event@ == notice,
                Err(refusal) => settled matches Err(e) && e == refusal,
            },
    {
        match &self.offer {
            None => Err(ContractError::NotFoundError),
            Some(offer) => {
                if !auth.is_authorized(&buyer) {
                    return Err(ContractError::AuthorizationError);
                }
                match offer.quote(sell_amount) {
                    Ok(buy_amount) => Ok(TradeEvent { buyer, sell_amount, buy_amount }),
                    Err(e) => Err(e),
                }
            },
        }
    }

    /// Replaces the prices of the offer; seller and assets stay.
    ///
    /// Refused with `NotFoundError` before an offer exists, and with
    /// `AuthorizationError` unless `seller` has proved control and is the
    /// offer's own seller. The new prices are taken as they are.
    pub fn update_price(
        &mut self,
        auth: &AuthGate,
        seller: Identity,
        new_sell_price: i128,
        new_buy_price: i128,
    ) -> (done: Result<(), ContractError>)
        ensures
            done == update_price_result(old(self)@, auth@, seller@),
            done is Ok ==> final(self)@ == Some(
                old(self)@.unwrap().repriced(new_sell_price as int, new_buy_price as int),
            ),
            done is Err ==> final(self)@ == old(self)@,
            final(self)@ == after_update_price(
                old(self)@,
                auth@,
                seller@,
                new_sell_price as int,
                new_buy_price as int,
            ),
    {
        match self.offer.take() {
            None => Err(ContractError::NotFoundError),
            Some(offer) => {
                if !auth.is_authorized(&seller) || offer.seller != seller {
                    self.offer = Some(offer);
                    return Err(ContractError::AuthorizationError);
                }
                self.offer = Some(
                    Offer { sell_price: new_sell_price, buy_price: new_buy_price, ..offer },
                );
                Ok(())
            },
        }
    }

    /// The offer as it stands, or `NotFoundError` before one was created.
    pub fn get_offer(&self) -> (found: Result<Offer, ContractError>)
        ensures
            match self@ {
                Some(offer) => found matches Ok(copy) && copy@ == offer,
                None => found matches Err(e) && e == ContractError::NotFoundError,
            },
    {
        match &self.offer {
            Some(offer) => Ok(offer.clone()),
            None => Err(ContractError::NotFoundError),
        }
    }
}

} // verus!
