//! Orders: how placing one is answered, and how a filled order changes the
//! holding of its stock.
use vstd::prelude::*;
use vstd::string::*;

verus! {

/// The two kinds of market order.
#[derive(Clone, Copy, Debug, PartialEq, Eq, Structural)]
pub enum OrderType {
    Buy,
    Sell,
}

/// The answers to a placed order.
#[derive(Clone, Copy, Debug, PartialEq, Eq, Structural)]
pub enum OrderReply {
    /// The symbol was not recognised, so no order went out.
    InvalidSymbol,
    /// The order went out for processing.
    OrderSent,
}

/// The text of each answer.
pub open spec fn reply_text(r: OrderReply) -> Seq<char> {
    match r {
        OrderReply::InvalidSymbol => "Invalid symbol"@,
        OrderReply::OrderSent => "Order sent"@,
    }
}

impl OrderReply {
    /// The text the caller receives.
    pub fn message(&self) -> (m: String)
        ensures
            m@ == reply_text(*self),
    {
        match self {
            OrderReply::InvalidSymbol => String::from_str("Invalid symbol"),
            OrderReply::OrderSent => String::from_str("Order sent"),
        }
    }
}

/// What happens while an order is placed.
#[derive(Clone, Copy, Debug, PartialEq, Eq, Structural)]
pub enum PlaceOrderEvent {
    /// The order was priced; `zero` tells whether its value came out as zero,
    /// which is how an unknown symbol shows.
    Priced { zero: bool },
    /// The priced order was handed on for processing.
    Published,
}

/// What placing an order does next.
#[derive(Clone, Copy, Debug, PartialEq, Eq, Structural)]
pub enum PlaceOrderAction {
    /// Hand the priced order on for processing.
    Publish,
    /// Answer the caller and stop.
    Reply(OrderReply),
}

/// The next action of placing an order, given what just happened.
pub open spec fn place_order_next(event: PlaceOrderEvent) -> PlaceOrderAction {
    match event {
        PlaceOrderEvent::Priced { zero } => if zero {
            PlaceOrderAction::Reply(OrderReply::InvalidSymbol)
        } else {
            PlaceOrderAction::Publish
        },
        PlaceOrderEvent::Published => PlaceOrderAction::Reply(OrderReply::OrderSent),
    }
}

/// Decides the next action of placing an order: an order priced at zero is
/// answered as an invalid symbol, any other is published, and a published
/// order is answered as sent.
pub fn place_order_step(event: PlaceOrderEvent) -> (action: PlaceOrderAction)
    ensures
        action == place_order_next(event),
{
    match event {
        PlaceOrderEvent::Priced { zero } => {
            if zero {
                PlaceOrderAction::Reply(OrderReply::InvalidSymbol)
            } else {
                PlaceOrderAction::Publish
            }
        },
        PlaceOrderEvent::Published => PlaceOrderAction::Reply(OrderReply::OrderSent),
    }
}

/// How the holding of a stock changes when an order on it is filled.
#[derive(Clone, Copy, Debug, PartialEq, Eq, Structural)]
pub enum HoldingUpdate {
    /// There was no holding: one with this many shares is created.
    Insert { quantity: i32 },
    /// The holding now has this many shares.
    Update { quantity: i32 },
    /// No shares are left: the holding is removed.
    Delete,
}

/// Why an order cannot be filled.
#[derive(Clone, Copy, Debug, PartialEq, Eq, Structural)]
pub enum OrderError {
    /// A sale of more shares than are held.
    NotEnoughShares,
    /// A sale of a stock that is not held.
    NoSharesAvailable,
}

/// The text of each order error.
pub open spec fn order_error_text(e: OrderError) -> Seq<char> {
    match e {
        OrderError::NotEnoughShares => "Not enough shares to sell"@,
        OrderError::NoSharesAvailable => "No shares available to sell"@,
    }
}

impl OrderError {
    /// The message reported for this error.
    pub fn message(&self) -> (m: String)
        ensures
            m@ == order_error_text(*self),
    {
        match self {
            OrderError::NotEnoughShares => String::from_str("Not enough shares to sell"),
            OrderError::NoSharesAvailable => String::from_str("No shares available to sell"),
        }
    }
}

/// Whether `x` is an `i32` value.
pub open spec fn fits_i32(x: int) -> bool {
    i32::MIN <= x <= i32::MAX
}

/// Whether filling the order keeps the share count within `i32`.
pub open spec fn order_in_range(order_type: OrderType, quantity: i32, held: Option<i32>) -> bool {
    match held {
        Some(h) => match order_type {
            OrderType::Buy => fits_i32(h + quantity),
            OrderType::Sell => h >= quantity ==> fits_i32(h - quantity),
        },
        None => true,
    }
}

/// The effect of an order of `quantity` shares on a holding of `held`
/// shares (`None`: the stock is not held). A purchase adds to the holding or
/// creates it; a sale takes from it, removes it when no shares are left, and
/// is refused when the stock is not held or fewer shares are held.
pub open spec fn order_effect(order_type: OrderType, quantity: i32, held: Option<i32>) -> Result<
    HoldingUpdate,
    OrderError,
> {
    match order_type {
        OrderType::Buy => match held {
            None => Ok(HoldingUpdate::Insert { quantity }),
            Some(h) => Ok(HoldingUpdate::Update { quantity: (h + quantity) as i32 }),
        },
        OrderType::Sell => match held {
            None => Err(OrderError::NoSharesAvailable),
            Some(h) => if h < quantity {
                Err(OrderError::NotEnoughShares)
            } else if h - quantity > 0 {
                Ok(HoldingUpdate::Update { quantity: (h - quantity) as i32 })
            } else {
                Ok(HoldingUpdate::Delete)
            },
        },
    }
}

/// The holding after an update.
pub open spec fn holding_after(update: HoldingUpdate) -> Option<i32> {
    match update {
        HoldingUpdate::Insert { quantity } => Some(quantity),
        HoldingUpdate::Update { quantity } => Some(quantity),
        HoldingUpdate::Delete => None,
    }
}

/// The number of shares a holding stands for (none when there is no holding).
pub open spec fn shares(held: Option<i32>) -> int {
    match held {
        Some(h) => h as int,
        None => 0,
    }
}

/// A holding as the books keep it: absent, or with a positive share count.
pub open spec fn valid_holding(held: Option<i32>) -> bool {
    held matches Some(h) ==> h > 0
}

/// Decides how an order of `quantity` shares changes a holding of `held`
/// shares, or why it is refused.
pub fn plan_order(order_type: OrderType, quantity: i32, held: Option<i32>) -> (r: Result<
    HoldingUpdate,
    OrderError,
>)
    requires
        order_in_range(order_type, quantity, held),
    ensures
        r == order_effect(order_type, quantity, held),
{
    match order_type {
        OrderType::Buy => match held {
            None => Ok(HoldingUpdate::Insert { quantity }),
            Some(h) => Ok(HoldingUpdate::Update { quantity: h + quantity }),
        },
        OrderType::Sell => match held {
            None => Err(OrderError::NoSharesAvailable),
            Some(h) => {
                if h < quantity {
                    return Err(OrderError::NotEnoughShares);
                }
                let left = h - quantity;
                if left > 0 {
                    Ok(HoldingUpdate::Update { quantity: left })
                } else {
                    Ok(HoldingUpdate::Delete)
                }
            },
        },
    }
}

/// Shares are conserved: a filled purchase adds exactly the bought shares to
/// the holding, a filled sale takes exactly the sold shares from it.
pub proof fn lemma_order_conserves_shares(order_type: OrderType, quantity: i32, held: Option<i32>)
    requires
        order_in_range(order_type, quantity, held),
    ensures
        order_effect(order_type, quantity, held) matches Ok(u) ==> shares(holding_after(u)) == (
        match order_type {
            OrderType::Buy => shares(held) + quantity,
            OrderType::Sell => shares(held) - quantity,
        }),
{
}

/// A sale is refused exactly when the stock is not held or fewer shares are
/// held than are sold; a purchase is never refused.
pub proof fn lemma_refusals(order_type: OrderType, quantity: i32, held: Option<i32>)
    ensures
        order_effect(order_type, quantity, held) is Err <==> (order_type == OrderType::Sell && (
        held is None || held->0 < quantity)),
        order_effect(order_type, quantity, held) == Err::<HoldingUpdate, OrderError>(
            OrderError::NoSharesAvailable,
        ) <==> (order_type == OrderType::Sell && held is None),
{
}

/// Orders of a positive number of shares keep the books valid: a holding
/// that is absent or positive stays absent or positive.
pub proof fn lemma_positive_orders_keep_holdings_valid(
    order_type: OrderType,
    quantity: i32,
    held: Option<i32>,
)
    requires
        quantity > 0,
        valid_holding(held),
        order_in_range(order_type, quantity, held),
    ensures
        order_effect(order_type, quantity, held) matches Ok(u) ==> valid_holding(holding_after(u)),
{
}

/// Buying some shares and then selling as many brings a valid holding back
/// to where it was: both orders are filled, and the holding is the same.
pub proof fn lemma_buy_then_sell_restores(quantity: i32, held: Option<i32>)
    requires
        quantity > 0,
        valid_holding(held),
        order_in_range(OrderType::Buy, quantity, held),
    ensures
        order_effect(OrderType::Buy, quantity, held) matches Ok(bought) && {
            let after_buy = holding_after(bought);
            &&& order_in_range(OrderType::Sell, quantity, after_buy)
            &&& order_effect(OrderType::Sell, quantity, after_buy) matches Ok(sold)
            &&& holding_after(sold) == held
        },
{
}

/// A holding row is created exactly by a first purchase, and with the bought
/// shares: an order on a held stock never creates a second row (a purchase
/// updates the row to the old plus the new shares), and a filled order on a
/// stock not held always creates one.
pub proof fn lemma_rows_created_only_when_absent(
    order_type: OrderType,
    quantity: i32,
    held: Option<i32>,
)
    requires
        order_in_range(order_type, quantity, held),
    ensures
        order_effect(order_type, quantity, held) matches Ok(HoldingUpdate::Insert { quantity: q })
            ==> held is None && order_type == OrderType::Buy && q == quantity,
        held is None ==> (order_effect(order_type, quantity, held) matches Ok(u) ==> u
            == HoldingUpdate::Insert { quantity }),
        held is Some && order_type == OrderType::Buy ==> (order_effect(
            order_type,
            quantity,
            held,
        ) matches Ok(HoldingUpdate::Update { quantity: q }) && q == held->0 + quantity),
{
}

/// A sale of fewer shares than held keeps the row with the rest; a sale of
/// all held shares removes it.
pub proof fn lemma_sales(quantity: i32, h: i32)
    requires
        order_in_range(OrderType::Sell, quantity, Some(h)),
    ensures
        quantity < h ==> (order_effect(OrderType::Sell, quantity, Some(h)) matches Ok(
            HoldingUpdate::Update { quantity: q },
        ) && q == h - quantity),
        quantity == h ==> order_effect(OrderType::Sell, quantity, Some(h)) == Ok::<
            HoldingUpdate,
            OrderError,
        >(HoldingUpdate::Delete),
        quantity > h ==> order_effect(OrderType::Sell, quantity, Some(h)) == Err::<
            HoldingUpdate,
            OrderError,
        >(OrderError::NotEnoughShares),
{
}

} // verus!
