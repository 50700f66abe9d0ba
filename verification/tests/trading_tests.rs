use stock_trading::trading::{
    place_order_step, plan_order, HoldingUpdate, OrderError, OrderReply, OrderType,
    PlaceOrderAction, PlaceOrderEvent,
};

fn holding_after(update: HoldingUpdate) -> Option<i32> {
    match update {
        HoldingUpdate::Insert { quantity } | HoldingUpdate::Update { quantity } => Some(quantity),
        HoldingUpdate::Delete => None,
    }
}

#[test]
fn reply_messages() {
    assert_eq!(OrderReply::InvalidSymbol.message(), "Invalid symbol");
    assert_eq!(OrderReply::OrderSent.message(), "Order sent");
}

#[test]
fn order_priced_at_zero_is_an_invalid_symbol() {
    assert_eq!(
        place_order_step(PlaceOrderEvent::Priced { zero: true }),
        PlaceOrderAction::Reply(OrderReply::InvalidSymbol)
    );
}

#[test]
fn priced_order_is_published_then_answered() {
    assert_eq!(place_order_step(PlaceOrderEvent::Priced { zero: false }), PlaceOrderAction::Publish);
    assert_eq!(
        place_order_step(PlaceOrderEvent::Published),
        PlaceOrderAction::Reply(OrderReply::OrderSent)
    );
}

#[test]
fn order_error_messages() {
    assert_eq!(OrderError::NotEnoughShares.message(), "Not enough shares to sell");
    assert_eq!(OrderError::NoSharesAvailable.message(), "No shares available to sell");
}

#[test]
fn first_purchase_creates_the_holding() {
    assert_eq!(plan_order(OrderType::Buy, 3, None), Ok(HoldingUpdate::Insert { quantity: 3 }));
}

#[test]
fn further_purchase_adds_to_the_holding() {
    assert_eq!(plan_order(OrderType::Buy, 2, Some(3)), Ok(HoldingUpdate::Update { quantity: 5 }));
}

#[test]
fn partial_sale_reduces_the_holding() {
    assert_eq!(plan_order(OrderType::Sell, 2, Some(5)), Ok(HoldingUpdate::Update { quantity: 3 }));
}

#[test]
fn selling_everything_removes_the_holding() {
    assert_eq!(plan_order(OrderType::Sell, 5, Some(5)), Ok(HoldingUpdate::Delete));
}

#[test]
fn selling_more_than_held_is_refused() {
    assert_eq!(plan_order(OrderType::Sell, 6, Some(5)), Err(OrderError::NotEnoughShares));
}

#[test]
fn selling_an_unheld_stock_is_refused() {
    assert_eq!(plan_order(OrderType::Sell, 1, None), Err(OrderError::NoSharesAvailable));
}

#[test]
fn buying_then_selling_restores_the_holding() {
    for held in [None, Some(1), Some(40)] {
        let bought = holding_after(plan_order(OrderType::Buy, 7, held).unwrap());
        let sold = holding_after(plan_order(OrderType::Sell, 7, bought).unwrap());
        assert_eq!(sold, held);
    }
}

#[test]
fn shares_are_conserved() {
    let shares = |h: Option<i32>| h.unwrap_or(0);
    let after = holding_after(plan_order(OrderType::Buy, 4, Some(10)).unwrap());
    assert_eq!(shares(after), 14);
    let after = holding_after(plan_order(OrderType::Sell, 4, Some(10)).unwrap());
    assert_eq!(shares(after), 6);
    let after = holding_after(plan_order(OrderType::Sell, 10, Some(10)).unwrap());
    assert_eq!(shares(after), 0);
}

#[test]
fn positive_orders_keep_holdings_positive() {
    for held in [None, Some(1), Some(3), Some(9)] {
        for order_type in [OrderType::Buy, OrderType::Sell] {
            if let Ok(update) = plan_order(order_type, 3, held) {
                if let Some(h) = holding_after(update) {
                    assert!(h > 0);
                }
            }
        }
    }
}
