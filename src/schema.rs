//! Records held by the stock store and the canonical stock-change event.
use vstd::prelude::*;

verus! {

/// Record identifier of a product, as the store names it.
pub struct ProductThing {
    pub id: String,
}

/// One product of the inventory collection.
pub struct Product {
    pub id: ProductThing,
    pub name: String,
    pub price: u16,
    pub units: u16,
}

/// Body of a stock update request: the number of units to take out.
pub struct UpdateProductStock {
    pub units: i64,
}

/// Identifier of a stock-change event; consumers deduplicate by it.
pub struct EventThing {
    pub id: String,
}

/// The kind of change applied to a product's unit count.
#[derive(Debug, Clone, Copy, PartialEq, Eq, Structural)]
pub enum StockAction {
    Increment,
    Decrement,
    SetUnits,
}

/// Whether `after` follows from `before` under `action`: an increment or
/// a decrement moves the count by a positive number of units.
pub open spec fn action_consistent(action: StockAction, before: u16, after: u16) -> bool {
    match action {
        StockAction::Increment => before < after,
        StockAction::Decrement => after < before,
        StockAction::SetUnits => true,
    }
}

/// The canonical record of one stock change, independent of the store's and
/// the broker's formats. Immutable once built.
pub struct StockEvent {
    pub id: EventThing,
    /// When the change happened, as the store wrote it (RFC 3339 text).
    pub occurred_at: String,
    pub action: StockAction,
    pub product_id: ProductThing,
    pub units_before: u16,
    pub units_after: u16,
}

impl StockEvent {
    /// The event's own invariant: the unit counts agree with the action.
    pub open spec fn wf(&self) -> bool {
        action_consistent(self.action, self.units_before, self.units_after)
    }
}

} // verus!
