use vstd::prelude::*;
use crate::text::same_text;

verus! {

#[derive(Debug, PartialEq, Eq, Structural, Clone, Copy)]
pub enum ProductCategory {
    Hygiene,
    Clothing,
    HomeGoods,
    Electronics,
}

/// The life of an order, in the order of its stages.
#[derive(PartialEq, Eq, Structural, Debug, Clone, Copy)]
pub enum OrderStatus {
    Pending,
    Processing,
    Shipped,
    Delivered,
    Cancelled,
}

impl OrderStatus {
    /// Position of the stage in the life of an order.
    pub open spec fn rank(self) -> int {
        match self {
            OrderStatus::Pending => 0,
            OrderStatus::Processing => 1,
            OrderStatus::Shipped => 2,
            OrderStatus::Delivered => 3,
            OrderStatus::Cancelled => 4,
        }
    }

    /// The status after `event`: a payment moves an order before processing to
    /// processing, a shipment moves one before shipping to shipped, a cancel
    /// request cancels it, and any other event changes nothing.
    pub open spec fn after(self, event: Seq<char>) -> OrderStatus {
        if event == "payment_received"@ {
            if self.rank() < OrderStatus::Processing.rank() {
                OrderStatus::Processing
            } else {
                self
            }
        } else if event == "shipped"@ {
            if self.rank() < OrderStatus::Shipped.rank() {
                OrderStatus::Shipped
            } else {
                self
            }
        } else if event == "cancel_requested"@ {
            OrderStatus::Cancelled
        } else {
            self
        }
    }

    fn rank_of(&self) -> (r: u8)
        ensures
            r as int == self.rank(),
    {
        match self {
            OrderStatus::Pending => 0,
            OrderStatus::Processing => 1,
            OrderStatus::Shipped => 2,
            OrderStatus::Delivered => 3,
            OrderStatus::Cancelled => 4,
        }
    }

    /// Applies `event` to the status and hands the status back.
    pub fn update_order_status(&mut self, event: &str) -> (r: &mut Self)
        ensures
            *r == old(self).after(event@),
            *final(self) == *final(r),
    {
        if same_text(event, "payment_received") {
            if self.rank_of() < 1 {
                *self = OrderStatus::Processing;
            }
        } else if same_text(event, "shipped") {
            if self.rank_of() < 2 {
                *self = OrderStatus::Shipped;
            }
        } else if same_text(event, "cancel_requested") {
            *self = OrderStatus::Cancelled;
        }
        self
    }
}

} // verus!
