//! How an order went, by what of it could be had.

use vstd::prelude::*;

verus! {

/// How an order for milk and wool went.
#[derive(Debug, Clone, Copy, PartialEq, Eq, Structural)]
pub enum Delivery {
    /// Both the milk and the wool can be had.
    Complete,
    /// Only one of the two can be had.
    Partial,
    /// Neither can be had.
    Nothing,
}

impl Delivery {
    /// How an order went, by whether its milk can be had and whether its
    /// wool can. An order counts as complete only where both are had: one
    /// that asked for milk alone, and gets it, is partial.
    pub open spec fn of_spec(milk: bool, wool: bool) -> Delivery {
        if milk && wool {
            Delivery::Complete
        } else if milk || wool {
            Delivery::Partial
        } else {
            Delivery::Nothing
        }
    }

    /// The status that answers such an order: 201, 206 or 404.
    pub open spec fn status_code_spec(self) -> u16 {
        match self {
            Delivery::Complete => 201,
            Delivery::Partial => 206,
            Delivery::Nothing => 404,
        }
    }

    /// How an order went, by whether its milk can be had and whether its
    /// wool can.
    #[verifier::when_used_as_spec(of_spec)]
    pub fn of(milk: bool, wool: bool) -> (delivery: Delivery)
        ensures
            delivery == Delivery::of_spec(milk, wool),
    {
        match (milk, wool) {
            (true, true) => Delivery::Complete,
            (false, true) | (true, false) => Delivery::Partial,
            (false, false) => Delivery::Nothing,
        }
    }

    /// The status that answers such an order: 201 where all of it can be
    /// had, 206 where some of it can, 404 where none can.
    #[verifier::when_used_as_spec(status_code_spec)]
    pub fn status_code(self) -> (code: u16)
        ensures
            code == self.status_code_spec(),
    {
        match self {
            Delivery::Complete => 201,
            Delivery::Partial => 206,
            Delivery::Nothing => 404,
        }
    }
}

} // verus!
