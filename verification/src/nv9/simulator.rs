//! A stand-in for the validator: a note every now and then, in a fixed rotation.

use vstd::prelude::*;
use vstd::string::*;

use crate::models::{hardware, ErrorView, EventView, KioskResult, PaymentEvent};
use crate::nv9::driver::DecisionWait;

verus! {

/// Time between two notes.
pub const NOTE_INTERVAL_MS: u64 = 2000;

/// The notes of the rotation.
pub open spec fn denomination(i: int) -> i64 {
    let k = i % 4;
    if k == 0 {
        100
    } else if k == 1 {
        200
    } else if k == 2 {
        500
    } else {
        1000
    }
}

/// Which note comes next, and the cash accepted so far.
pub struct Simulator {
    pub denomination_index: usize,
    pub total_inserted_rsd: i64,
}

impl Simulator {
    /// No note was inserted yet.
    pub fn new() -> (r: Simulator)
        ensures
            r.denomination_index == 0,
            r.total_inserted_rsd == 0,
    {
        Simulator { denomination_index: 0, total_inserted_rsd: 0 }
    }

    /// The next note goes into escrow.
    pub fn insert(&mut self) -> (r: i64)
        ensures
            r == denomination(old(self).denomination_index as int),
            final(self).denomination_index == (old(self).denomination_index + 1) % 4,
            final(self).total_inserted_rsd == old(self).total_inserted_rsd,
    {
        let at: usize = self.denomination_index % 4;
        let value: i64 = match at {
            0 => 100,
            1 => 200,
            2 => 500,
            _ => 1000,
        };
        self.denomination_index = (at + 1) % 4;
        value
    }

    /// The decision on a note: an accepted one is credited, a rejected one handed back, and
    /// with a stop nothing more is reported.
    pub fn decided(&mut self, value: i64, wait: DecisionWait) -> (r: KioskResult<
        Option<PaymentEvent>,
    >)
        ensures
            final(self).denomination_index == old(self).denomination_index,
            match wait {
                DecisionWait::Accept => {
                    let total = old(self).total_inserted_rsd + value;
                    if i64::MIN <= total <= i64::MAX {
                        &&& final(self).total_inserted_rsd == total
                        &&& r matches Ok(Some(e))
                        &&& e@ == (EventView::Credited {
                            value_rsd: value,
                            total_inserted_rsd: total as i64,
                        })
                    } else {
                        &&& final(self).total_inserted_rsd == old(self).total_inserted_rsd
                        &&& r matches Err(e)
                        &&& e@ == ErrorView::Hardware("NV9 simulator inserted-total overflow"@)
                    }
                },
                DecisionWait::Reject => {
                    &&& final(self).total_inserted_rsd == old(self).total_inserted_rsd
                    &&& r matches Ok(Some(e))
                    &&& e@ == (EventView::NoteReturned { value_rsd: value })
                },
                DecisionWait::Stop => {
                    &&& final(self).total_inserted_rsd == old(self).total_inserted_rsd
                    &&& r matches Ok(None)
                },
            },
    {
        match wait {
            DecisionWait::Accept => match self.total_inserted_rsd.checked_add(value) {
                Some(total) => {
                    self.total_inserted_rsd = total;
                    Ok(
                        Some(
                            PaymentEvent::Credited { value_rsd: value, total_inserted_rsd: total },
                        ),
                    )
                },
                None => Err(hardware("NV9 simulator inserted-total overflow".to_string())),
            },
            DecisionWait::Reject => Ok(Some(PaymentEvent::NoteReturned { value_rsd: value })),
            DecisionWait::Stop => Ok(None),
        }
    }
}

} // verus!
