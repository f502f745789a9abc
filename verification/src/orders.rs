//! The order view the orders endpoint answers with: one entry per
//! ledger entry, with its line items.

use vstd::prelude::*;
use crate::records::{LedgerEntry, LineItem};

verus! {

/// One line of an order as rendered: the line item's own id and its
/// quantity.
#[derive(Debug, Clone, Copy, PartialEq, Eq, Structural)]
pub struct ReturnItem {
    pub item_id: u64,
    pub quantity: u64,
}

/// One rendered order: the ledger entry it belongs to, its lines, and
/// the quantity of the last line (zero when there is none).
#[derive(Debug, Clone)]
pub struct ReturnOrder {
    pub transaction_id: u64,
    pub items: Vec<ReturnItem>,
    pub quantity: u64,
}

/// The rendered line of one stored line item.
pub open spec fn return_item_of(li: LineItem) -> ReturnItem {
    ReturnItem { item_id: li.id, quantity: li.quantity }
}

/// The quantity a rendered order reports: that of its last line, or
/// zero without lines.
pub open spec fn last_quantity(lis: Seq<LineItem>) -> u64 {
    if lis.len() == 0 {
        0
    } else {
        lis.last().quantity
    }
}

impl ReturnOrder {
    /// Renders each ledger entry with its line items: the entry's id,
    /// one rendered line per line item in order, and the last line's
    /// quantity.
    pub fn from_vec(items: Vec<(LedgerEntry, Vec<LineItem>)>) -> (r: Vec<ReturnOrder>)
        ensures
            r@.len() == items@.len(),
            forall|i: int|
                #![trigger r@[i]]
                0 <= i < items@.len() ==> r@[i].transaction_id == items@[i].0.id
                    && r@[i].items@ == items@[i].1@.map_values(|li: LineItem| return_item_of(li))
                    && r@[i].quantity == last_quantity(items@[i].1@),
    {
        let ghost orig = items@;
        let mut items = items;
        let mut r: Vec<ReturnOrder> = Vec::new();
        let ghost mut taken: int = 0int;
        while items.len() > 0
            invariant
                0 <= taken <= orig.len(),
                items@ == orig.skip(taken),
                r@.len() == taken,
                forall|i: int|
                    #![trigger r@[i]]
                    0 <= i < taken ==> r@[i].transaction_id == orig[i].0.id && r@[i].items@
                        == orig[i].1@.map_values(|li: LineItem| return_item_of(li)) && r@[
                        i
                    ].quantity == last_quantity(orig[i].1@),
            decreases items.len(),
        {
            let (entry, lis) = items.remove(0);
            proof {
                assert(orig.skip(taken)[0] == orig[taken]);
                assert(items@ =~= orig.skip(taken + 1));
            }
            let mut order = ReturnOrder { transaction_id: entry.id, items: Vec::new(), quantity: 0 };
            let mut j: usize = 0;
            while j < lis.len()
                invariant
                    0 <= j <= lis.len(),
                    order.transaction_id == entry.id,
                    order.items@ == lis@.take(j as int).map_values(
                        |li: LineItem| return_item_of(li),
                    ),
                    order.quantity == last_quantity(lis@.take(j as int)),
                decreases lis.len() - j,
            {
                order.items.push(ReturnItem { item_id: lis[j].id, quantity: lis[j].quantity });
                order.quantity = lis[j].quantity;
                proof {
                    assert(lis@.take(j as int + 1).drop_last() =~= lis@.take(j as int));
                    assert(lis@.take(j as int + 1).map_values(
                        |li: LineItem| return_item_of(li),
                    ) =~= lis@.take(j as int).map_values(|li: LineItem| return_item_of(li)).push(
                        return_item_of(lis@[j as int]),
                    ));
                }
                j = j + 1;
            }
            proof {
                assert(lis@.take(lis@.len() as int) =~= lis@);
            }
            r.push(order);
            proof {
                taken = taken + 1;
            }
        }
        proof {
            assert(taken == orig.len());
        }
        r
    }
}

} // verus!
