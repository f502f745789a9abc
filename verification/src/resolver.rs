//! The inventory resolver: maps each requested catalog code to a stocked
//! item, prices the line, and enforces stock sufficiency.
//!
//! Resolution is all-or-nothing: if any requested code is unknown or any
//! quantity exceeds the stock on hand, the whole request fails with the
//! first error in request order, and nothing is decremented. Repeated
//! codes in one request draw from the same stock, so a later pair is
//! checked against what earlier pairs already claimed.
//!
//! The resolver is side-effect-free: it works on a private copy of the
//! items and hands the decremented copy back for the commit phase to
//! apply; the store itself is untouched.

use vstd::prelude::*;
use crate::errors::{LedgerError, LedgerErrorV};
use crate::money::Money;
use crate::records::{Item, ItemV};
use crate::store::{find_item, lemma_find_item};

verus! {

/// One requested pair of a catalog code and a quantity.
#[derive(Clone, Debug)]
pub struct PostItem {
    pub upc: String,
    pub quantity: u64,
}

/// The ghost shape of a `PostItem`.
pub ghost struct PostItemV {
    pub upc: Seq<char>,
    pub quantity: u64,
}

impl View for PostItem {
    type V = PostItemV;

    open spec fn view(&self) -> PostItemV {
        PostItemV { upc: self.upc@, quantity: self.quantity }
    }
}

/// One resolved line of a withdrawal: the item, the requested quantity,
/// its unit price and the line cost `price * quantity`.
#[derive(Clone, Copy, Debug)]
pub struct ResolvedLine {
    pub item_id: u64,
    pub quantity: u64,
    pub price: Money,
    pub cost: u128,
}

/// The ghost shape of a `ResolvedLine`, with the cost as an unbounded
/// integer.
pub ghost struct LineV {
    pub item_id: u64,
    pub quantity: u64,
    pub price: int,
    pub cost: int,
}

impl View for ResolvedLine {
    type V = LineV;

    open spec fn view(&self) -> LineV {
        LineV {
            item_id: self.item_id,
            quantity: self.quantity,
            price: self.price@,
            cost: self.cost as int,
        }
    }
}

/// A successful resolution: the priced lines, the items as they will
/// stand once the withdrawal commits, and the grand total.
pub struct Resolution {
    pub lines: Vec<ResolvedLine>,
    pub items_after: Vec<Item>,
    /// The grand total in minor units, clamped to `u64::MAX + 1` in the
    /// (unrepresentable) case that the exact total exceeds `u64::MAX`;
    /// the clamped value still exceeds every representable balance.
    pub total: u128,
}

/// The ghost shape of a `Resolution`, with the exact total.
pub ghost struct ResolutionV {
    pub lines: Seq<LineV>,
    pub total: int,
    pub items_after: Seq<ItemV>,
}

/// The views of a sequence of items.
pub open spec fn items_view(items: Seq<Item>) -> Seq<ItemV> {
    items.map_values(|it: Item| it@)
}

/// The views of a sequence of requested pairs.
pub open spec fn reqs_view(reqs: Seq<PostItem>) -> Seq<PostItemV> {
    reqs.map_values(|p: PostItem| p@)
}

/// The views of a sequence of resolved lines.
pub open spec fn lines_view(lines: Seq<ResolvedLine>) -> Seq<LineV> {
    lines.map_values(|l: ResolvedLine| l@)
}

/// An exact total clamped to what the resolver's counter can hold.
pub open spec fn clamp_total(total: int) -> int {
    if total > u64::MAX {
        u64::MAX + 1
    } else {
        total
    }
}

/// What resolution returns: processing the pairs in request order, each
/// is looked up by catalog code (first failure: `ItemNotFound`), priced
/// at `price * quantity`, and checked against the stock that earlier
/// pairs left (first failure: `InsufficientStock`). On success, the
/// lines, the exact grand total and the decremented items.
pub open spec fn resolve_spec(items: Seq<ItemV>, reqs: Seq<PostItemV>) -> Result<
    ResolutionV,
    LedgerErrorV,
>
    decreases reqs.len(),
{
    if reqs.len() == 0 {
        Ok(ResolutionV { lines: Seq::empty(), total: 0, items_after: items })
    } else {
        let req = reqs[0];
        let idx = find_item(items, req.upc);
        if idx < 0 {
            Err(LedgerErrorV::ItemNotFound(req.upc))
        } else {
            let it = items[idx];
            if it.quantity < req.quantity {
                Err(
                    LedgerErrorV::InsufficientStock {
                        upc: req.upc,
                        available: it.quantity,
                        requested: req.quantity,
                    },
                )
            } else {
                let line = LineV {
                    item_id: it.id,
                    quantity: req.quantity,
                    price: it.price,
                    cost: it.price * req.quantity,
                };
                let items2 = items.update(
                    idx,
                    ItemV {
                        id: it.id,
                        upc: it.upc,
                        name: it.name,
                        price: it.price,
                        quantity: (it.quantity - req.quantity) as u64,
                    },
                );
                match resolve_spec(items2, reqs.drop_first()) {
                    Ok(rest) => Ok(
                        ResolutionV {
                            lines: seq![line] + rest.lines,
                            total: line.cost + rest.total,
                            items_after: rest.items_after,
                        },
                    ),
                    Err(e) => Err(e),
                }
            }
        }
    }
}

/// Every item keeps its identity, catalog code, name and price, and no
/// item's stock grows.
pub open spec fn shape_kept(before: Seq<ItemV>, after: Seq<ItemV>) -> bool {
    &&& after.len() == before.len()
    &&& forall|i: int|
        #![trigger after[i]]
        0 <= i < before.len() ==> after[i].id == before[i].id && after[i].upc == before[i].upc
            && after[i].name == before[i].name && after[i].price == before[i].price
            && after[i].quantity <= before[i].quantity
}

/// The total quantity the resolved lines request of one item.
pub open spec fn requested_of(lines: Seq<LineV>, item_id: u64) -> int
    decreases lines.len(),
{
    if lines.len() == 0 {
        0
    } else {
        (if lines[0].item_id == item_id {
            lines[0].quantity as int
        } else {
            0
        }) + requested_of(lines.drop_first(), item_id)
    }
}

/// The sum of the resolved line costs.
pub open spec fn total_of(lines: Seq<LineV>) -> int
    decreases lines.len(),
{
    if lines.len() == 0 {
        0
    } else {
        lines[0].cost + total_of(lines.drop_first())
    }
}

/// A successful resolution keeps every item's identity and never grows
/// stock.
pub proof fn lemma_resolve_shape(items: Seq<ItemV>, reqs: Seq<PostItemV>)
    requires
        resolve_spec(items, reqs) is Ok,
    ensures
        shape_kept(items, resolve_spec(items, reqs)->Ok_0.items_after),
    decreases reqs.len(),
{
    if reqs.len() == 0 {
    } else {
        let idx = find_item(items, reqs[0].upc);
        lemma_find_item(items, reqs[0].upc);
        let it = items[idx];
        let items2 = items.update(
            idx,
            ItemV {
                id: it.id,
                upc: it.upc,
                name: it.name,
                price: it.price,
                quantity: (it.quantity - reqs[0].quantity) as u64,
            },
        );
        lemma_resolve_shape(items2, reqs.drop_first());
        let after = resolve_spec(items, reqs)->Ok_0.items_after;
        assert forall|i: int| #![trigger after[i]] 0 <= i < items.len()
            implies after[i].id == items[i].id && after[i].upc == items[i].upc && after[i].name
            == items[i].name && after[i].price == items[i].price && after[i].quantity <= items[
            i
        ].quantity by {
            assert(shape_kept(items2, after));
            assert(after[i].id == items2[i].id);
        }
    }
}

/// A successful resolution decrements each item's stock by exactly the
/// total quantity its lines request of it, prices each line at the
/// item's unit price times the requested quantity, and totals to the
/// sum of the line costs. Item ids must be unique for the per-item
/// accounting to be well defined.
pub proof fn lemma_resolve_accounting(items: Seq<ItemV>, reqs: Seq<PostItemV>)
    requires
        resolve_spec(items, reqs) is Ok,
        forall|i: int, j: int| 0 <= i < j < items.len() ==> items[i].id != items[j].id,
    ensures
        ({
            let res = resolve_spec(items, reqs)->Ok_0;
            &&& forall|i: int|
                #![trigger res.items_after[i]]
                0 <= i < items.len() ==> res.items_after[i].quantity == items[i].quantity
                    - requested_of(res.lines, items[i].id)
            &&& forall|j: int|
                #![trigger res.lines[j]]
                0 <= j < res.lines.len() ==> res.lines[j].cost == res.lines[j].price * res.lines[
                    j
                ].quantity && res.lines[j].quantity >= 0
            &&& res.total == total_of(res.lines)
            &&& res.lines.len() == reqs.len()
        }),
    decreases reqs.len(),
{
    let res = resolve_spec(items, reqs)->Ok_0;
    if reqs.len() == 0 {
        assert(forall|i: int|
            #![trigger res.items_after[i]]
            0 <= i < items.len() ==> requested_of(res.lines, items[i].id) == 0);
    } else {
        let idx = find_item(items, reqs[0].upc);
        lemma_find_item(items, reqs[0].upc);
        let it = items[idx];
        let line = LineV {
            item_id: it.id,
            quantity: reqs[0].quantity,
            price: it.price,
            cost: it.price * reqs[0].quantity,
        };
        let items2 = items.update(
            idx,
            ItemV {
                id: it.id,
                upc: it.upc,
                name: it.name,
                price: it.price,
                quantity: (it.quantity - reqs[0].quantity) as u64,
            },
        );
        lemma_resolve_accounting(items2, reqs.drop_first());
        let rest = resolve_spec(items2, reqs.drop_first())->Ok_0;
        assert(res.lines =~= seq![line] + rest.lines);
        assert((seq![line] + rest.lines).drop_first() =~= rest.lines);
        assert forall|i: int| #![trigger res.items_after[i]] 0 <= i < items.len()
            implies res.items_after[i].quantity == items[i].quantity - requested_of(
                res.lines,
                items[i].id,
            ) by {
            assert(res.items_after[i].quantity == items2[i].quantity - requested_of(
                rest.lines,
                items2[i].id,
            ));
            if i != idx {
                assert(items[i].id != it.id);
            }
        }
    }
}

/// Lookup by catalog code lands on the same position in two item
/// sequences whose codes agree pointwise.
pub proof fn lemma_find_item_same_upcs(a: Seq<ItemV>, b: Seq<ItemV>, upc: Seq<char>)
    requires
        a.len() == b.len(),
        forall|i: int| 0 <= i < a.len() ==> a[i].upc == b[i].upc,
    ensures
        find_item(a, upc) == find_item(b, upc),
    decreases a.len(),
{
    if a.len() > 0 {
        assert forall|i: int| 0 <= i < a.drop_first().len() implies a.drop_first()[i].upc
            == b.drop_first()[i].upc by {
            assert(a.drop_first()[i] == a[i + 1]);
            assert(b.drop_first()[i] == b[i + 1]);
        }
        lemma_find_item_same_upcs(a.drop_first(), b.drop_first(), upc);
    }
}

/// A request that references an unregistered catalog code can never
/// resolve: the whole withdrawal is rejected.
pub proof fn lemma_unknown_code_fails(items: Seq<ItemV>, reqs: Seq<PostItemV>, i: int)
    requires
        0 <= i < reqs.len(),
        find_item(items, reqs[i].upc) < 0,
    ensures
        resolve_spec(items, reqs) is Err,
    decreases reqs.len(),
{
    let idx = find_item(items, reqs[0].upc);
    if i == 0 {
    } else if idx >= 0 {
        lemma_find_item(items, reqs[0].upc);
        let it = items[idx];
        if it.quantity >= reqs[0].quantity {
            let items2 = items.update(
                idx,
                ItemV {
                    id: it.id,
                    upc: it.upc,
                    name: it.name,
                    price: it.price,
                    quantity: (it.quantity - reqs[0].quantity) as u64,
                },
            );
            lemma_find_item_same_upcs(items, items2, reqs[i].upc);
            assert(reqs.drop_first()[i - 1] == reqs[i]);
            lemma_unknown_code_fails(items2, reqs.drop_first(), i - 1);
        }
    }
}

/// When no unit price is negative, a successful resolution's total and
/// line costs are not negative either.
pub proof fn lemma_resolve_total_nonneg(items: Seq<ItemV>, reqs: Seq<PostItemV>)
    requires
        resolve_spec(items, reqs) is Ok,
        forall|i: int| 0 <= i < items.len() ==> (#[trigger] items[i]).price >= 0,
    ensures
        resolve_spec(items, reqs)->Ok_0.total >= 0,
    decreases reqs.len(),
{
    if reqs.len() > 0 {
        let idx = find_item(items, reqs[0].upc);
        lemma_find_item(items, reqs[0].upc);
        let it = items[idx];
        let items2 = items.update(
            idx,
            ItemV {
                id: it.id,
                upc: it.upc,
                name: it.name,
                price: it.price,
                quantity: (it.quantity - reqs[0].quantity) as u64,
            },
        );
        assert forall|i: int| 0 <= i < items2.len() implies (#[trigger] items2[i]).price >= 0 by {
            if i != idx {
                assert(items2[i] == items[i]);
            }
        }
        lemma_resolve_total_nonneg(items2, reqs.drop_first());
        assert(it.price * reqs[0].quantity >= 0) by (nonlinear_arith)
            requires
                it.price >= 0,
                reqs[0].quantity >= 0,
        ;
    }
}

/// A field-for-field copy of the items.
fn copy_items(items: &Vec<Item>) -> (r: Vec<Item>)
    ensures
        items_view(r@) == items_view(items@),
{
    let mut r: Vec<Item> = Vec::new();
    let mut i: usize = 0;
    while i < items.len()
        invariant
            0 <= i <= items.len(),
            r@.len() == i,
            forall|k: int| 0 <= k < i ==> r@[k]@ == items@[k]@,
        decreases items.len() - i,
    {
        let it = &items[i];
        r.push(
            Item {
                id: it.id,
                upc: it.upc.clone(),
                name: it.name.clone(),
                price: it.price,
                quantity: it.quantity,
            },
        );
        i = i + 1;
    }
    proof {
        assert(items_view(r@) =~= items_view(items@));
    }
    r
}

/// The position of the first item with the given catalog code, if any.
pub(crate) fn lookup_item(items: &Vec<Item>, upc: &String) -> (r: Option<usize>)
    ensures
        match r {
            Some(i) => i == find_item(items_view(items@), upc@),
            None => find_item(items_view(items@), upc@) < 0,
        },
{
    let mut i: usize = 0;
    while i < items.len()
        invariant
            0 <= i <= items.len(),
            forall|k: int| 0 <= k < i ==> items_view(items@)[k].upc != upc@,
        decreases items.len() - i,
    {
        if items[i].upc == *upc {
            proof {
                lemma_find_item(items_view(items@), upc@);
                assert(items_view(items@)[i as int] == items@[i as int]@);
                assert(items_view(items@)[i as int].upc == upc@);
            }
            return Some(i);
        }
        proof {
            assert(items_view(items@)[i as int] == items@[i as int]@);
        }
        i = i + 1;
    }
    proof {
        lemma_find_item(items_view(items@), upc@);
    }
    None
}

/// The product of two amounts that each fit in 64 bits fits in 128 bits.
proof fn lemma_mul_bound(a: u128, b: u128)
    requires
        a <= u64::MAX,
        b <= u64::MAX,
    ensures
        a * b + u64::MAX + 1 <= u128::MAX,
{
    assert(a * b + u64::MAX + 1 <= u128::MAX) by (nonlinear_arith)
        requires
            a <= u64::MAX,
            b <= u64::MAX,
    ;
}

/// Resolves a withdrawal's requested pairs against the given items,
/// in request order and all-or-nothing, exactly as `resolve_spec` says.
/// The items themselves are not modified.
pub fn resolve_requests(items: &Vec<Item>, reqs: &Vec<PostItem>) -> (r: Result<
    Resolution,
    LedgerError,
>)
    ensures
        match r {
            Ok(res) => {
                &&& resolve_spec(items_view(items@), reqs_view(reqs@)) is Ok
                &&& lines_view(res.lines@) == resolve_spec(
                    items_view(items@),
                    reqs_view(reqs@),
                )->Ok_0.lines
                &&& items_view(res.items_after@) == resolve_spec(
                    items_view(items@),
                    reqs_view(reqs@),
                )->Ok_0.items_after
                &&& res.total == clamp_total(
                    resolve_spec(items_view(items@), reqs_view(reqs@))->Ok_0.total,
                )
            },
            Err(e) => {
                &&& resolve_spec(items_view(items@), reqs_view(reqs@)) is Err
                &&& e@ == resolve_spec(items_view(items@), reqs_view(reqs@))->Err_0
            },
        },
{
    let ghost items_v0 = items_view(items@);
    let ghost reqs_v = reqs_view(reqs@);
    let mut work: Vec<Item> = copy_items(items);
    let mut lines: Vec<ResolvedLine> = Vec::new();
    let mut total: u128 = 0;
    let ghost mut total_int: int = 0int;
    let mut k: usize = 0;
    proof {
        assert(reqs_v.skip(0) =~= reqs_v);
        assert forall|restv: ResolutionV|
            resolve_spec(items_view(work@), reqs_v.skip(0)) == Ok::<ResolutionV, LedgerErrorV>(
                restv,
            ) implies resolve_spec(items_v0, reqs_v) == Ok::<ResolutionV, LedgerErrorV>(
            ResolutionV {
                lines: lines_view(lines@) + restv.lines,
                total: 0 + restv.total,
                items_after: restv.items_after,
            },
        ) by {
            assert(lines_view(lines@) + restv.lines =~= restv.lines);
        }
    }
    while k < reqs.len()
        invariant
            0 <= k <= reqs.len(),
            items_v0 == items_view(items@),
            reqs_v == reqs_view(reqs@),
            reqs_v.len() == reqs.len(),
            total == clamp_total(total_int),
            total_int >= 0,
            match resolve_spec(items_view(work@), reqs_v.skip(k as int)) {
                Ok(rest) => resolve_spec(items_v0, reqs_v) == Ok::<ResolutionV, LedgerErrorV>(
                    ResolutionV {
                        lines: lines_view(lines@) + rest.lines,
                        total: total_int + rest.total,
                        items_after: rest.items_after,
                    },
                ),
                Err(e) => resolve_spec(items_v0, reqs_v) == Err::<ResolutionV, LedgerErrorV>(e),
            },
        decreases reqs.len() - k,
    {
        let ghost work_v = items_view(work@);
        let ghost rest_reqs = reqs_v.skip(k as int);
        proof {
            assert(reqs_v[k as int] == reqs@[k as int]@);
            assert(rest_reqs.len() > 0);
            assert(rest_reqs[0] == reqs_v[k as int]);
            assert(rest_reqs.drop_first() =~= reqs_v.skip(k as int + 1));
        }
        let req = &reqs[k];
        match lookup_item(&work, &req.upc) {
            None => {
                proof {
                    assert(resolve_spec(work_v, rest_reqs) == Err::<ResolutionV, LedgerErrorV>(
                        LedgerErrorV::ItemNotFound(reqs_v[k as int].upc),
                    ));
                }
                return Err(LedgerError::ItemNotFound(req.upc.clone()));
            },
            Some(j) => {
                proof {
                    lemma_find_item(work_v, req.upc@);
                    assert(work_v[j as int] == work@[j as int]@);
                }
                if work[j].quantity < req.quantity {
                    proof {
                        assert(resolve_spec(work_v, rest_reqs) == Err::<
                            ResolutionV,
                            LedgerErrorV,
                        >(
                            LedgerErrorV::InsufficientStock {
                                upc: reqs_v[k as int].upc,
                                available: work_v[j as int].quantity,
                                requested: reqs_v[k as int].quantity,
                            },
                        ));
                    }
                    return Err(
                        LedgerError::InsufficientStock {
                            upc: req.upc.clone(),
                            available: work[j].quantity,
                            requested: req.quantity,
                        },
                    );
                }
                let ghost line = LineV {
                    item_id: work_v[j as int].id,
                    quantity: reqs_v[k as int].quantity,
                    price: work_v[j as int].price,
                    cost: work_v[j as int].price * reqs_v[k as int].quantity,
                };
                let ghost items2 = work_v.update(
                    j as int,
                    ItemV {
                        id: work_v[j as int].id,
                        upc: work_v[j as int].upc,
                        name: work_v[j as int].name,
                        price: work_v[j as int].price,
                        quantity: (work_v[j as int].quantity - reqs_v[k as int].quantity) as u64,
                    },
                );
                let ghost old_lines = lines@;
                let price = work[j].price;
                proof {
                    lemma_mul_bound(price.cents as u128, req.quantity as u128);
                }
                let cost: u128 = (price.cents as u128) * (req.quantity as u128);
                proof {
                    assert(cost as int == line.cost);
                }
                lines.push(
                    ResolvedLine { item_id: work[j].id, quantity: req.quantity, price, cost },
                );
                let entry = &mut work[j];
                entry.quantity = entry.quantity - req.quantity;
                proof {
                    assert(items_view(work@) =~= items2);
                    assert(lines@ == old_lines.push(lines@.last()));
                    assert(lines@.last()@ == line);
                    assert(lines_view(lines@) =~= lines_view(old_lines).push(line));
                }
                total = total + cost;
                if total > u64::MAX as u128 {
                    total = (u64::MAX as u128) + 1;
                }
                proof {
                    let ghost old_total = total_int;
                    total_int = total_int + line.cost;
                    assert(total == clamp_total(total_int));
                    assert forall|restv: ResolutionV|
                        resolve_spec(items_view(work@), reqs_v.skip(k as int + 1)) == Ok::<
                            ResolutionV,
                            LedgerErrorV,
                        >(restv) implies resolve_spec(items_v0, reqs_v) == Ok::<
                        ResolutionV,
                        LedgerErrorV,
                    >(
                        ResolutionV {
                            lines: lines_view(lines@) + restv.lines,
                            total: total_int + restv.total,
                            items_after: restv.items_after,
                        },
                    ) by {
                        assert(resolve_spec(items2, rest_reqs.drop_first()) == Ok::<
                            ResolutionV,
                            LedgerErrorV,
                        >(restv));
                        assert(resolve_spec(work_v, rest_reqs) == Ok::<
                            ResolutionV,
                            LedgerErrorV,
                        >(
                            ResolutionV {
                                lines: seq![line] + restv.lines,
                                total: line.cost + restv.total,
                                items_after: restv.items_after,
                            },
                        ));
                        assert(lines_view(old_lines) + (seq![line] + restv.lines) =~= lines_view(
                            lines@,
                        ) + restv.lines);
                    }
                }
                k = k + 1;
            },
        }
    }
    proof {
        assert(reqs_v.skip(k as int) =~= Seq::<PostItemV>::empty());
        assert(lines_view(lines@) + Seq::<LineV>::empty() =~= lines_view(lines@));
    }
    Ok(Resolution { lines, items_after: work, total })
}

} // verus!
