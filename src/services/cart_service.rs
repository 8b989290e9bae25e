use crate::bindings::{fresh_id, id_text, uuid_text};
use crate::db::{
    cart_id_key, cart_id_pos, cart_key, cart_pos, cart_rel, collect_other_rows, collect_user_rows,
    find_cart_id, find_cart_line, find_product, lemma_keep_pairwise, lemma_last_pos,
    lemma_last_pos_update, lemma_pairwise_push, lemma_pairwise_remove, lemma_pairwise_update,
    not_owned_by, other_rows, product_key, product_pos, product_rel, user_rows, Database,
};
use crate::entity::{cart, products};
use crate::error::ApiError;
use crate::money::{exact_lines, line_sum, lines_wf, sum_lines, total_of, Money};
use crate::text::owned;
use vstd::prelude::*;
use vstd::string::*;

verus! {

/// Every line refers to a product that is in the catalog.
pub open spec fn all_priced(products: Seq<products::Model>, rows: Seq<cart::Model>) -> bool {
    forall|k: int| 0 <= k < rows.len() ==> product_pos(products, (#[trigger] rows[k]).product_id) >= 0
}

/// `(current unit price, quantity)` for each line.
pub open spec fn priced_lines(products: Seq<products::Model>, rows: Seq<cart::Model>) -> Seq<
    (Money, i32),
> {
    Seq::new(
        rows.len(),
        |k: int| (products[product_pos(products, rows[k].product_id)].price, rows[k].quantity),
    )
}

/// The lines of a user's cart, priced from the catalog as it stands.
pub open spec fn cart_lines(db: Database, user_id: u128) -> Seq<(Money, i32)> {
    priced_lines(db.products@, user_rows(db.cart@, user_id))
}

/// Every product in a user's cart is still in the catalog.
pub open spec fn cart_priced(db: Database, user_id: u128) -> bool {
    all_priced(db.products@, user_rows(db.cart@, user_id))
}

/// The text of the failure for a product id that is not in the catalog.
pub open spec fn product_missing_text(id: u128) -> Seq<char> {
    "Product with ID "@ + uuid_text(id) + " not found"@
}

/// Totals read the catalog as it stands: once a product's price changes, each cart line of
/// that product is priced at the new price and every other line as before.
pub proof fn repricing_reaches_cart_lines(
    before: Database,
    after: Database,
    user_id: u128,
    i: int,
    price: Money,
)
    requires
        before.wf(),
        cart_priced(before, user_id),
        0 <= i < before.products@.len(),
        after.cart@ == before.cart@,
        after.products@ == before.products@.update(
            i,
            products::Model { price, ..before.products@[i] },
        ),
    ensures
        cart_priced(after, user_id),
        cart_lines(after, user_id).len() == cart_lines(before, user_id).len(),
        forall|k: int|
            0 <= k < cart_lines(before, user_id).len() ==> {
                let row = user_rows(before.cart@, user_id)[k];
                &&& (#[trigger] cart_lines(after, user_id)[k]).1 == cart_lines(before, user_id)[k].1
                &&& cart_lines(after, user_id)[k].0 == if row.product_id == before.products@[i].id {
                    price
                } else {
                    cart_lines(before, user_id)[k].0
                }
            },
{
    let ps = before.products@;
    let m = products::Model { price, ..ps[i] };
    let rows = user_rows(before.cart@, user_id);
    assert forall|id: u128| #[trigger] product_pos(after.products@, id) == product_pos(ps, id) by {
        lemma_last_pos_update(ps, i, m, product_key(id));
    }
    assert forall|k: int| 0 <= k < rows.len() implies product_pos(
        after.products@,
        (#[trigger] rows[k]).product_id,
    ) >= 0 by {
        assert(product_pos(after.products@, rows[k].product_id) == product_pos(ps, rows[k].product_id));
    }
    assert forall|k: int| 0 <= k < rows.len() implies {
        let row = rows[k];
        &&& (#[trigger] cart_lines(after, user_id)[k]).1 == cart_lines(before, user_id)[k].1
        &&& cart_lines(after, user_id)[k].0 == if row.product_id == ps[i].id {
            price
        } else {
            cart_lines(before, user_id)[k].0
        }
    } by {
        let pid = rows[k].product_id;
        let p = product_pos(ps, pid);
        assert(product_pos(after.products@, pid) == p);
        assert(p >= 0);
        lemma_last_pos(ps, product_key(pid));
        assert(ps[p].id == pid);
        if p != i {
            assert(product_rel()(ps[p], ps[i]));
        }
    }
}

/// The failure for a product id that is not in the catalog.
pub fn missing_product(id: u128) -> (r: ApiError)
    ensures
        r matches ApiError::NotFound(m) && m@ == product_missing_text(id),
{
    let text = id_text(id);
    ApiError::NotFound(owned("Product with ID ").concat(text.as_str()).concat(" not found"))
}

/// Prices each line from the catalog; on failure, the id of a product that is missing.
pub fn price_rows(products: &Vec<products::Model>, rows: &Vec<cart::Model>) -> (r: Result<
    Vec<(Money, i32)>,
    u128,
>)
    requires
        forall|i: int| 0 <= i < products@.len() ==> (#[trigger] products@[i]).price.wf(),
    ensures
        r is Ok <==> all_priced(products@, rows@),
        r matches Ok(l) ==> l@ == priced_lines(products@, rows@) && lines_wf(l@),
{
    let mut lines: Vec<(Money, i32)> = Vec::new();
    let mut i: usize = 0;
    while i < rows.len()
        invariant
            i <= rows.len(),
            forall|j: int| 0 <= j < products@.len() ==> (#[trigger] products@[j]).price.wf(),
            all_priced(products@, rows@.subrange(0, i as int)),
            lines@ == priced_lines(products@, rows@.subrange(0, i as int)),
            lines_wf(lines@),
        decreases rows.len() - i,
    {
        let row = rows[i];
        match find_product(products, row.product_id) {
            None => {
                assert(product_pos(products@, rows@[i as int].product_id) < 0);
                return Err(row.product_id);
            },
            Some(p) => {
                proof {
                    lemma_last_pos(products@, product_key(row.product_id));
                }
                let ghost before = lines@;
                lines.push((products[p].price, row.quantity));
                proof {
                    let next = rows@.subrange(0, i + 1);
                    assert forall|k: int| 0 <= k < next.len() implies product_pos(
                        products@,
                        (#[trigger] next[k]).product_id,
                    ) >= 0 by {
                        if k < i {
                            assert(next[k] == rows@.subrange(0, i as int)[k]);
                        }
                    }
                    assert(lines@ =~= priced_lines(products@, next));
                }
            },
        }
        i = i + 1;
    }
    assert(rows@.subrange(0, i as int) =~= rows@);
    Ok(lines)
}

/// `Σ product.price × quantity` over the user's cart lines, at the catalog's current
/// prices.
pub fn calculate_cart_total(db: &Database, user_id: u128) -> (r: Result<Money, ApiError>)
    requires
        db.wf(),
    ensures
        !cart_priced(*db, user_id) ==> r matches Err(ApiError::NotFound(_)),
        cart_priced(*db, user_id) ==> r == match total_of(cart_lines(*db, user_id)) {
            Some(t) => Ok(t),
            None => Err(ApiError::InternalServerError),
        },
        r matches Ok(t) ==> t.wf(),
        cart_priced(*db, user_id) && exact_lines(cart_lines(*db, user_id)) ==> (r matches Ok(t)
            && t.value() == line_sum(cart_lines(*db, user_id))),
{
    let rows = collect_user_rows(&db.cart, user_id);
    match price_rows(&db.products, &rows) {
        Err(id) => Err(missing_product(id)),
        Ok(lines) => match sum_lines(&lines) {
            Some(t) => Ok(t),
            None => Err(ApiError::InternalServerError),
        },
    }
}

pub open spec fn in_i32(x: int) -> bool {
    i32::MIN <= x <= i32::MAX
}

/// Every table but the carts is as it was.
pub open spec fn cart_only_changed(old: Database, new: Database) -> bool {
    &&& new.users@ == old.users@
    &&& new.products@ == old.products@
    &&& new.orders@ == old.orders@
    &&& new.order_items@ == old.order_items@
}

/// Once an add has opened the line for a user and a product, the next add for that pair
/// finds this very line, so both quantities accumulate in one line.
pub proof fn second_add_finds_first_line(cart: Seq<cart::Model>, row: cart::Model)
    ensures
        cart_pos(cart.push(row), row.user_id, row.product_id) == cart.len(),
{
    let s = cart.push(row);
    assert(s.last() == row);
    assert(cart_key(row.user_id, row.product_id)(row));
}

/// Adds `quantity` to the user's line for the product, or opens a line with id `new_id`.
pub fn add_to_cart_with_id(
    db: &mut Database,
    user_id: u128,
    product_id: u128,
    quantity: i32,
    new_id: u128,
) -> (r: Result<cart::Model, ApiError>)
    requires
        old(db).wf(),
    ensures
        final(db).wf(),
        cart_only_changed(*old(db), *final(db)),
        r is Err ==> final(db).cart@ == old(db).cart@,
        ({
            let i = cart_pos(old(db).cart@, user_id, product_id);
            let row = old(db).cart@[i];
            let merged = cart::Model { quantity: (row.quantity + quantity) as i32, ..row };
            i >= 0 ==> if in_i32(row.quantity + quantity) {
                r == Ok::<cart::Model, ApiError>(merged) && final(db).cart@ == old(
                    db,
                ).cart@.update(i, merged)
            } else {
                r matches Err(ApiError::ValidationError(_))
            }
        }),
        ({
            let row = cart::Model { id: new_id, user_id, product_id, quantity };
            cart_pos(old(db).cart@, user_id, product_id) < 0 ==> if cart_id_pos(
                old(db).cart@,
                new_id,
            ) >= 0 {
                r matches Err(ApiError::DatabaseError(_))
            } else {
                r == Ok::<cart::Model, ApiError>(row) && final(db).cart@ == old(db).cart@.push(row)
            }
        }),
{
    proof {
        lemma_last_pos(db.cart@, cart_key(user_id, product_id));
        lemma_last_pos(db.cart@, cart_id_key(new_id));
    }
    match find_cart_line(&db.cart, user_id, product_id) {
        Some(i) => {
            let row = db.cart[i];
            match row.quantity.checked_add(quantity) {
                None => Err(ApiError::ValidationError(owned("Quantity is out of range"))),
                Some(q) => {
                    let merged = cart::Model { quantity: q, ..row };
                    proof {
                        let s = db.cart@;
                        lemma_pairwise_update(s, i as int, merged, cart_rel());
                    }
                    db.cart.set(i, merged);
                    Ok(merged)
                },
            }
        },
        None => {
            if find_cart_id(&db.cart, new_id).is_some() {
                return Err(ApiError::DatabaseError(owned("Failed to add to cart")));
            }
            let row = cart::Model { id: new_id, user_id, product_id, quantity };
            proof {
                let s = db.cart@;
                assert forall|k: int| 0 <= k < s.len() implies cart_rel()(#[trigger] s[k], row) && cart_rel()(row, s[k]) by {
                    assert(!cart_key(user_id, product_id)(s[k]));
                    assert(!cart_id_key(new_id)(s[k]));
                }
                lemma_pairwise_push(s, row, cart_rel());
            }
            db.cart.push(row);
            Ok(row)
        },
    }
}

/// Adds `quantity` to the user's line for the product, or opens a line with a fresh id.
pub fn add_to_cart(db: &mut Database, user_id: u128, product_id: u128, quantity: i32) -> (r:
    Result<cart::Model, ApiError>)
    requires
        old(db).wf(),
    ensures
        final(db).wf(),
        cart_only_changed(*old(db), *final(db)),
        r is Err ==> final(db).cart@ == old(db).cart@,
        ({
            let i = cart_pos(old(db).cart@, user_id, product_id);
            let row = old(db).cart@[i];
            let merged = cart::Model { quantity: (row.quantity + quantity) as i32, ..row };
            i >= 0 ==> if in_i32(row.quantity + quantity) {
                r == Ok::<cart::Model, ApiError>(merged) && final(db).cart@ == old(
                    db,
                ).cart@.update(i, merged)
            } else {
                r matches Err(ApiError::ValidationError(_))
            }
        }),
        cart_pos(old(db).cart@, user_id, product_id) < 0 ==> match r {
            Ok(row) => row.user_id == user_id && row.product_id == product_id && row.quantity
                == quantity && final(db).cart@ == old(db).cart@.push(row),
            Err(e) => e is DatabaseError,
        },
{
    let id = fresh_id();
    add_to_cart_with_id(db, user_id, product_id, quantity, id)
}

/// Deletes the user's line for the product; nothing happens when there is none.
pub fn remove_from_cart(db: &mut Database, user_id: u128, product_id: u128) -> (r: Result<
    (),
    ApiError,
>)
    requires
        old(db).wf(),
    ensures
        final(db).wf(),
        r is Ok,
        cart_only_changed(*old(db), *final(db)),
        cart_pos(old(db).cart@, user_id, product_id) < 0 ==> final(db).cart@ == old(db).cart@,
        cart_pos(old(db).cart@, user_id, product_id) >= 0 ==> final(db).cart@ == old(
            db,
        ).cart@.remove(cart_pos(old(db).cart@, user_id, product_id)),
{
    match find_cart_line(&db.cart, user_id, product_id) {
        None => Ok(()),
        Some(i) => {
            proof {
                let s = db.cart@;
                lemma_pairwise_remove(s, i as int, cart_rel());
            }
            db.cart.remove(i);
            Ok(())
        },
    }
}

/// Deletes every cart line of the user.
pub fn clear_cart(db: &mut Database, user_id: u128) -> (r: Result<(), ApiError>)
    requires
        old(db).wf(),
    ensures
        final(db).wf(),
        r is Ok,
        cart_only_changed(*old(db), *final(db)),
        final(db).cart@ == other_rows(old(db).cart@, user_id),
{
    proof {
        lemma_keep_pairwise(db.cart@, not_owned_by(user_id), cart_rel());
    }
    db.cart = collect_other_rows(&db.cart, user_id);
    Ok(())
}

/// The user's cart lines, in table order.
pub fn get_cart(db: &Database, user_id: u128) -> (r: Result<Vec<cart::Model>, ApiError>)
    ensures
        r matches Ok(v) && v@ == user_rows(db.cart@, user_id),
{
    Ok(collect_user_rows(&db.cart, user_id))
}

} // verus!
