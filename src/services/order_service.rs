use crate::bindings::{fresh_id, id_text, now_unix, uuid_text};
use crate::db::{
    lemma_pairwise_update,
    cart_rel, collect_other_rows, collect_user_rows, find_order, item_rel, keep,
    items_owned, order_stored, lemma_keep_pairwise, lemma_owned_push_order, lemma_owned_update_order, lemma_keep_tail, lemma_last_pos, lines_of_order, not_owned_by, order_key, order_pos,
    order_rel, other_rows, pairwise, part_of, placed_by, user_orders, user_rows, Database,
};
use crate::entity::{cart, order_items, orders};
use crate::error::ApiError;
use crate::money::{exact_lines, line_sum, sum_lines, total_of};
use crate::services::cart_service::{
    cart_lines, cart_priced, missing_product, price_rows, priced_lines,
};
use crate::text::owned;
use vstd::prelude::*;
use vstd::string::*;

verus! {

/// The identifiers are distinct from one another and from every stored order line.
pub open spec fn ids_fresh(items: Seq<order_items::Model>, ids: Seq<u128>) -> bool {
    &&& forall|a: int, b: int| 0 <= a < b < ids.len() ==> ids[a] != ids[b]
    &&& forall|a: int, m: int|
        0 <= a < ids.len() && 0 <= m < items.len() ==> (#[trigger] items[m]).id != (
        #[trigger] ids[a])
}

/// `o` is the order that converts the user's whole cart in `old`, and `new` is `old` with
/// the order and one line per cart line added and the user's cart emptied.
pub open spec fn order_placed(old: Database, new: Database, user_id: u128, o: orders::Model) -> bool {
    let rows = user_rows(old.cart@, user_id);
    let lines = cart_lines(old, user_id);
    let n = old.order_items@.len();
    &&& rows.len() > 0
    &&& cart_priced(old, user_id)
    &&& total_of(lines) == Some(o.total_price)
    &&& exact_lines(lines) ==> o.total_price.value() == line_sum(lines)
    &&& o.user_id == user_id
    &&& o.status@ == "pending"@
    &&& new.orders@ == old.orders@.push(o)
    &&& new.order_items@.len() == n + rows.len()
    &&& new.order_items@.subrange(0, n as int) == old.order_items@
    &&& forall|i: int| 0 <= i < n ==> (#[trigger] old.order_items@[i]).order_id != o.id
    &&& forall|k: int|
        0 <= k < rows.len() ==> {
            let it = #[trigger] new.order_items@[n + k];
            &&& it.order_id == o.id
            &&& it.product_id == rows[k].product_id
            &&& it.quantity == rows[k].quantity
            &&& it.price == lines[k].0
        }
    &&& new.cart@ == other_rows(old.cart@, user_id)
    &&& new.users@ == old.users@
    &&& new.products@ == old.products@
}

/// After the user's lines are dropped from a cart, none of theirs is left.
pub proof fn lemma_cart_emptied(s: Seq<cart::Model>, user_id: u128)
    ensures
        user_rows(other_rows(s, user_id), user_id).len() == 0,
    decreases s.len(),
{
    if s.len() > 0 {
        lemma_cart_emptied(s.drop_last(), user_id);
        let k = other_rows(s.drop_last(), user_id);
        if not_owned_by(user_id)(s.last()) {
            let t = k.push(s.last());
            assert(t.drop_last() =~= k);
            assert(t.last() == s.last());
        }
    }
}

/// A placed order charges exactly what the cart totalled just before, at the prices of that
/// moment; afterwards the user's cart is empty, and there is one order line per former cart
/// line.
pub proof fn order_total_is_cart_total(
    before: Database,
    after: Database,
    user_id: u128,
    o: orders::Model,
)
    requires
        order_placed(before, after, user_id, o),
    ensures
        cart_priced(before, user_id),
        total_of(cart_lines(before, user_id)) == Some(o.total_price),
        exact_lines(cart_lines(before, user_id)) ==> o.total_price.value() == line_sum(
            cart_lines(before, user_id),
        ),
        user_rows(after.cart@, user_id).len() == 0,
        after.order_items@.len() == before.order_items@.len() + user_rows(
            before.cart@,
            user_id,
        ).len(),
        lines_of_order(after.order_items@, o.id).len() == user_rows(before.cart@, user_id).len(),
        forall|k: int|
            0 <= k < user_rows(before.cart@, user_id).len() ==> {
                let it = #[trigger] lines_of_order(after.order_items@, o.id)[k];
                let row = user_rows(before.cart@, user_id)[k];
                &&& it.product_id == row.product_id
                &&& it.quantity == row.quantity
                &&& it.price == cart_lines(before, user_id)[k].0
            },
{
    lemma_cart_emptied(before.cart@, user_id);
    let s = after.order_items@;
    let n = before.order_items@.len() as int;
    let rows = user_rows(before.cart@, user_id);
    assert forall|i: int| 0 <= i < n implies !part_of(o.id)(#[trigger] s[i]) by {
        assert(s[i] == s.subrange(0, n)[i]);
        assert(before.order_items@[i].order_id != o.id);
    }
    assert forall|i: int| n <= i < s.len() implies part_of(o.id)(#[trigger] s[i]) by {
        assert(s[n + (i - n)].order_id == o.id);
    }
    lemma_keep_tail(s, part_of(o.id), n);
    assert forall|k: int| 0 <= k < rows.len() implies {
        let it = #[trigger] lines_of_order(s, o.id)[k];
        &&& it.product_id == rows[k].product_id
        &&& it.quantity == rows[k].quantity
        &&& it.price == cart_lines(before, user_id)[k].0
    } by {
        assert(lines_of_order(s, o.id)[k] == s[n + k]);
    }
}

/// Whether `ids` are fresh for the stored order lines.
pub fn item_ids_fresh(items: &Vec<order_items::Model>, ids: &Vec<u128>) -> (r: bool)
    ensures
        r == ids_fresh(items@, ids@),
{
    let mut k: usize = 0;
    while k < ids.len()
        invariant
            k <= ids.len(),
            forall|a: int, b: int| 0 <= a < b < k ==> ids@[a] != ids@[b],
            forall|a: int, m: int|
                0 <= a < k && 0 <= m < items@.len() ==> (#[trigger] items@[m]).id != (
                #[trigger] ids@[a]),
        decreases ids.len() - k,
    {
        let mut j: usize = 0;
        while j < k
            invariant
                j <= k < ids.len(),
                forall|a: int| 0 <= a < j ==> ids@[a] != ids@[k as int],
            decreases k - j,
        {
            if ids[j] == ids[k] {
                return false;
            }
            j = j + 1;
        }
        let mut m: usize = 0;
        while m < items.len()
            invariant
                m <= items.len(),
                k < ids.len(),
                forall|c: int| 0 <= c < m ==> (#[trigger] items@[c]).id != ids@[k as int],
            decreases items.len() - m,
        {
            if items[m].id == ids[k] {
                assert(items@[m as int].id == ids@[k as int]);
                return false;
            }
            m = m + 1;
        }
        k = k + 1;
    }
    true
}

/// Converts the user's cart into an order with the given identifiers, all or nothing.
pub fn create_order_with_ids(
    db: &mut Database,
    user_id: u128,
    order_id: u128,
    item_ids: &Vec<u128>,
    now: i64,
) -> (r: Result<orders::Model, ApiError>)
    requires
        old(db).wf(),
    ensures
        final(db).wf(),
        r is Err ==> *final(db) == *old(db),
        user_rows(old(db).cart@, user_id).len() == 0 ==> r matches Err(
            ApiError::ValidationError(_),
        ),
        user_rows(old(db).cart@, user_id).len() > 0 && !cart_priced(*old(db), user_id)
            ==> r matches Err(ApiError::NotFound(_)),
        user_rows(old(db).cart@, user_id).len() > 0 && cart_priced(*old(db), user_id) && total_of(
            cart_lines(*old(db), user_id),
        ) is None ==> r == Err::<orders::Model, ApiError>(ApiError::InternalServerError),
        user_rows(old(db).cart@, user_id).len() > 0 && cart_priced(*old(db), user_id) && total_of(
            cart_lines(*old(db), user_id),
        ) is Some ==> (r is Ok <==> (item_ids@.len() == user_rows(old(db).cart@, user_id).len()
            && order_pos(old(db).orders@, order_id) < 0 && ids_fresh(
            old(db).order_items@,
            item_ids@,
        ))),
        r is Err && user_rows(old(db).cart@, user_id).len() > 0 && cart_priced(*old(db), user_id)
            && total_of(cart_lines(*old(db), user_id)) is Some ==> r matches Err(
            ApiError::DatabaseError(_),
        ),
        r matches Ok(o) ==> {
            &&& order_placed(*old(db), *final(db), user_id, o)
            &&& o.id == order_id
            &&& o.created_at == now
            &&& forall|k: int|
                0 <= k < item_ids@.len() ==> (#[trigger] final(db).order_items@[old(
                    db,
                ).order_items@.len() + k]).id == item_ids@[k]
        },
{
    let rows = collect_user_rows(&db.cart, user_id);
    if rows.len() == 0 {
        return Err(ApiError::ValidationError(owned("Cart is empty, cannot create order")));
    }
    let lines = match price_rows(&db.products, &rows) {
        Err(id) => {
            return Err(missing_product(id));
        },
        Ok(l) => l,
    };
    let total = match sum_lines(&lines) {
        None => {
            return Err(ApiError::InternalServerError);
        },
        Some(t) => t,
    };
    if item_ids.len() != rows.len() || find_order(&db.orders, order_id).is_some()
        || !item_ids_fresh(&db.order_items, item_ids) {
        return Err(ApiError::DatabaseError(owned("Failed to create order")));
    }
    let order = orders::Model {
        id: order_id,
        user_id,
        total_price: total,
        status: owned("pending"),
        created_at: now,
    };
    let placed = order.duplicate();
    proof {
        lemma_last_pos(old(db).orders@, order_key(order_id));
        assert forall|i: int, j: int|
            0 <= i < db.orders@.push(order).len() && 0 <= j < db.orders@.push(order).len() && i
                != j implies #[trigger] order_rel()(
            db.orders@.push(order)[i],
            #[trigger] db.orders@.push(order)[j],
        ) by {
            let s = db.orders@.push(order);
            if i < db.orders@.len() && j < db.orders@.len() {
                assert(order_rel()(db.orders@[i], db.orders@[j]));
            } else if i < db.orders@.len() {
                assert(!order_key(order_id)(db.orders@[i]));
            } else {
                assert(!order_key(order_id)(db.orders@[j]));
            }
        }
    }
    proof {
        let os = db.orders@;
        let ts = os.push(order);
        lemma_owned_push_order(os, db.order_items@, order);
        assert forall|i: int| 0 <= i < db.order_items@.len() implies (#[trigger] db.order_items@[i]).order_id != order_id by {
            assert(order_stored(os, db.order_items@[i].order_id));
            let j = choose|j: int| 0 <= j < os.len() && (#[trigger] os[j]).id == db.order_items@[i].order_id;
            assert(!order_key(order_id)(os[j]));
        }
    }
    db.orders.push(order);
    let n = db.order_items.len();
    let mut k: usize = 0;
    while k < rows.len()
        invariant
            k <= rows.len() == lines@.len() == item_ids@.len(),
            n == old(db).order_items@.len(),
            rows@ == user_rows(old(db).cart@, user_id),
            lines@ == priced_lines(old(db).products@, rows@),
            forall|i: int| 0 <= i < lines@.len() ==> (#[trigger] lines@[i]).0.wf(),
            ids_fresh(old(db).order_items@, item_ids@),
            db.order_items@.len() == n + k,
            db.order_items@.subrange(0, n as int) == old(db).order_items@,
            forall|j: int|
                0 <= j < k ==> {
                    let it = #[trigger] db.order_items@[n + j];
                    &&& it.id == item_ids@[j]
                    &&& it.order_id == order_id
                    &&& it.product_id == rows@[j].product_id
                    &&& it.quantity == rows@[j].quantity
                    &&& it.price == lines@[j].0
                },
            pairwise(db.order_items@, item_rel()),
            forall|i: int|
                0 <= i < db.order_items@.len() ==> (#[trigger] db.order_items@[i]).price.wf(),
            items_owned(db.orders@, db.order_items@),
            placed.id == order_id,
            forall|i: int| 0 <= i < n ==> (#[trigger] old(db).order_items@[i]).order_id != order_id,
            db.users@ == old(db).users@,
            db.products@ == old(db).products@,
            db.cart@ == old(db).cart@,
            db.orders@ == old(db).orders@.push(placed),
        decreases rows.len() - k,
    {
        let item = order_items::Model {
            id: item_ids[k],
            order_id,
            product_id: rows[k].product_id,
            quantity: rows[k].quantity,
            price: lines[k].0,
        };
        proof {
            let s = db.order_items@;
            assert forall|m: int| 0 <= m < s.len() implies (#[trigger] s[m]).id != item.id by {
                if m < n {
                    assert(s[m] == s.subrange(0, n as int)[m]);
                    assert(old(db).order_items@[m].id != item_ids@[k as int]);
                } else {
                    let j = m - n;
                    assert(s[n + j].id == item_ids@[j]);
                }
            }
            let t = s.push(item);
            assert forall|i: int, j: int|
                0 <= i < t.len() && 0 <= j < t.len() && i != j implies #[trigger] item_rel()(
                t[i],
                #[trigger] t[j],
            ) by {
                if i < s.len() && j < s.len() {
                    assert(item_rel()(s[i], s[j]));
                } else if i < s.len() {
                    assert(s[i].id != item.id);
                } else {
                    assert(s[j].id != item.id);
                }
            }
        }
        proof {
            let os = db.orders@;
            let last = os.len() - 1;
            assert(os[last].id == order_id);
            let t = db.order_items@.push(item);
            let items = db.order_items@;
            assert forall|i: int| 0 <= i < t.len() implies order_stored(os, (#[trigger] t[i]).order_id) by {
                if i < items.len() {
                    assert(t[i] == items[i]);
                } else {
                    assert(os[last].id == t[i].order_id);
                }
            }
        }
        db.order_items.push(item);
        proof {
            assert(db.order_items@.subrange(0, n as int) =~= old(db).order_items@);
        }
        k = k + 1;
    }
    proof {
        lemma_keep_pairwise(old(db).cart@, not_owned_by(user_id), cart_rel());
    }
    db.cart = collect_other_rows(&db.cart, user_id);
    Ok(placed)
}

/// Converts the user's cart into an order, with fresh identifiers and the current time,
/// all or nothing.
pub fn create_order(db: &mut Database, user_id: u128) -> (r: Result<orders::Model, ApiError>)
    requires
        old(db).wf(),
    ensures
        final(db).wf(),
        r is Err ==> *final(db) == *old(db),
        user_rows(old(db).cart@, user_id).len() == 0 ==> r matches Err(
            ApiError::ValidationError(_),
        ),
        user_rows(old(db).cart@, user_id).len() > 0 && !cart_priced(*old(db), user_id)
            ==> r matches Err(ApiError::NotFound(_)),
        user_rows(old(db).cart@, user_id).len() > 0 && cart_priced(*old(db), user_id) && total_of(
            cart_lines(*old(db), user_id),
        ) is None ==> r == Err::<orders::Model, ApiError>(ApiError::InternalServerError),
        r is Err && user_rows(old(db).cart@, user_id).len() > 0 && cart_priced(*old(db), user_id)
            && total_of(cart_lines(*old(db), user_id)) is Some ==> r matches Err(
            ApiError::DatabaseError(_),
        ),
        r matches Ok(o) ==> order_placed(*old(db), *final(db), user_id, o),
{
    let count = collect_user_rows(&db.cart, user_id).len();
    let order_id = fresh_id();
    let mut ids: Vec<u128> = Vec::new();
    let mut k: usize = 0;
    while k < count
        invariant
            k <= count,
        decreases count - k,
    {
        ids.push(fresh_id());
        k = k + 1;
    }
    let now = now_unix();
    create_order_with_ids(db, user_id, order_id, &ids, now)
}

/// The order with this id and its lines.
pub fn get_order_details(db: &Database, order_id: u128) -> (r: Result<
    (orders::Model, Vec<order_items::Model>),
    ApiError,
>)
    ensures
        order_pos(db.orders@, order_id) < 0 ==> (r matches Err(ApiError::NotFound(m)) && m@
            == order_missing_text(order_id)),
        order_pos(db.orders@, order_id) >= 0 ==> (r matches Ok(d) && d.0 == db.orders@[order_pos(
            db.orders@,
            order_id,
        )] && d.1@ == lines_of_order(db.order_items@, order_id)),
{
    match find_order(&db.orders, order_id) {
        None => Err(missing_order(order_id)),
        Some(i) => {
            let ghost f = part_of(order_id);
            let mut lines: Vec<order_items::Model> = Vec::new();
            let mut k: usize = 0;
            while k < db.order_items.len()
                invariant
                    f == part_of(order_id),
                    k <= db.order_items@.len(),
                    lines@ == keep(db.order_items@.subrange(0, k as int), f),
                decreases db.order_items@.len() - k,
            {
                let ghost s = db.order_items@;
                assert(s.subrange(0, k + 1).drop_last() =~= s.subrange(0, k as int));
                assert(s.subrange(0, k + 1).last() == s[k as int]);
                if db.order_items[k].order_id == order_id {
                    lines.push(db.order_items[k]);
                }
                k = k + 1;
            }
            assert(db.order_items@.subrange(0, k as int) =~= db.order_items@);
            Ok((db.orders[i].duplicate(), lines))
        },
    }
}

/// The orders placed by a user, in table order.
pub fn get_order_history(db: &Database, user_id: u128) -> (r: Result<
    Vec<orders::Model>,
    ApiError,
>)
    ensures
        r matches Ok(v) && v@ == user_orders(db.orders@, user_id),
{
    let ghost f = placed_by(user_id);
    let mut found: Vec<orders::Model> = Vec::new();
    let mut k: usize = 0;
    while k < db.orders.len()
        invariant
            f == placed_by(user_id),
            k <= db.orders@.len(),
            found@ == keep(db.orders@.subrange(0, k as int), f),
        decreases db.orders@.len() - k,
    {
        let ghost s = db.orders@;
        assert(s.subrange(0, k + 1).drop_last() =~= s.subrange(0, k as int));
        assert(s.subrange(0, k + 1).last() == s[k as int]);
        if db.orders[k].user_id == user_id {
            found.push(db.orders[k].duplicate());
        }
        k = k + 1;
    }
    assert(db.orders@.subrange(0, k as int) =~= db.orders@);
    Ok(found)
}

/// Sets an order's status to any text.
pub fn update_order_status(db: &mut Database, order_id: u128, new_status: String) -> (r: Result<
    (),
    ApiError,
>)
    requires
        old(db).wf(),
    ensures
        final(db).wf(),
        order_pos(old(db).orders@, order_id) < 0 ==> (r matches Err(ApiError::NotFound(m))
            && m@ == order_missing_text(order_id) && *final(db) == *old(db)),
        order_pos(old(db).orders@, order_id) >= 0 ==> {
            let i = order_pos(old(db).orders@, order_id);
            let o = old(db).orders@[i];
            &&& r is Ok
            &&& final(db).orders@ == old(db).orders@.update(
                i,
                orders::Model { status: new_status, ..o },
            )
            &&& final(db).users@ == old(db).users@
            &&& final(db).products@ == old(db).products@
            &&& final(db).cart@ == old(db).cart@
            &&& final(db).order_items@ == old(db).order_items@
        },
{
    match find_order(&db.orders, order_id) {
        None => Err(missing_order(order_id)),
        Some(i) => {
            let o = &db.orders[i];
            let updated = orders::Model {
                id: o.id,
                user_id: o.user_id,
                total_price: o.total_price,
                status: new_status,
                created_at: o.created_at,
            };
            proof {
                let s = db.orders@;
                lemma_pairwise_update(s, i as int, updated, order_rel());
                lemma_owned_update_order(s, db.order_items@, i as int, updated);
            }
            db.orders.set(i, updated);
            Ok(())
        },
    }
}

/// The text of the failure for an order id that is not stored.
pub open spec fn order_missing_text(id: u128) -> Seq<char> {
    "Order with ID "@ + uuid_text(id) + " not found"@
}

/// The failure for an order id that is not stored.
pub fn missing_order(id: u128) -> (r: ApiError)
    ensures
        r matches ApiError::NotFound(m) && m@ == order_missing_text(id),
{
    let text = id_text(id);
    ApiError::NotFound(owned("Order with ID ").concat(text.as_str()).concat(" not found"))
}

} // verus!
