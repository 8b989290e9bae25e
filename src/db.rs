use crate::entity::{cart, order_items, orders, products, users};
use crate::text::same_text;
use vstd::prelude::*;

verus! {

/// The index of the last element of `s` that satisfies `f`, or -1 when none does.
pub open spec fn last_pos<T>(s: Seq<T>, f: spec_fn(T) -> bool) -> int
    decreases s.len(),
{
    if s.len() == 0 {
        -1
    } else if f(s.last()) {
        s.len() - 1
    } else {
        last_pos(s.drop_last(), f)
    }
}

/// The elements of `s` that satisfy `f`, in their order.
pub open spec fn keep<T>(s: Seq<T>, f: spec_fn(T) -> bool) -> Seq<T>
    decreases s.len(),
{
    if s.len() == 0 {
        Seq::empty()
    } else if f(s.last()) {
        keep(s.drop_last(), f).push(s.last())
    } else {
        keep(s.drop_last(), f)
    }
}

/// `r` holds for every pair of elements at two different positions.
pub open spec fn pairwise<T>(s: Seq<T>, r: spec_fn(T, T) -> bool) -> bool {
    forall|i: int, j: int|
        #![trigger s[i], s[j]]
        0 <= i < s.len() && 0 <= j < s.len() && i != j ==> r(s[i], s[j])
}

pub proof fn lemma_last_pos<T>(s: Seq<T>, f: spec_fn(T) -> bool)
    ensures
        -1 <= last_pos(s, f) < s.len(),
        last_pos(s, f) >= 0 ==> f(s[last_pos(s, f)]),
        forall|k: int| last_pos(s, f) < k < s.len() ==> !f(#[trigger] s[k]),
    decreases s.len(),
{
    if s.len() > 0 {
        lemma_last_pos(s.drop_last(), f);
        assert forall|k: int| last_pos(s, f) < k < s.len() implies !f(#[trigger] s[k]) by {
            if k < s.len() - 1 {
                assert(s[k] == s.drop_last()[k]);
            }
        }
        if last_pos(s, f) >= 0 && last_pos(s, f) < s.len() - 1 {
            assert(s[last_pos(s, f)] == s.drop_last()[last_pos(s, f)]);
        }
    }
}

/// The last match is the one found by a search from the end.
pub proof fn lemma_last_pos_at<T>(s: Seq<T>, f: spec_fn(T) -> bool, i: int)
    requires
        -1 <= i < s.len(),
        i >= 0 ==> f(s[i]),
        forall|k: int| i < k < s.len() ==> !f(#[trigger] s[k]),
    ensures
        last_pos(s, f) == i,
{
    lemma_last_pos(s, f);
    let p = last_pos(s, f);
    if p > i {
        assert(!f(s[p]));
    } else if p < i {
        assert(!f(s[i]));
    }
}

/// Replacing an element by one that `f` judges alike leaves the last match where it was.
pub proof fn lemma_last_pos_update<T>(s: Seq<T>, k: int, x: T, f: spec_fn(T) -> bool)
    requires
        0 <= k < s.len(),
        f(x) == f(s[k]),
    ensures
        last_pos(s.update(k, x), f) == last_pos(s, f),
{
    let t = s.update(k, x);
    lemma_last_pos(s, f);
    let p = last_pos(s, f);
    assert forall|j: int| p < j < t.len() implies !f(#[trigger] t[j]) by {
        assert(!f(s[j]));
    }
    if p >= 0 {
        assert(f(t[p]));
    }
    lemma_last_pos_at(t, f, p);
}

pub proof fn lemma_keep_contains<T>(s: Seq<T>, f: spec_fn(T) -> bool, x: T)
    requires
        keep(s, f).contains(x),
    ensures
        s.contains(x),
        f(x),
    decreases s.len(),
{
    let pre = s.drop_last();
    if f(s.last()) && x == s.last() {
        assert(s[s.len() - 1] == x);
    } else {
        if f(s.last()) {
            let k = choose|k: int| 0 <= k < keep(s, f).len() && keep(s, f)[k] == x;
            assert(keep(pre, f)[k] == x);
        }
        lemma_keep_contains(pre, f, x);
        let k = choose|k: int| 0 <= k < pre.len() && pre[k] == x;
        assert(s[k] == x);
    }
}

pub proof fn lemma_keep_pairwise<T>(s: Seq<T>, f: spec_fn(T) -> bool, r: spec_fn(T, T) -> bool)
    requires
        pairwise(s, r),
    ensures
        pairwise(keep(s, f), r),
    decreases s.len(),
{
    if s.len() > 0 {
        let pre = s.drop_last();
        assert(pairwise(pre, r)) by {
            assert forall|i: int, j: int|
                0 <= i < pre.len() && 0 <= j < pre.len() && i != j implies r(
                #[trigger] pre[i],
                #[trigger] pre[j],
            ) by {
                assert(pre[i] == s[i] && pre[j] == s[j]);
            }
        }
        lemma_keep_pairwise(pre, f, r);
        if f(s.last()) {
            let kp = keep(pre, f);
            let ks = keep(s, f);
            let n = s.len() - 1;
            assert forall|i: int, j: int|
                0 <= i < ks.len() && 0 <= j < ks.len() && i != j implies r(
                #[trigger] ks[i],
                #[trigger] ks[j],
            ) by {
                if i < kp.len() && j < kp.len() {
                    assert(ks[i] == kp[i] && ks[j] == kp[j]);
                } else if i < kp.len() {
                    assert(kp.contains(ks[i]));
                    lemma_keep_contains(pre, f, ks[i]);
                    let k = choose|k: int| 0 <= k < pre.len() && pre[k] == ks[i];
                    assert(s[k] == ks[i] && s[n] == ks[j]);
                } else {
                    assert(kp.contains(ks[j]));
                    lemma_keep_contains(pre, f, ks[j]);
                    let k = choose|k: int| 0 <= k < pre.len() && pre[k] == ks[j];
                    assert(s[k] == ks[j] && s[n] == ks[i]);
                }
            }
        }
    }
}

pub open spec fn status_valid(s: Seq<char>) -> bool {
    s == "available"@ || s == "reserved"@ || s == "sold"@
}

pub open spec fn users_distinct(a: users::Model, b: users::Model) -> bool {
    a.id != b.id && a.username@ != b.username@ && a.email@ != b.email@
}

pub open spec fn products_distinct(a: products::Model, b: products::Model) -> bool {
    a.id != b.id
}

pub open spec fn cart_distinct(a: cart::Model, b: cart::Model) -> bool {
    a.id != b.id && !(a.user_id == b.user_id && a.product_id == b.product_id)
}

pub open spec fn orders_distinct(a: orders::Model, b: orders::Model) -> bool {
    a.id != b.id
}

pub open spec fn items_distinct(a: order_items::Model, b: order_items::Model) -> bool {
    a.id != b.id
}

pub open spec fn user_rel() -> spec_fn(users::Model, users::Model) -> bool {
    |a: users::Model, b: users::Model| users_distinct(a, b)
}

pub open spec fn product_rel() -> spec_fn(products::Model, products::Model) -> bool {
    |a: products::Model, b: products::Model| products_distinct(a, b)
}

pub open spec fn cart_rel() -> spec_fn(cart::Model, cart::Model) -> bool {
    |a: cart::Model, b: cart::Model| cart_distinct(a, b)
}

pub open spec fn order_rel() -> spec_fn(orders::Model, orders::Model) -> bool {
    |a: orders::Model, b: orders::Model| orders_distinct(a, b)
}

pub open spec fn item_rel() -> spec_fn(order_items::Model, order_items::Model) -> bool {
    |a: order_items::Model, b: order_items::Model| items_distinct(a, b)
}

pub open spec fn owned_by(user_id: u128) -> spec_fn(cart::Model) -> bool {
    |m: cart::Model| m.user_id == user_id
}

pub open spec fn not_owned_by(user_id: u128) -> spec_fn(cart::Model) -> bool {
    |m: cart::Model| m.user_id != user_id
}

pub open spec fn placed_by(user_id: u128) -> spec_fn(orders::Model) -> bool {
    |m: orders::Model| m.user_id == user_id
}

pub open spec fn part_of(order_id: u128) -> spec_fn(order_items::Model) -> bool {
    |m: order_items::Model| m.order_id == order_id
}

pub open spec fn user_name_key(name: Seq<char>) -> spec_fn(users::Model) -> bool {
    |m: users::Model| m.username@ == name
}

pub open spec fn cart_id_key(id: u128) -> spec_fn(cart::Model) -> bool {
    |m: cart::Model| m.id == id
}

/// Position of the account with this username.
pub open spec fn user_pos(s: Seq<users::Model>, name: Seq<char>) -> int {
    last_pos(s, user_name_key(name))
}

pub open spec fn product_key(id: u128) -> spec_fn(products::Model) -> bool {
    |m: products::Model| m.id == id
}

pub open spec fn order_key(id: u128) -> spec_fn(orders::Model) -> bool {
    |m: orders::Model| m.id == id
}

pub open spec fn cart_key(user_id: u128, product_id: u128) -> spec_fn(cart::Model) -> bool {
    |m: cart::Model| m.user_id == user_id && m.product_id == product_id
}

/// Position of the product with this id.
pub open spec fn product_pos(s: Seq<products::Model>, id: u128) -> int {
    last_pos(s, product_key(id))
}

/// Position of the order with this id.
pub open spec fn order_pos(s: Seq<orders::Model>, id: u128) -> int {
    last_pos(s, order_key(id))
}

/// Position of the cart line with this id.
pub open spec fn cart_id_pos(s: Seq<cart::Model>, id: u128) -> int {
    last_pos(s, cart_id_key(id))
}

/// Position of the cart line of this user for this product.
pub open spec fn cart_pos(s: Seq<cart::Model>, user_id: u128, product_id: u128) -> int {
    last_pos(s, cart_key(user_id, product_id))
}

/// The cart lines of one user, in table order.
pub open spec fn user_rows(s: Seq<cart::Model>, user_id: u128) -> Seq<cart::Model> {
    keep(s, owned_by(user_id))
}

/// The cart lines of everyone else, in table order.
pub open spec fn other_rows(s: Seq<cart::Model>, user_id: u128) -> Seq<cart::Model> {
    keep(s, not_owned_by(user_id))
}

/// The orders of one user, in table order.
pub open spec fn user_orders(s: Seq<orders::Model>, user_id: u128) -> Seq<orders::Model> {
    keep(s, placed_by(user_id))
}

/// The lines of one order, in table order.
pub open spec fn lines_of_order(s: Seq<order_items::Model>, order_id: u128) -> Seq<
    order_items::Model,
> {
    keep(s, part_of(order_id))
}

/// Some stored order has this id.
pub open spec fn order_stored(orders: Seq<orders::Model>, id: u128) -> bool {
    exists|j: int| 0 <= j < orders.len() && (#[trigger] orders[j]).id == id
}

/// Every order line belongs to a stored order.
pub open spec fn items_owned(orders: Seq<orders::Model>, items: Seq<order_items::Model>) -> bool {
    forall|i: int| 0 <= i < items.len() ==> order_stored(orders, (#[trigger] items[i]).order_id)
}

/// Appending an element related both ways to every present one keeps a relation pairwise.
pub proof fn lemma_pairwise_push<T>(s: Seq<T>, x: T, r: spec_fn(T, T) -> bool)
    requires
        pairwise(s, r),
        forall|i: int| 0 <= i < s.len() ==> r(#[trigger] s[i], x) && r(x, s[i]),
    ensures
        pairwise(s.push(x), r),
{
    let t = s.push(x);
    assert forall|i: int, j: int|
        0 <= i < t.len() && 0 <= j < t.len() && i != j implies #[trigger] r(t[i], #[trigger] t[j]) by {
        if i < s.len() && j < s.len() {
            assert(r(s[i], s[j]));
        } else if i < s.len() {
            assert(r(s[i], x));
        } else {
            assert(r(x, s[j]));
        }
    }
}

/// Replacing an element by one that every relation treats alike keeps a relation pairwise.
pub proof fn lemma_pairwise_update<T>(s: Seq<T>, k: int, x: T, r: spec_fn(T, T) -> bool)
    requires
        pairwise(s, r),
        0 <= k < s.len(),
        forall|y: T| #[trigger] r(y, x) == r(y, s[k]),
        forall|y: T| #[trigger] r(x, y) == r(s[k], y),
    ensures
        pairwise(s.update(k, x), r),
{
    let t = s.update(k, x);
    assert forall|i: int, j: int|
        0 <= i < t.len() && 0 <= j < t.len() && i != j implies #[trigger] r(t[i], #[trigger] t[j]) by {
        assert(r(s[i], s[j]));
        if i == k {
            assert(r(x, s[j]) == r(s[k], s[j]));
        } else if j == k {
            assert(r(s[i], x) == r(s[i], s[k]));
        }
    }
}

/// Removing an element keeps a relation pairwise.
pub proof fn lemma_pairwise_remove<T>(s: Seq<T>, k: int, r: spec_fn(T, T) -> bool)
    requires
        pairwise(s, r),
        0 <= k < s.len(),
    ensures
        pairwise(s.remove(k), r),
{
    let t = s.remove(k);
    assert forall|i: int, j: int|
        0 <= i < t.len() && 0 <= j < t.len() && i != j implies #[trigger] r(t[i], #[trigger] t[j]) by {
        let i2 = if i < k {
            i
        } else {
            i + 1
        };
        let j2 = if j < k {
            j
        } else {
            j + 1
        };
        assert(t[i] == s[i2] && t[j] == s[j2]);
        assert(r(s[i2], s[j2]));
    }
}

/// Adding an order keeps every line's order stored.
pub proof fn lemma_owned_push_order(
    orders: Seq<orders::Model>,
    items: Seq<order_items::Model>,
    o: orders::Model,
)
    requires
        items_owned(orders, items),
    ensures
        items_owned(orders.push(o), items),
{
    let t = orders.push(o);
    assert forall|i: int| 0 <= i < items.len() implies order_stored(t, (#[trigger] items[i]).order_id) by {
        assert(order_stored(orders, items[i].order_id));
        let j = choose|j: int| 0 <= j < orders.len() && (#[trigger] orders[j]).id == items[i].order_id;
        assert(t[j] == orders[j]);
    }
}

/// Changing an order but not its id keeps every line's order stored.
pub proof fn lemma_owned_update_order(
    orders: Seq<orders::Model>,
    items: Seq<order_items::Model>,
    k: int,
    o: orders::Model,
)
    requires
        items_owned(orders, items),
        0 <= k < orders.len(),
        o.id == orders[k].id,
    ensures
        items_owned(orders.update(k, o), items),
{
    let t = orders.update(k, o);
    assert forall|i: int| 0 <= i < items.len() implies order_stored(t, (#[trigger] items[i]).order_id) by {
        assert(order_stored(orders, items[i].order_id));
        let j = choose|j: int| 0 <= j < orders.len() && (#[trigger] orders[j]).id == items[i].order_id;
        assert(t[j].id == orders[j].id);
    }
}

/// Filtering a sequence whose first `n` elements fail and whose others pass leaves the others.
pub proof fn lemma_keep_tail<T>(s: Seq<T>, f: spec_fn(T) -> bool, n: int)
    requires
        0 <= n <= s.len(),
        forall|i: int| 0 <= i < n ==> !f(#[trigger] s[i]),
        forall|i: int| n <= i < s.len() ==> f(#[trigger] s[i]),
    ensures
        keep(s, f) == s.subrange(n, s.len() as int),
    decreases s.len(),
{
    if s.len() == 0 {
        assert(s.subrange(n, 0) =~= Seq::<T>::empty());
    } else {
        let pre = s.drop_last();
        assert(s.last() == s[s.len() - 1]);
        if n == s.len() {
            assert forall|i: int| 0 <= i < pre.len() implies !f(#[trigger] pre[i]) by {
                assert(pre[i] == s[i]);
            }
            lemma_keep_tail(pre, f, pre.len() as int);
            assert(s.subrange(n, s.len() as int) =~= Seq::<T>::empty());
            assert(pre.subrange(pre.len() as int, pre.len() as int) =~= Seq::<T>::empty());
        } else {
            assert forall|i: int| 0 <= i < n implies !f(#[trigger] pre[i]) by {
                assert(pre[i] == s[i]);
            }
            assert forall|i: int| n <= i < pre.len() implies f(#[trigger] pre[i]) by {
                assert(pre[i] == s[i]);
            }
            lemma_keep_tail(pre, f, n);
            assert(pre.subrange(n, pre.len() as int).push(s.last()) =~= s.subrange(
                n,
                s.len() as int,
            ));
        }
    }
}

/// The stored tables: accounts, catalog, carts, orders and their lines.
pub struct Database {
    pub users: Vec<users::Model>,
    pub products: Vec<products::Model>,
    pub cart: Vec<cart::Model>,
    pub orders: Vec<orders::Model>,
    pub order_items: Vec<order_items::Model>,
}

impl Database {
    /// Keys are unique in every table, usernames and emails are unique, every product
    /// status is one of the three allowed, every amount is well formed, and every order line
    /// belongs to a stored order.
    pub open spec fn wf(&self) -> bool {
        &&& pairwise(self.users@, user_rel())
        &&& pairwise(self.products@, product_rel())
        &&& forall|i: int|
            0 <= i < self.products@.len() ==> (#[trigger] self.products@[i]).price.wf()
                && status_valid(self.products@[i].status@)
        &&& pairwise(self.cart@, cart_rel())
        &&& pairwise(self.orders@, order_rel())
        &&& forall|i: int|
            0 <= i < self.orders@.len() ==> (#[trigger] self.orders@[i]).total_price.wf()
        &&& pairwise(self.order_items@, item_rel())
        &&& forall|i: int|
            0 <= i < self.order_items@.len() ==> (#[trigger] self.order_items@[i]).price.wf()
        &&& items_owned(self.orders@, self.order_items@)
    }

    /// Empty tables.
    pub fn new() -> (r: Database)
        ensures
            r.wf(),
            r.users@.len() == 0,
            r.products@.len() == 0,
            r.cart@.len() == 0,
            r.orders@.len() == 0,
            r.order_items@.len() == 0,
    {
        Database {
            users: Vec::new(),
            products: Vec::new(),
            cart: Vec::new(),
            orders: Vec::new(),
            order_items: Vec::new(),
        }
    }
}

/// The position of the product with this id, if any.
pub fn find_product(s: &Vec<products::Model>, id: u128) -> (r: Option<usize>)
    ensures
        product_pos(s@, id) == (match r {
            Some(i) => i as int,
            None => -1,
        }),
        r matches Some(i) ==> i < s@.len(),
{
    let ghost f = product_key(id);
    let mut i = s.len();
    while i > 0
        invariant
            f == product_key(id),
            i <= s.len(),
            forall|k: int| i <= k < s.len() ==> !f(#[trigger] s@[k]),
        decreases i,
    {
        if s[i - 1].id == id {
            proof {
                assert(f(s@[i - 1]));
                lemma_last_pos_at(s@, f, i - 1);
            }
            return Some(i - 1);
        }
        i = i - 1;
    }
    proof {
        lemma_last_pos_at(s@, f, -1);
    }
    None
}

/// The position of the order with this id, if any.
pub fn find_order(s: &Vec<orders::Model>, id: u128) -> (r: Option<usize>)
    ensures
        order_pos(s@, id) == (match r {
            Some(i) => i as int,
            None => -1,
        }),
        r matches Some(i) ==> i < s@.len(),
{
    let ghost f = order_key(id);
    let mut i = s.len();
    while i > 0
        invariant
            f == order_key(id),
            i <= s.len(),
            forall|k: int| i <= k < s.len() ==> !f(#[trigger] s@[k]),
        decreases i,
    {
        if s[i - 1].id == id {
            proof {
                assert(f(s@[i - 1]));
                lemma_last_pos_at(s@, f, i - 1);
            }
            return Some(i - 1);
        }
        i = i - 1;
    }
    proof {
        lemma_last_pos_at(s@, f, -1);
    }
    None
}

/// The position of this user's cart line for this product, if any.
pub fn find_cart_line(s: &Vec<cart::Model>, user_id: u128, product_id: u128) -> (r: Option<
    usize,
>)
    ensures
        cart_pos(s@, user_id, product_id) == (match r {
            Some(i) => i as int,
            None => -1,
        }),
        r matches Some(i) ==> i < s@.len(),
{
    let ghost f = cart_key(user_id, product_id);
    let mut i = s.len();
    while i > 0
        invariant
            f == cart_key(user_id, product_id),
            i <= s.len(),
            forall|k: int| i <= k < s.len() ==> !f(#[trigger] s@[k]),
        decreases i,
    {
        if s[i - 1].user_id == user_id && s[i - 1].product_id == product_id {
            proof {
                assert(f(s@[i - 1]));
                lemma_last_pos_at(s@, f, i - 1);
            }
            return Some(i - 1);
        }
        i = i - 1;
    }
    proof {
        lemma_last_pos_at(s@, f, -1);
    }
    None
}

/// The position of the cart line with this id, if any.
pub fn find_cart_id(s: &Vec<cart::Model>, id: u128) -> (r: Option<usize>)
    ensures
        cart_id_pos(s@, id) == (match r {
            Some(i) => i as int,
            None => -1,
        }),
        r matches Some(i) ==> i < s@.len(),
{
    let ghost f = cart_id_key(id);
    let mut i = s.len();
    while i > 0
        invariant
            f == cart_id_key(id),
            i <= s.len(),
            forall|k: int| i <= k < s.len() ==> !f(#[trigger] s@[k]),
        decreases i,
    {
        if s[i - 1].id == id {
            proof {
                assert(f(s@[i - 1]));
                lemma_last_pos_at(s@, f, i - 1);
            }
            return Some(i - 1);
        }
        i = i - 1;
    }
    proof {
        lemma_last_pos_at(s@, f, -1);
    }
    None
}

/// The position of the account with this username, if any.
pub fn find_user_by_name(s: &Vec<users::Model>, name: &str) -> (r: Option<usize>)
    ensures
        user_pos(s@, name@) == (match r {
            Some(i) => i as int,
            None => -1,
        }),
        r matches Some(i) ==> i < s@.len(),
{
    let ghost f = user_name_key(name@);
    let mut i = s.len();
    while i > 0
        invariant
            f == user_name_key(name@),
            i <= s.len(),
            forall|k: int| i <= k < s.len() ==> !f(#[trigger] s@[k]),
        decreases i,
    {
        if same_text(s[i - 1].username.as_str(), name) {
            proof {
                assert(f(s@[i - 1]));
                lemma_last_pos_at(s@, f, i - 1);
            }
            return Some(i - 1);
        }
        i = i - 1;
    }
    proof {
        lemma_last_pos_at(s@, f, -1);
    }
    None
}

/// The cart lines of one user, in table order.
pub fn collect_user_rows(s: &Vec<cart::Model>, user_id: u128) -> (r: Vec<cart::Model>)
    ensures
        r@ == user_rows(s@, user_id),
{
    let ghost f = owned_by(user_id);
    let mut r: Vec<cart::Model> = Vec::new();
    let mut i: usize = 0;
    while i < s.len()
        invariant
            f == owned_by(user_id),
            i <= s.len(),
            r@ == keep(s@.subrange(0, i as int), f),
        decreases s.len() - i,
    {
        assert(s@.subrange(0, i + 1).drop_last() =~= s@.subrange(0, i as int));
        assert(s@.subrange(0, i + 1).last() == s@[i as int]);
        if s[i].user_id == user_id {
            r.push(s[i]);
        }
        i = i + 1;
    }
    assert(s@.subrange(0, i as int) =~= s@);
    r
}

/// The cart lines of everyone but one user, in table order.
pub fn collect_other_rows(s: &Vec<cart::Model>, user_id: u128) -> (r: Vec<cart::Model>)
    ensures
        r@ == other_rows(s@, user_id),
{
    let ghost f = not_owned_by(user_id);
    let mut r: Vec<cart::Model> = Vec::new();
    let mut i: usize = 0;
    while i < s.len()
        invariant
            f == not_owned_by(user_id),
            i <= s.len(),
            r@ == keep(s@.subrange(0, i as int), f),
        decreases s.len() - i,
    {
        assert(s@.subrange(0, i + 1).drop_last() =~= s@.subrange(0, i as int));
        assert(s@.subrange(0, i + 1).last() == s@[i as int]);
        if s[i].user_id != user_id {
            r.push(s[i]);
        }
        i = i + 1;
    }
    assert(s@.subrange(0, i as int) =~= s@);
    r
}

} // verus!
