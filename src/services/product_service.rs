use crate::bindings::{fresh_id, now_unix};
use crate::db::{
    lemma_pairwise_push, lemma_pairwise_update, lemma_pairwise_remove,
    find_product, lemma_last_pos, product_key, product_pos, product_rel, status_valid, Database,
};
use crate::entity::products;
use crate::error::ApiError;
use crate::money::Money;
use crate::services::cart_service::{missing_product, product_missing_text};
use crate::text::{owned, same_text};
use vstd::prelude::*;
use vstd::string::*;

verus! {

/// Every table but the catalog is as it was.
pub open spec fn catalog_only_changed(old: Database, new: Database) -> bool {
    &&& new.users@ == old.users@
    &&& new.cart@ == old.cart@
    &&& new.orders@ == old.orders@
    &&& new.order_items@ == old.order_items@
}

/// A product with only the supplied fields replaced.
pub open spec fn patched(
    m: products::Model,
    name: Option<String>,
    description: Option<String>,
    price: Option<Money>,
) -> products::Model {
    products::Model {
        name: match name {
            Some(n) => n,
            None => m.name,
        },
        description: match description {
            Some(d) => Some(d),
            None => m.description,
        },
        price: match price {
            Some(p) => p,
            None => m.price,
        },
        ..m
    }
}

/// Whether `s` is `available`, `reserved` or `sold`.
pub fn valid_status(s: &str) -> (r: bool)
    ensures
        r == status_valid(s@),
{
    proof {
        reveal_strlit("available");
        reveal_strlit("reserved");
        reveal_strlit("sold");
    }
    same_text(s, "available") || same_text(s, "reserved") || same_text(s, "sold")
}

/// The refusal of a status outside the three allowed.
pub fn invalid_status(s: &str) -> (r: ApiError)
    ensures
        r matches ApiError::ValidationError(m) && m@ == "Invalid status: "@ + s@,
{
    ApiError::ValidationError(owned("Invalid status: ").concat(s))
}

/// The whole catalog, in table order.
pub fn get_all_products(db: &Database) -> (r: Result<Vec<products::Model>, ApiError>)
    ensures
        r matches Ok(v) && v@ == db.products@,
{
    let mut all: Vec<products::Model> = Vec::new();
    let mut k: usize = 0;
    while k < db.products.len()
        invariant
            k <= db.products@.len(),
            all@ == db.products@.subrange(0, k as int),
        decreases db.products@.len() - k,
    {
        all.push(db.products[k].duplicate());
        proof {
            assert(all@ =~= db.products@.subrange(0, k + 1));
        }
        k = k + 1;
    }
    assert(db.products@.subrange(0, k as int) =~= db.products@);
    Ok(all)
}

/// The product with this id.
pub fn get_product_by_id(db: &Database, product_id: u128) -> (r: Result<
    products::Model,
    ApiError,
>)
    ensures
        product_pos(db.products@, product_id) < 0 ==> (r matches Err(ApiError::NotFound(m))
            && m@ == product_missing_text(product_id)),
        product_pos(db.products@, product_id) >= 0 ==> r == Ok::<products::Model, ApiError>(
            db.products@[product_pos(db.products@, product_id)],
        ),
{
    match find_product(&db.products, product_id) {
        None => Err(missing_product(product_id)),
        Some(i) => Ok(db.products[i].duplicate()),
    }
}

/// Adds a product with id `id`; the status defaults to `available`.
pub fn create_product_with_id(
    db: &mut Database,
    id: u128,
    name: String,
    description: Option<String>,
    price: Money,
    status: Option<String>,
    now: i64,
) -> (r: Result<products::Model, ApiError>)
    requires
        old(db).wf(),
    ensures
        final(db).wf(),
        catalog_only_changed(*old(db), *final(db)),
        r is Err ==> final(db).products@ == old(db).products@,
        (status matches Some(s) && !status_valid(s@)) ==> (r matches Err(
            ApiError::ValidationError(m),
        ) && m@ == "Invalid status: "@ + status->Some_0@),
        (status matches Some(s) ==> status_valid(s@)) && !price.wf() ==> r matches Err(
            ApiError::ValidationError(_),
        ),
        (status matches Some(s) ==> status_valid(s@)) && price.wf() ==> if product_pos(
            old(db).products@,
            id,
        ) >= 0 {
            r matches Err(ApiError::DatabaseError(_))
        } else {
            r matches Ok(p) && p.id == id && p.name == name && p.description == description
                && p.price == price && p.status@ == (match status {
                Some(s) => s@,
                None => "available"@,
            }) && p.created_at == now && final(db).products@ == old(db).products@.push(p)
        },
{
    let status = match status {
        Some(s) => {
            if !valid_status(s.as_str()) {
                return Err(invalid_status(s.as_str()));
            }
            s
        },
        None => owned("available"),
    };
    if !price.is_valid() {
        return Err(ApiError::ValidationError(owned("Price is out of range")));
    }
    if find_product(&db.products, id).is_some() {
        return Err(ApiError::DatabaseError(owned("Failed to create product")));
    }
    proof {
        reveal_strlit("available");
        lemma_last_pos(db.products@, product_key(id));
    }
    let product = products::Model { id, name, description, price, status, created_at: now };
    let created = product.duplicate();
    proof {
        let s = db.products@;
        assert forall|k: int| 0 <= k < s.len() implies product_rel()(#[trigger] s[k], product) && product_rel()(product, s[k]) by {
            assert(!product_key(id)(s[k]));
        }
        lemma_pairwise_push(s, product, product_rel());
    }
    db.products.push(product);
    Ok(created)
}

/// Adds a product with a fresh id, stamped with the current time.
pub fn create_product(
    db: &mut Database,
    name: String,
    description: Option<String>,
    price: Money,
    status: Option<String>,
) -> (r: Result<products::Model, ApiError>)
    requires
        old(db).wf(),
    ensures
        final(db).wf(),
        catalog_only_changed(*old(db), *final(db)),
        r is Err ==> final(db).products@ == old(db).products@,
        (status matches Some(s) && !status_valid(s@)) ==> (r matches Err(
            ApiError::ValidationError(m),
        ) && m@ == "Invalid status: "@ + status->Some_0@),
        (status matches Some(s) ==> status_valid(s@)) && !price.wf() ==> r matches Err(
            ApiError::ValidationError(_),
        ),
        (status matches Some(s) ==> status_valid(s@)) && price.wf() ==> match r {
            Ok(p) => p.name == name && p.description == description && p.price == price
                && p.status@ == (match status {
                Some(s) => s@,
                None => "available"@,
            }) && final(db).products@ == old(db).products@.push(p),
            Err(e) => e is DatabaseError,
        },
{
    let id = fresh_id();
    let now = now_unix();
    create_product_with_id(db, id, name, description, price, status, now)
}

/// Replaces the supplied fields of a product and keeps the others.
pub fn update_product(
    db: &mut Database,
    product_id: u128,
    name: Option<String>,
    description: Option<String>,
    price: Option<Money>,
) -> (r: Result<products::Model, ApiError>)
    requires
        old(db).wf(),
    ensures
        final(db).wf(),
        catalog_only_changed(*old(db), *final(db)),
        r is Err ==> final(db).products@ == old(db).products@,
        product_pos(old(db).products@, product_id) < 0 ==> (r matches Err(ApiError::NotFound(m))
            && m@ == product_missing_text(product_id)),
        product_pos(old(db).products@, product_id) >= 0 && (price matches Some(p) && !p.wf())
            ==> r matches Err(ApiError::ValidationError(_)),
        ({
            let i = product_pos(old(db).products@, product_id);
            let m = patched(old(db).products@[i], name, description, price);
            i >= 0 && (price matches Some(p) ==> p.wf()) ==> r == Ok::<products::Model, ApiError>(
                m,
            ) && final(db).products@ == old(db).products@.update(i, m)
        }),
{
    match find_product(&db.products, product_id) {
        None => Err(missing_product(product_id)),
        Some(i) => {
            if let Some(p) = price {
                if !p.is_valid() {
                    return Err(
                        ApiError::ValidationError(owned("Price is out of range")),
                    );
                }
            }
            let cur = db.products[i].duplicate();
            let updated = products::Model {
                id: cur.id,
                name: match name {
                    Some(n) => n,
                    None => cur.name,
                },
                description: match description {
                    Some(d) => Some(d),
                    None => cur.description,
                },
                price: match price {
                    Some(p) => p,
                    None => cur.price,
                },
                status: cur.status,
                created_at: cur.created_at,
            };
            let result = updated.duplicate();
            proof {
                let s = db.products@;
                let t = s.update(i as int, updated);
                lemma_pairwise_update(s, i as int, updated, product_rel());
                assert forall|a: int| 0 <= a < t.len() implies (#[trigger] t[a]).price.wf()
                    && status_valid(t[a].status@) by {
                    assert(s[a].price.wf() && status_valid(s[a].status@));
                }
            }
            db.products.set(i, updated);
            Ok(result)
        },
    }
}

/// Sets a product's status; only `available`, `reserved` and `sold` are accepted.
pub fn update_product_status(db: &mut Database, product_id: u128, new_status: String) -> (r:
    Result<(), ApiError>)
    requires
        old(db).wf(),
    ensures
        final(db).wf(),
        catalog_only_changed(*old(db), *final(db)),
        r is Err ==> final(db).products@ == old(db).products@,
        !status_valid(new_status@) ==> (r matches Err(ApiError::ValidationError(m)) && m@
            == "Invalid status: "@ + new_status@),
        status_valid(new_status@) && product_pos(old(db).products@, product_id) < 0 ==> (r matches Err(
            ApiError::NotFound(m),
        ) && m@ == product_missing_text(product_id)),
        ({
            let i = product_pos(old(db).products@, product_id);
            let m = products::Model { status: new_status, ..old(db).products@[i] };
            status_valid(new_status@) && i >= 0 ==> r is Ok && final(db).products@ == old(
                db,
            ).products@.update(i, m)
        }),
{
    if !valid_status(new_status.as_str()) {
        return Err(invalid_status(new_status.as_str()));
    }
    match find_product(&db.products, product_id) {
        None => Err(missing_product(product_id)),
        Some(i) => {
            let cur = db.products[i].duplicate();
            let updated = products::Model { status: new_status, ..cur };
            proof {
                let s = db.products@;
                let t = s.update(i as int, updated);
                lemma_pairwise_update(s, i as int, updated, product_rel());
                assert forall|a: int| 0 <= a < t.len() implies (#[trigger] t[a]).price.wf()
                    && status_valid(t[a].status@) by {
                    assert(s[a].price.wf());
                }
            }
            db.products.set(i, updated);
            Ok(())
        },
    }
}

/// Deletes a product.
pub fn delete_product(db: &mut Database, product_id: u128) -> (r: Result<(), ApiError>)
    requires
        old(db).wf(),
    ensures
        final(db).wf(),
        catalog_only_changed(*old(db), *final(db)),
        product_pos(old(db).products@, product_id) < 0 ==> (r matches Err(ApiError::NotFound(m))
            && m@ == product_missing_text(product_id) && final(db).products@ == old(
            db,
        ).products@),
        product_pos(old(db).products@, product_id) >= 0 ==> r is Ok && final(db).products@
            == old(db).products@.remove(product_pos(old(db).products@, product_id)),
{
    match find_product(&db.products, product_id) {
        None => Err(missing_product(product_id)),
        Some(i) => {
            proof {
                let s = db.products@;
                let t = s.remove(i as int);
                lemma_pairwise_remove(s, i as int, product_rel());
                assert forall|a: int| 0 <= a < t.len() implies (#[trigger] t[a]).price.wf()
                    && status_valid(t[a].status@) by {
                    let a2 = if a < i {
                        a
                    } else {
                        a + 1
                    };
                    assert(t[a] == s[a2]);
                    assert(s[a2].price.wf() && status_valid(s[a2].status@));
                }
            }
            db.products.remove(i);
            Ok(())
        },
    }
}

} // verus!
