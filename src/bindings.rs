use crate::money::{in_range, Money};
use crate::services::auth::Claims;
use rust_decimal::Decimal;
use validator::ValidateEmail;
use vstd::prelude::*;

verus! {

/// Relies on uuid::Uuid::new_v4, read as its 128-bit value: a random identifier.
#[verifier::external_body]
pub(crate) fn fresh_id() -> (r: u128) {
    uuid::Uuid::new_v4().as_u128()
}

/// Sixteen to the power `n`.
pub open spec fn pow16(n: nat) -> int
    decreases n,
{
    if n == 0 {
        1
    } else {
        16 * pow16((n - 1) as nat)
    }
}

/// The `k`-th of the 32 hexadecimal digits of `id`, most significant first.
pub open spec fn hex_digit_of(id: u128, k: int) -> char {
    "0123456789abcdef"@[(id as int / pow16((31 - k) as nat)) % 16]
}

/// Position among the 32 digits of the character at `i` in the hyphenated form.
pub open spec fn digit_index(i: int) -> int {
    if i < 8 {
        i
    } else if i < 13 {
        i - 1
    } else if i < 18 {
        i - 2
    } else if i < 23 {
        i - 3
    } else {
        i - 4
    }
}

/// The hyphenated lower-case hexadecimal form of an identifier, 8-4-4-4-12 digits.
pub open spec fn uuid_text(id: u128) -> Seq<char> {
    Seq::new(
        36,
        |i: int|
            if i == 8 || i == 13 || i == 18 || i == 23 {
                '-'
            } else {
                hex_digit_of(id, digit_index(i))
            },
    )
}

/// Relies on uuid::Uuid::from_u128, which keeps the bytes big-endian, and the `Display` impl
/// of `Uuid`, which writes them as hyphenated lower-case hexadecimal.
#[verifier::external_body]
pub(crate) fn id_text(id: u128) -> (r: String)
    ensures
        r@ == uuid_text(id),
{
    uuid::Uuid::from_u128(id).to_string()
}

/// Relies on chrono::Utc::now and DateTime::timestamp: the current time in whole seconds
/// since the Unix epoch (`Utc::now` panics on a clock set before it, so it is never negative).
#[verifier::external_body]
pub(crate) fn now_unix() -> (r: i64)
    ensures
        r >= 0,
{
    chrono::Utc::now().timestamp()
}

/// Relies on bcrypt::hash: a salted hash of the password; the salt is random, a cost
/// outside 4..=31 is refused, and bcrypt::verify accepts the password against the hash made.
#[verifier::external_body]
pub(crate) fn bcrypt_hash(password: &str, cost: u32) -> (r: Option<String>)
    ensures
        (cost < 4 || cost > 31) ==> r is None,
        r matches Some(h) ==> bcrypt_accepts(password@, h@) == Some(true),
{
    bcrypt::hash(password, cost).ok()
}

/// Whether a password matches a stored hash; `None` when the hash cannot be read.
pub uninterp spec fn bcrypt_accepts(password: Seq<char>, hash: Seq<char>) -> Option<bool>;

/// Relies on bcrypt::verify: its answer depends on the password and the hash alone.
#[verifier::external_body]
pub(crate) fn bcrypt_verify(password: &str, hash: &str) -> (r: Option<bool>)
    ensures
        r == bcrypt_accepts(password@, hash@),
{
    bcrypt::verify(password, hash).ok()
}

/// Whether the regular expression `pattern` matches somewhere in `text`; `None` when the
/// pattern does not compile.
pub uninterp spec fn regex_search(pattern: Seq<char>, text: Seq<char>) -> Option<bool>;

/// Relies on regex::Regex::new and Regex::is_match: compile the pattern, then search the
/// text for a match anywhere in it.
#[verifier::external_body]
pub(crate) fn regex_find(pattern: &str, text: &str) -> (r: Option<bool>)
    ensures
        r == regex_search(pattern@, text@),
{
    regex::Regex::new(pattern).ok().map(|re| re.is_match(text))
}

/// Whether a string is an email address by the rules of the `validator` crate.
pub uninterp spec fn email_valid(s: Seq<char>) -> bool;

/// Relies on validator's ValidateEmail::validate_email for `&str`: its answer depends on
/// the string alone, and a string without `@` is refused.
#[verifier::external_body]
pub(crate) fn email_is_valid(s: &str) -> (r: bool)
    ensures
        r == email_valid(s@),
        !s@.contains('@') ==> !r,
{
    s.validate_email()
}

/// The HS256 token for the claims `sub` and `exp` signed with `secret`; `None` when encoding
/// fails.
pub uninterp spec fn jwt_text(sub: Seq<char>, exp: usize, secret: Seq<char>) -> Option<Seq<char>>;

/// Relies on jsonwebtoken::encode with the default header (HS256) and
/// EncodingKey::from_secret: the claims, written as a JSON object, are signed with the
/// secret; the token depends on them and the secret alone.
#[verifier::external_body]
pub(crate) fn sign_jwt(claims: &Claims, secret: &str) -> (r: Option<String>)
    ensures
        match r {
            Some(t) => jwt_text(claims.spec_sub(), claims.spec_exp(), secret@) == Some(t@),
            None => jwt_text(claims.spec_sub(), claims.spec_exp(), secret@) is None,
        },
{
    let mut object = serde_json::Map::new();
    object.insert("sub".to_string(), serde_json::Value::from(claims.get_sub()));
    object.insert("exp".to_string(), serde_json::Value::from(claims.get_exp() as u64));
    let key = jsonwebtoken::EncodingKey::from_secret(secret.as_bytes());
    jsonwebtoken::encode(&jsonwebtoken::Header::default(), &object, &key).ok()
}

/// The sum of two decimals given as `(mantissa, scale)`; `None` on overflow.
pub uninterp spec fn decimal_add(a: (i128, u32), b: (i128, u32)) -> Option<(i128, u32)>;

/// Relies on rust_decimal's Decimal::try_from_i128_with_scale, Decimal::checked_add,
/// Decimal::mantissa and Decimal::scale: a zero operand gives back the other one, and two
/// operands of one scale add exactly while the sum stays below `2^96`.
#[verifier::external_body]
pub(crate) fn decimal_checked_add(a: Money, b: Money) -> (r: Option<Money>)
    requires
        a.wf(),
        b.wf(),
    ensures
        r == match decimal_add(a.parts(), b.parts()) {
            Some(p) => Some(Money { mantissa: p.0, scale: p.1 }),
            None => None,
        },
        r matches Some(v) ==> v.wf(),
        a.mantissa == 0 ==> r == Some(b),
        a.mantissa != 0 && b.mantissa == 0 ==> r == Some(a),
        a.scale == b.scale && in_range(a.mantissa + b.mantissa) ==> r == Some(
            Money { mantissa: (a.mantissa + b.mantissa) as i128, scale: a.scale },
        ),
{
    match (
        Decimal::try_from_i128_with_scale(a.mantissa, a.scale),
        Decimal::try_from_i128_with_scale(b.mantissa, b.scale),
    ) {
        (Ok(x), Ok(y)) => x.checked_add(y).map(|d| Money { mantissa: d.mantissa(), scale: d.scale() }),
        _ => None,
    }
}

/// The product of a decimal given as `(mantissa, scale)` and an integer; `None` on overflow.
pub uninterp spec fn decimal_mul(a: (i128, u32), q: i32) -> Option<(i128, u32)>;

/// Relies on rust_decimal's Decimal::try_from_i128_with_scale, `Decimal::from(i32)`,
/// Decimal::checked_mul, Decimal::mantissa and Decimal::scale: a zero product is zero at
/// scale 0, and any other product below `2^96` is exact at the decimal's scale.
#[verifier::external_body]
pub(crate) fn decimal_checked_mul(a: Money, q: i32) -> (r: Option<Money>)
    requires
        a.wf(),
    ensures
        r == match decimal_mul(a.parts(), q) {
            Some(p) => Some(Money { mantissa: p.0, scale: p.1 }),
            None => None,
        },
        r matches Some(v) ==> v.wf(),
        a.mantissa * q == 0 ==> r == Some(Money { mantissa: 0, scale: 0 }),
        a.mantissa * q != 0 && in_range(a.mantissa * q) ==> r == Some(
            Money { mantissa: (a.mantissa * q) as i128, scale: a.scale },
        ),
{
    match Decimal::try_from_i128_with_scale(a.mantissa, a.scale) {
        Ok(x) => x.checked_mul(Decimal::from(q)).map(|d| Money { mantissa: d.mantissa(), scale: d.scale() }),
        Err(_) => None,
    }
}

} // verus!
