//! Identifiers of assets and devices: 128-bit UUIDs and their canonical
//! text form.
use vstd::prelude::*;

verus! {

/// The identifier whose bits are all zero.
pub const NIL_ID: u128 = 0;

/// `16` to the power `n`.
pub open spec fn pow16(n: nat) -> nat
    decreases n,
{
    if n == 0 {
        1
    } else {
        16 * pow16((n - 1) as nat)
    }
}

/// The `n` lowest hexadecimal digits of `x`, most significant first.
pub open spec fn hex_digits(x: nat, n: nat) -> Seq<int>
    decreases n,
{
    if n == 0 {
        Seq::empty()
    } else {
        hex_digits(x / 16, (n - 1) as nat).push((x % 16) as int)
    }
}

/// The lower-case character of a hexadecimal digit.
pub open spec fn hex_char(d: int) -> char {
    if d == 0 { '0' }
    else if d == 1 { '1' }
    else if d == 2 { '2' }
    else if d == 3 { '3' }
    else if d == 4 { '4' }
    else if d == 5 { '5' }
    else if d == 6 { '6' }
    else if d == 7 { '7' }
    else if d == 8 { '8' }
    else if d == 9 { '9' }
    else if d == 10 { 'a' }
    else if d == 11 { 'b' }
    else if d == 12 { 'c' }
    else if d == 13 { 'd' }
    else if d == 14 { 'e' }
    else { 'f' }
}

/// The 32 hexadecimal digit characters of an identifier.
pub open spec fn hex_text(id: u128) -> Seq<char> {
    hex_digits(id as nat, 32).map_values(|d: int| hex_char(d))
}

/// The hyphenated lower-case text of an identifier, in the groups of
/// 8, 4, 4, 4 and 12 digits.
pub open spec fn uuid_text(id: u128) -> Seq<char> {
    let h = hex_text(id);
    h.subrange(0, 8) + seq!['-'] + h.subrange(8, 12) + seq!['-'] + h.subrange(12, 16) + seq!['-']
        + h.subrange(16, 20) + seq!['-'] + h.subrange(20, 32)
}

/// The canonical text of an identifier.
///
/// Calls `uuid::Uuid::from_u128(id).to_string()`; the contract claims that
/// uuid's `Display` writes the hyphenated lower-case form of the 128 bits,
/// most significant digit first.
#[verifier::external_body]
pub(crate) fn uuid_string(id: u128) -> (r: String)
    ensures
        r@ == uuid_text(id),
{
    uuid::Uuid::from_u128(id).to_string()
}

/// A fresh random identifier.
///
/// Calls `uuid::Uuid::new_v4()`; the contract claims only the two fixed
/// parts of a version-4 UUID: the version digit is 4 and the variant
/// digit lies between 8 and 11. The other 122 bits are random and nothing
/// is said of them.
#[verifier::external_body]
pub(crate) fn new_random_id() -> (id: u128)
    ensures
        hex_digits(id as nat, 32)[12] == 4,
        8 <= hex_digits(id as nat, 32)[16] <= 11,
{
    uuid::Uuid::new_v4().as_u128()
}

/// `hex_digits` has `n` digits, each below 16.
pub proof fn lemma_hex_digits_shape(x: nat, n: nat)
    ensures
        hex_digits(x, n).len() == n,
        forall|i: int| 0 <= i < n ==> 0 <= #[trigger] hex_digits(x, n)[i] < 16,
    decreases n,
{
    if n > 0 {
        lemma_hex_digits_shape(x / 16, (n - 1) as nat);
    }
}

/// Numbers below `16^n` are told apart by their `n` lowest digits.
pub proof fn lemma_hex_digits_injective(x: nat, y: nat, n: nat)
    requires
        x < pow16(n),
        y < pow16(n),
        hex_digits(x, n) == hex_digits(y, n),
    ensures
        x == y,
    decreases n,
{
    if n > 0 {
        let p = pow16((n - 1) as nat);
        let dx = hex_digits(x, n);
        let dy = hex_digits(y, n);
        lemma_hex_digits_shape(x / 16, (n - 1) as nat);
        lemma_hex_digits_shape(y / 16, (n - 1) as nat);
        assert(dx.last() == x % 16);
        assert(dy.last() == y % 16);
        assert(dx.drop_last() =~= hex_digits(x / 16, (n - 1) as nat));
        assert(dy.drop_last() =~= hex_digits(y / 16, (n - 1) as nat));
        assert(x / 16 < p) by (nonlinear_arith)
            requires
                x < 16 * p,
        ;
        assert(y / 16 < p) by (nonlinear_arith)
            requires
                y < 16 * p,
        ;
        lemma_hex_digits_injective(x / 16, y / 16, (n - 1) as nat);
        assert(x == 16 * (x / 16) + x % 16) by (nonlinear_arith);
        assert(y == 16 * (y / 16) + y % 16) by (nonlinear_arith);
    }
}

/// Every 128-bit number lies below `16^32`.
pub proof fn lemma_u128_below_pow16(x: u128)
    ensures
        x < pow16(32),
{
    reveal_with_fuel(pow16, 33);
    assert(pow16(32) == 0x1_0000_0000_0000_0000_0000_0000_0000_0000);
}

/// Two identifiers with the same text are the same identifier.
pub proof fn lemma_uuid_text_injective(a: u128, b: u128)
    requires
        uuid_text(a) == uuid_text(b),
    ensures
        a == b,
{
    let ha = hex_text(a);
    let hb = hex_text(b);
    let da = hex_digits(a as nat, 32);
    let db = hex_digits(b as nat, 32);
    lemma_hex_digits_shape(a as nat, 32);
    lemma_hex_digits_shape(b as nat, 32);
    let ta = uuid_text(a);
    let tb = uuid_text(b);
    assert forall|i: int| 0 <= i < 32 implies ha[i] == hb[i] by {
        let pos = if i < 8 {
            i
        } else if i < 12 {
            i + 1
        } else if i < 16 {
            i + 2
        } else if i < 20 {
            i + 3
        } else {
            i + 4
        };
        assert(ta[pos] == ha[i]);
        assert(tb[pos] == hb[i]);
    }
    assert forall|i: int| 0 <= i < 32 implies da[i] == db[i] by {
        assert(ha[i] == hex_char(da[i]));
        assert(hb[i] == hex_char(db[i]));
    }
    assert(da =~= db);
    lemma_u128_below_pow16(a);
    lemma_u128_below_pow16(b);
    lemma_hex_digits_injective(a as nat, b as nat, 32);
}

} // verus!
