//! Bearer tokens: the SHA-1 digest, in hex, of a user's id written in
//! decimal followed by their password.

use vstd::prelude::*;
use vstd::utf8::encode_utf8;

verus! {

/// The lowercase hex SHA-1 digest of a byte string.
pub uninterp spec fn sha1_hex(b: Seq<u8>) -> Seq<char>;

/// Every character of `s` is a lowercase hex digit.
pub open spec fn is_lower_hex(s: Seq<char>) -> bool {
    forall|i: int| 0 <= i < s.len() ==> {
        let c = #[trigger] s[i];
        ('0' <= c && c <= '9') || ('a' <= c && c <= 'f')
    }
}

/// Relies on sha1 0.6 (`Sha1::new`, `update`, `digest` and the digest's
/// `Display`): the SHA-1 digest of `b`, written as 40 lowercase hex digits,
/// which depends on the bytes alone (`Display` writes each of the five
/// state words with `{:08x}`).
#[verifier::external_body]
fn sha1_hex_digest(b: &[u8]) -> (r: String)
    ensures
        r@ == sha1_hex(b@),
        r@.len() == 40,
        is_lower_hex(r@),
{
    let mut m = sha1::Sha1::new();
    m.update(b);
    m.digest().to_string()
}

/// The ASCII decimal digits of `n`, most significant first.
pub open spec fn digits(n: nat) -> Seq<u8>
    decreases n,
{
    if n < 10 {
        seq![(48 + n) as u8]
    } else {
        digits(n / 10).push((48 + n % 10) as u8)
    }
}

/// `i` written in decimal, with a leading `-` when it is negative.
pub open spec fn decimal(i: int) -> Seq<u8> {
    if i < 0 {
        seq![45u8] + digits((-i) as nat)
    } else {
        digits(i as nat)
    }
}

/// The bytes whose digest is the token of user `id` with this password.
pub open spec fn token_input(id: i32, password: Seq<char>) -> Seq<u8> {
    decimal(id as int) + encode_utf8(password)
}

/// The token of user `id` with this password.
pub open spec fn token_of(id: i32, password: Seq<char>) -> Seq<char> {
    sha1_hex(token_input(id, password))
}

/// `i` written in decimal.
pub fn decimal_bytes(i: i32) -> (r: Vec<u8>)
    ensures
        r@ == decimal(i as int),
{
    let neg = i < 0;
    let mut n: u64 = if neg { (0i64 - i as i64) as u64 } else { i as u64 };
    let ghost whole = n as nat;
    let mut acc: Vec<u8> = Vec::new();
    while n >= 10
        invariant
            digits(whole) == digits(n as nat) + acc@,
        decreases n,
    {
        let d = (n % 10) as u8;
        let ghost before = acc@;
        acc.insert(0, 48 + d);
        assert(digits(n as nat) == digits((n / 10) as nat).push((48 + n % 10) as u8));
        assert(acc@ =~= seq![(48 + n % 10) as u8] + before);
        assert(digits((n / 10) as nat) + acc@ =~= digits(n as nat) + before);
        n = n / 10;
    }
    acc.insert(0, 48 + n as u8);
    assert(acc@ =~= digits(n as nat) + acc@.subrange(1, acc@.len() as int));
    if neg {
        acc.insert(0, 45);
        assert(acc@ =~= seq![45u8] + digits(whole));
    } else {
        assert(acc@ =~= digits(whole));
    }
    acc
}

/// The token of user `id` with this password.
pub fn make_token(id: i32, password: &str) -> (r: String)
    ensures
        r@ == token_of(id, password@),
        r@.len() == 40,
        is_lower_hex(r@),
{
    let mut input = decimal_bytes(id);
    let pw = password.as_bytes();
    let ghost start = input@;
    let mut i: usize = 0;
    while i < pw.len()
        invariant
            i <= pw@.len(),
            pw@ == encode_utf8(password@),
            input@ == start + pw@.take(i as int),
        decreases pw@.len() - i,
    {
        input.push(pw[i]);
        assert(pw@.take(i + 1) =~= pw@.take(i as int).push(pw@[i as int]));
        i = i + 1;
    }
    assert(pw@.take(i as int) =~= pw@);
    sha1_hex_digest(input.as_slice())
}

} // verus!
