//! The password exchange behind pairing, and the hashes and random bytes it needs.

use vstd::prelude::*;

verus! {

/// The SHA-256 hash of some bytes.
pub uninterp spec fn sha256_of(b: Seq<u8>) -> Seq<u8>;

/// `sha2::Sha256::digest` gives 32 bytes that depend on its argument alone.
#[verifier::external_body]
pub(crate) fn sha256(b: &[u8]) -> (r: [u8; 32])
    ensures
        r@ == sha256_of(b@),
{
    <sha2::Sha256 as sha2::Digest>::digest(b).into()
}

/// The hexadecimal digit for a number below 16.
pub open spec fn hex_char(n: int) -> char {
    if n < 10 {
        (48 + n) as char
    } else {
        (87 + n) as char
    }
}

/// Bytes in hexadecimal, two lower-case digits each, the higher half first.
pub open spec fn hex_text(b: Seq<u8>) -> Seq<char> {
    Seq::new(
        2 * b.len(),
        |i: int|
            hex_char(
                if i % 2 == 0 {
                    b[i / 2] as int / 16
                } else {
                    b[i / 2] as int % 16
                },
            ),
    )
}

/// `hex::encode` writes each byte as two lower-case hexadecimal digits.
#[verifier::external_body]
pub(crate) fn hex_of(b: &[u8]) -> (r: String)
    ensures
        r@ == hex_text(b@),
{
    hex::encode(b)
}

/// `n` bytes from `ring::rand::SystemRandom`, or nothing where the system has none to
/// give. Which bytes come is up to chance.
#[verifier::external_body]
pub fn random_bytes(n: usize) -> (r: Option<Vec<u8>>)
    ensures
        r matches Some(v) ==> v@.len() == n,
{
    let mut buf = vec![0u8; n];
    let filled = ring::rand::SecureRandom::fill(&ring::rand::SystemRandom::new(), &mut buf);
    filled.ok().map(|_| buf)
}

/// Length of a message of the exchange: the side that sent it, then a curve point.
pub const EXCHANGE_MESSAGE_LEN: usize = 33;

/// What a message of the side that begins starts with.
pub const SIDE_A: u8 = 0x41;

/// What a message of the side that answers starts with.
pub const SIDE_B: u8 = 0x42;

/// One side of a SPAKE2 exchange that has sent its message and waits for the other's.
#[verifier::external_body]
pub struct Exchange {
    state: spake2::Spake2<spake2::Ed25519Group>,
}

/// What a side of an exchange holds: the letter of the side, the password, the identities
/// of the side that begins and of the side that answers, and the message it sent.
pub uninterp spec fn exchange_holds(e: Exchange) -> Seq<Seq<u8>>;

/// Whether 32 bytes stand for a point of the curve.
pub uninterp spec fn curve_point(b: Seq<u8>) -> bool;

/// The key of an exchange over a password and two identities in which the side that
/// begins sent `first` and the side that answers sent `second`.
pub uninterp spec fn spake2_key(
    password: Seq<u8>,
    id_a: Seq<u8>,
    id_b: Seq<u8>,
    first: Seq<u8>,
    second: Seq<u8>,
) -> Seq<u8>;

/// A message as side `side` sends it.
pub open spec fn exchange_message(m: Seq<u8>, side: u8) -> bool {
    &&& m.len() == EXCHANGE_MESSAGE_LEN
    &&& m[0] == side
    &&& curve_point(m.skip(1))
}

/// `spake2::Spake2::start_a` begins an exchange. Which of the points it sends is up to
/// chance; it stops the process where the system has no random bytes to give.
#[verifier::external_body]
pub(crate) fn exchange_begin(password: &[u8], id_a: &[u8], id_b: &[u8]) -> (r: (Exchange, Vec<u8>))
    ensures
        exchange_holds(r.0) == seq![seq![SIDE_A], password@, id_a@, id_b@, r.1@],
        r.1@.len() == EXCHANGE_MESSAGE_LEN && r.1@[0] == SIDE_A && curve_point(r.1@.skip(1)),
{
    let (state, sent) = spake2::Spake2::<spake2::Ed25519Group>::start_a(
        &spake2::Password::new(password),
        &spake2::Identity::new(id_a),
        &spake2::Identity::new(id_b),
    );
    (Exchange { state }, sent)
}

/// `spake2::Spake2::start_b` answers an exchange. Which of the points it sends is up to
/// chance; it stops the process where the system has no random bytes to give.
#[verifier::external_body]
pub(crate) fn exchange_answer(password: &[u8], id_a: &[u8], id_b: &[u8]) -> (r: (Exchange, Vec<u8>))
    ensures
        exchange_holds(r.0) == seq![seq![SIDE_B], password@, id_a@, id_b@, r.1@],
        r.1@.len() == EXCHANGE_MESSAGE_LEN && r.1@[0] == SIDE_B && curve_point(r.1@.skip(1)),
{
    let (state, sent) = spake2::Spake2::<spake2::Ed25519Group>::start_b(
        &spake2::Password::new(password),
        &spake2::Identity::new(id_a),
        &spake2::Identity::new(id_b),
    );
    (Exchange { state }, sent)
}

/// Whether what one side holds is the side that begins.
pub open spec fn begins(holds: Seq<Seq<u8>>) -> bool {
    holds[0] == seq![SIDE_A]
}

/// Whether a side takes `m` for a message of the other side.
pub open spec fn exchange_takes(holds: Seq<Seq<u8>>, m: Seq<u8>) -> bool {
    exchange_message(
        m,
        if begins(holds) {
            SIDE_B
        } else {
            SIDE_A
        },
    )
}

/// The key that a side gets out of the message `m` of the other side.
pub open spec fn exchange_key(holds: Seq<Seq<u8>>, m: Seq<u8>) -> Seq<u8> {
    if begins(holds) {
        spake2_key(holds[1], holds[2], holds[3], holds[4], m)
    } else {
        spake2_key(holds[1], holds[2], holds[3], m, holds[4])
    }
}

/// `spake2::Spake2::finish` takes a message of the other side and gives a key of 32
/// bytes; it refuses whatever the other side cannot have sent. The key depends on the
/// password, the identities and both messages; that different passwords give different
/// keys is not said.
#[verifier::external_body]
pub(crate) fn exchange_finish(e: Exchange, message: &[u8]) -> (r: Option<Vec<u8>>)
    ensures
        r is Some <==> exchange_takes(exchange_holds(e), message@),
        r matches Some(key) ==> key@.len() == 32 && key@ == (if begins(exchange_holds(e)) {
            spake2_key(
                exchange_holds(e)[1],
                exchange_holds(e)[2],
                exchange_holds(e)[3],
                exchange_holds(e)[4],
                message@,
            )
        } else {
            spake2_key(
                exchange_holds(e)[1],
                exchange_holds(e)[2],
                exchange_holds(e)[3],
                message@,
                exchange_holds(e)[4],
            )
        }),
{
    e.state.finish(message).ok()
}

/// Two sides that share password and identities get the same key when each gets the
/// message that the other sent.
pub proof fn law_both_sides_get_the_same_key(a: Seq<Seq<u8>>, b: Seq<Seq<u8>>)
    requires
        a.len() == 5,
        b.len() == 5,
        a[0] == seq![SIDE_A],
        b[0] == seq![SIDE_B],
        a[1] == b[1],
        a[2] == b[2],
        a[3] == b[3],
    ensures
        exchange_key(a, b[4]) == exchange_key(b, a[4]),
{
    assert(seq![SIDE_A][0] == SIDE_A);
    assert(seq![SIDE_B][0] == SIDE_B);
}

/// Bytes in hexadecimal are hexadecimal digits, two for each byte.
pub proof fn lemma_hex_text(b: Seq<u8>)
    ensures
        hex_text(b).len() == 2 * b.len(),
        crate::messages::all_hex(hex_text(b)),
        vstd::utf8::is_ascii_chars(hex_text(b)),
        crate::messages::byte_len(hex_text(b)) == 2 * b.len(),
{
    let t = hex_text(b);
    assert forall|i: int| 0 <= i < t.len() implies crate::messages::hex_digit(#[trigger] t[i])
        && (t[i] as u32) < 128 by {
        let n = if i % 2 == 0 {
            b[i / 2] as int / 16
        } else {
            b[i / 2] as int % 16
        };
        assert(0 <= n < 16);
        assert(t[i] == hex_char(n));
    }
    vstd::utf8::is_ascii_chars_encode_utf8(t);
}

/// The value of a hexadecimal digit in lower case.
pub open spec fn hex_value(c: char) -> int {
    if '0' <= c && c <= '9' {
        c as int - '0' as int
    } else if 'a' <= c && c <= 'f' {
        c as int - 'a' as int + 10
    } else {
        16
    }
}

/// Bytes in hexadecimal give the bytes back: two digits in lower case for each, the higher
/// half first.
pub proof fn law_hexadecimal_gives_the_bytes_back(b: Seq<u8>, i: int)
    requires
        0 <= i < b.len(),
    ensures
        hex_text(b).len() == 2 * b.len(),
        hex_value(hex_text(b)[2 * i]) < 16,
        hex_value(hex_text(b)[2 * i + 1]) < 16,
        hex_value(hex_text(b)[2 * i]) * 16 + hex_value(hex_text(b)[2 * i + 1]) == b[i],
{
    let n = b[i] as int;
    assert((2 * i) / 2 == i && (2 * i + 1) / 2 == i);
    assert((2 * i) % 2 == 0 && (2 * i + 1) % 2 == 1);
    let hi = n / 16;
    let lo = n % 16;
    assert(hex_text(b)[2 * i] == hex_char(hi));
    assert(hex_text(b)[2 * i + 1] == hex_char(lo));
    assert(0 <= hi < 16 && 0 <= lo < 16);
    assert(hex_value(hex_char(hi)) == hi);
    assert(hex_value(hex_char(lo)) == lo);
}

/// A message of the exchange is 33 bytes: an `A` from the side that begins or a `B` from the
/// side that answers, and a point of the curve. Each side takes those of the other, all of
/// them and no others.
pub proof fn law_messages_of_the_exchange(holds: Seq<Seq<u8>>, m: Seq<u8>)
    ensures
        exchange_message(m, 65) <==> m.len() == 33 && m[0] == 65 && curve_point(m.skip(1)),
        holds[0] == seq![65u8] ==> (exchange_takes(holds, m) <==> m.len() == 33 && m[0] == 66
            && curve_point(m.skip(1))),
        holds[0] == seq![66u8] ==> (exchange_takes(holds, m) <==> m.len() == 33 && m[0] == 65
            && curve_point(m.skip(1))),
{
    assert(seq![65u8][0] == 65);
    assert(seq![66u8][0] == 66);
}

} // verus!
