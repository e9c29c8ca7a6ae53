//! The values that messages are made of, as bytes: variable-length numbers, texts and
//! byte strings in the postcard format.

use vstd::prelude::*;
use vstd::slice::slice_subrange;

verus! {

/// What can be wrong with bytes that should hold a value.
#[derive(Clone, Copy, Debug, PartialEq, Eq, Structural)]
pub enum Fault {
    /// The bytes end before the value does.
    UnexpectedEnd,
    /// A number that does not end where it must, or is too large.
    BadVarint,
    /// A truth value other than 0 or 1.
    BadBool,
    /// A text that is not UTF-8.
    BadUtf8,
    /// An option tag other than 0 or 1.
    BadOption,
    /// An enum tag that stands for no variant.
    BadVariant,
}

impl Fault {
    /// The message of the fault.
    pub open spec fn text(self) -> Seq<char> {
        match self {
            Fault::UnexpectedEnd => "Hit the end of buffer, expected more data"@,
            Fault::BadVarint =>
                "Found a varint that didn't terminate. Is the usize too big for this platform?"@,
            Fault::BadBool => "Found a bool that wasn't 0 or 1"@,
            Fault::BadUtf8 => "Tried to parse invalid utf-8"@,
            Fault::BadOption => "Found an Option discriminant that wasn't 0 or 1"@,
            Fault::BadVariant => "Serde Deserialization Error"@,
        }
    }

    /// The message of the fault.
    pub fn to_string(&self) -> (r: String)
        ensures
            r@ == self.text(),
    {
        let s: &str = match self {
            Fault::UnexpectedEnd => "Hit the end of buffer, expected more data",
            Fault::BadVarint =>
                "Found a varint that didn't terminate. Is the usize too big for this platform?",
            Fault::BadBool => "Found a bool that wasn't 0 or 1",
            Fault::BadUtf8 => "Tried to parse invalid utf-8",
            Fault::BadOption => "Found an Option discriminant that wasn't 0 or 1",
            Fault::BadVariant => "Serde Deserialization Error",
        };
        s.to_owned()
    }
}

/// A number, seven bits to a byte, the lowest first; every byte but the last has its
/// highest bit set.
pub open spec fn varint_bytes(n: nat) -> Seq<u8>
    decreases n,
{
    if n < 128 {
        seq![n as u8]
    } else {
        seq![(n % 128 + 128) as u8] + varint_bytes(n / 128)
    }
}

/// Reads a number below `limit` off the front.
pub open spec fn take_varint(b: Seq<u8>, limit: int) -> Result<(nat, Seq<u8>), Fault>
    decreases b.len(),
{
    if b.len() == 0 {
        Err(Fault::UnexpectedEnd)
    } else if b[0] < 128 {
        if b[0] < limit {
            Ok((b[0] as nat, b.skip(1)))
        } else {
            Err(Fault::BadVarint)
        }
    } else if limit <= 128 {
        Err(Fault::BadVarint)
    } else {
        match take_varint(b.skip(1), limit / 128) {
            Ok((n, rest)) => Ok(((b[0] - 128 + 128 * n) as nat, rest)),
            Err(e) => Err(e),
        }
    }
}

/// A byte string behind its length.
pub open spec fn blob_bytes(b: Seq<u8>) -> Seq<u8> {
    varint_bytes(b.len()) + b
}

/// Reads a byte string off the front.
pub open spec fn take_blob(b: Seq<u8>) -> Result<(Seq<u8>, Seq<u8>), Fault> {
    match take_varint(b, usize::MAX + 1) {
        Err(e) => Err(e),
        Ok((n, rest)) => if n > rest.len() {
            Err(Fault::UnexpectedEnd)
        } else {
            Ok((rest.take(n as int), rest.skip(n as int)))
        },
    }
}

/// A text: its UTF-8 bytes behind their number.
pub open spec fn text_bytes(s: Seq<char>) -> Seq<u8> {
    blob_bytes(vstd::utf8::encode_utf8(s))
}

/// Reads a text off the front.
pub open spec fn take_text_of(b: Seq<u8>) -> Result<(Seq<char>, Seq<u8>), Fault> {
    match take_blob(b) {
        Err(e) => Err(e),
        Ok((raw, rest)) => if vstd::utf8::valid_utf8(raw) {
            Ok((vstd::utf8::decode_utf8(raw), rest))
        } else {
            Err(Fault::BadUtf8)
        },
    }
}

/// `postcard::to_allocvec` of an unsigned number writes it in groups of seven bits.
#[verifier::external_body]
pub(crate) fn put_number(n: u64) -> (r: Vec<u8>)
    ensures
        r@ == varint_bytes(n as nat),
{
    postcard::to_allocvec(&n).unwrap_or_default()
}

/// `postcard::to_allocvec` of a text writes its UTF-8 bytes behind their number.
#[verifier::external_body]
pub(crate) fn put_text(s: &str) -> (r: Vec<u8>)
    ensures
        r@ == text_bytes(s@),
{
    postcard::to_allocvec(s).unwrap_or_default()
}

/// `postcard::to_allocvec` of a byte slice writes the bytes behind their number.
#[verifier::external_body]
pub(crate) fn put_blob(b: &[u8]) -> (r: Vec<u8>)
    ensures
        r@ == blob_bytes(b@),
{
    postcard::to_allocvec(b).unwrap_or_default()
}

/// `postcard::take_from_bytes` for `u16` reads a number below 2^16 and hands back the
/// bytes behind it.
#[verifier::external_body]
pub(crate) fn take_u16<'a>(b: &'a [u8]) -> (r: Result<(u16, &'a [u8]), Fault>)
    ensures
        match take_varint(b@, 65536) {
            Ok((n, rest)) => r matches Ok((v, t)) && v == n && t@ == rest,
            Err(e) => r == Err::<(u16, &[u8]), Fault>(e),
        },
{
    match postcard::take_from_bytes::<u16>(b) {
        Ok(pair) => Ok(pair),
        Err(postcard::Error::DeserializeUnexpectedEnd) => Err(Fault::UnexpectedEnd),
        Err(_) => Err(Fault::BadVarint),
    }
}

/// `postcard::take_from_bytes` for `u32` reads a number below 2^32 and hands back the
/// bytes behind it.
#[verifier::external_body]
pub(crate) fn take_u32<'a>(b: &'a [u8]) -> (r: Result<(u32, &'a [u8]), Fault>)
    ensures
        match take_varint(b@, 4294967296) {
            Ok((n, rest)) => r matches Ok((v, t)) && v == n && t@ == rest,
            Err(e) => r == Err::<(u32, &[u8]), Fault>(e),
        },
{
    match postcard::take_from_bytes::<u32>(b) {
        Ok(pair) => Ok(pair),
        Err(postcard::Error::DeserializeUnexpectedEnd) => Err(Fault::UnexpectedEnd),
        Err(_) => Err(Fault::BadVarint),
    }
}

/// `postcard::take_from_bytes` for `u64` reads a number below 2^64 and hands back the
/// bytes behind it.
#[verifier::external_body]
pub(crate) fn take_u64<'a>(b: &'a [u8]) -> (r: Result<(u64, &'a [u8]), Fault>)
    ensures
        match take_varint(b@, 18446744073709551616) {
            Ok((n, rest)) => r matches Ok((v, t)) && v == n && t@ == rest,
            Err(e) => r == Err::<(u64, &[u8]), Fault>(e),
        },
{
    match postcard::take_from_bytes::<u64>(b) {
        Ok(pair) => Ok(pair),
        Err(postcard::Error::DeserializeUnexpectedEnd) => Err(Fault::UnexpectedEnd),
        Err(_) => Err(Fault::BadVarint),
    }
}

/// `postcard::take_from_bytes` for `String` reads a length and as many bytes of UTF-8,
/// and hands back the bytes behind them.
#[verifier::external_body]
pub(crate) fn take_text<'a>(b: &'a [u8]) -> (r: Result<(String, &'a [u8]), Fault>)
    ensures
        match take_text_of(b@) {
            Ok((s, rest)) => r matches Ok((v, t)) && v@ == s && t@ == rest,
            Err(e) => r == Err::<(String, &[u8]), Fault>(e),
        },
{
    match postcard::take_from_bytes::<String>(b) {
        Ok(pair) => Ok(pair),
        Err(postcard::Error::DeserializeUnexpectedEnd) => Err(Fault::UnexpectedEnd),
        Err(postcard::Error::DeserializeBadUtf8) => Err(Fault::BadUtf8),
        Err(_) => Err(Fault::BadVarint),
    }
}

/// `postcard::take_from_bytes` for `Vec<u8>` reads a length and as many bytes, and hands
/// back the bytes behind them.
#[verifier::external_body]
pub(crate) fn take_bytes<'a>(b: &'a [u8]) -> (r: Result<(Vec<u8>, &'a [u8]), Fault>)
    ensures
        match take_blob(b@) {
            Ok((s, rest)) => r matches Ok((v, t)) && v@ == s && t@ == rest,
            Err(e) => r == Err::<(Vec<u8>, &[u8]), Fault>(e),
        },
{
    match postcard::take_from_bytes::<Vec<u8>>(b) {
        Ok(pair) => Ok(pair),
        Err(postcard::Error::DeserializeUnexpectedEnd) => Err(Fault::UnexpectedEnd),
        Err(_) => Err(Fault::BadVarint),
    }
}

/// Reads one byte off the front.
pub open spec fn take_byte_of(b: Seq<u8>) -> Result<(u8, Seq<u8>), Fault> {
    if b.len() == 0 {
        Err(Fault::UnexpectedEnd)
    } else {
        Ok((b[0], b.skip(1)))
    }
}

/// Reads one byte off the front.
pub fn take_byte<'a>(b: &'a [u8]) -> (r: Result<(u8, &'a [u8]), Fault>)
    ensures
        match take_byte_of(b@) {
            Ok((v, rest)) => r matches Ok((w, t)) && w == v && t@ == rest,
            Err(e) => r == Err::<(u8, &[u8]), Fault>(e),
        },
{
    if b.len() == 0 {
        return Err(Fault::UnexpectedEnd);
    }
    Ok((b[0], slice_subrange(b, 1, b.len())))
}

/// A truth value is one byte, 0 or 1.
pub open spec fn bool_bytes(v: bool) -> Seq<u8> {
    seq![
        if v {
            1u8
        } else {
            0u8
        },
    ]
}

/// Reads a truth value off the front.
pub open spec fn take_bool_of(b: Seq<u8>) -> Result<(bool, Seq<u8>), Fault> {
    match take_byte_of(b) {
        Err(e) => Err(e),
        Ok((v, rest)) => if v == 0 {
            Ok((false, rest))
        } else if v == 1 {
            Ok((true, rest))
        } else {
            Err(Fault::BadBool)
        },
    }
}

/// Reads a truth value off the front.
pub fn take_bool<'a>(b: &'a [u8]) -> (r: Result<(bool, &'a [u8]), Fault>)
    ensures
        match take_bool_of(b@) {
            Ok((v, rest)) => r matches Ok((w, t)) && w == v && t@ == rest,
            Err(e) => r == Err::<(bool, &[u8]), Fault>(e),
        },
{
    let (v, rest) = take_byte(b)?;
    if v == 0 {
        Ok((false, rest))
    } else if v == 1 {
        Ok((true, rest))
    } else {
        Err(Fault::BadBool)
    }
}

/// Reads the tag in front of an optional value.
pub open spec fn take_tag_of(b: Seq<u8>) -> Result<(bool, Seq<u8>), Fault> {
    match take_bool_of(b) {
        Err(Fault::BadBool) => Err(Fault::BadOption),
        other => other,
    }
}

/// Reads the tag in front of an optional value.
pub fn take_tag<'a>(b: &'a [u8]) -> (r: Result<(bool, &'a [u8]), Fault>)
    ensures
        match take_tag_of(b@) {
            Ok((v, rest)) => r matches Ok((w, t)) && w == v && t@ == rest,
            Err(e) => r == Err::<(bool, &[u8]), Fault>(e),
        },
{
    match take_bool(b) {
        Err(Fault::BadBool) => Err(Fault::BadOption),
        other => other,
    }
}

/// An optional text: a tag, and the text if there is one.
pub open spec fn maybe_text_bytes(s: Option<Seq<char>>) -> Seq<u8> {
    match s {
        None => bool_bytes(false),
        Some(t) => bool_bytes(true) + text_bytes(t),
    }
}

/// Reads an optional text off the front.
pub open spec fn take_maybe_text_of(b: Seq<u8>) -> Result<(Option<Seq<char>>, Seq<u8>), Fault> {
    match take_tag_of(b) {
        Err(e) => Err(e),
        Ok((false, rest)) => Ok((None, rest)),
        Ok((true, rest)) => match take_text_of(rest) {
            Err(e) => Err(e),
            Ok((s, tail)) => Ok((Some(s), tail)),
        },
    }
}

/// The text in an option.
pub open spec fn maybe_view(s: Option<String>) -> Option<Seq<char>> {
    match s {
        None => None,
        Some(t) => Some(t@),
    }
}

/// Reads an optional text off the front.
pub fn take_maybe_text<'a>(b: &'a [u8]) -> (r: Result<(Option<String>, &'a [u8]), Fault>)
    ensures
        match take_maybe_text_of(b@) {
            Ok((v, rest)) => r matches Ok((w, t)) && maybe_view(w) == v && t@ == rest,
            Err(e) => r == Err::<(Option<String>, &[u8]), Fault>(e),
        },
{
    let (there, rest) = take_tag(b)?;
    if there {
        let (s, tail) = take_text(rest)?;
        Ok((Some(s), tail))
    } else {
        Ok((None, rest))
    }
}

/// Writes an optional text.
pub fn put_maybe_text(s: &Option<String>) -> (r: Vec<u8>)
    ensures
        r@ == maybe_text_bytes(maybe_view(*s)),
{
    let mut out: Vec<u8> = Vec::new();
    match s {
        None => {
            out.push(0);
            assert(out@ =~= bool_bytes(false));
        },
        Some(t) => {
            out.push(1);
            let mut body = put_text(t.as_str());
            out.append(&mut body);
            assert(out@ =~= bool_bytes(true) + text_bytes(t@));
        },
    }
    out
}

/// Reads `n` bytes off the front.
pub open spec fn take_block_of(b: Seq<u8>, n: int) -> Result<(Seq<u8>, Seq<u8>), Fault> {
    if b.len() < n {
        Err(Fault::UnexpectedEnd)
    } else {
        Ok((b.take(n), b.skip(n)))
    }
}

/// Reads 32 bytes off the front.
pub fn take_block32<'a>(b: &'a [u8]) -> (r: Result<([u8; 32], &'a [u8]), Fault>)
    ensures
        match take_block_of(b@, 32) {
            Ok((v, rest)) => r matches Ok((w, t)) && w@ == v && t@ == rest,
            Err(e) => r == Err::<([u8; 32], &[u8]), Fault>(e),
        },
{
    if b.len() < 32 {
        return Err(Fault::UnexpectedEnd);
    }
    Ok((block32(slice_subrange(b, 0, 32)), slice_subrange(b, 32, b.len())))
}

/// 32 bytes as an array.
pub fn block32(b: &[u8]) -> (r: [u8; 32])
    requires
        b@.len() == 32,
    ensures
        r@ == b@,
{
    let mut out = [0u8;32];
    let mut i: usize = 0;
    while i < 32
        invariant
            b@.len() == 32,
            i <= 32,
            forall|k: int| 0 <= k < i ==> out@[k] == b@[k],
        decreases 32 - i,
    {
        out[i] = b[i];
        i = i + 1;
    }
    assert(out@ =~= b@);
    out
}

/// A limit that seven-bit groups reach exactly.
pub open spec fn even_limit(limit: int) -> bool
    decreases limit,
{
    limit <= 128 || (limit % 128 == 0 && even_limit(limit / 128))
}

proof fn lemma_even_limits()
    ensures
        even_limit(65536),
        even_limit(4294967296),
        even_limit(18446744073709551616),
        even_limit(usize::MAX + 1),
{
    reveal_with_fuel(even_limit, 11);
    assert(usize::MAX + 1 == 4294967296 || usize::MAX + 1 == 18446744073709551616);
}

proof fn lemma_varint(n: nat, limit: int, rest: Seq<u8>)
    requires
        n < limit,
        even_limit(limit),
    ensures
        take_varint(varint_bytes(n) + rest, limit) == Ok::<(nat, Seq<u8>), Fault>((n, rest)),
    decreases n,
{
    let b = varint_bytes(n) + rest;
    if n < 128 {
        assert(b.skip(1) =~= rest);
    } else {
        assert(b.skip(1) =~= varint_bytes(n / 128) + rest);
        lemma_varint(n / 128, limit / 128, rest);
    }
}

/// A number that was written is read back, whatever follows it, at each width that it
/// fits.
pub proof fn law_numbers_are_read_back(n: nat, rest: Seq<u8>)
    ensures
        n < 65536 ==> take_varint(varint_bytes(n) + rest, 65536) == Ok::<(nat, Seq<u8>), Fault>(
            (n, rest),
        ),
        n < 4294967296 ==> take_varint(varint_bytes(n) + rest, 4294967296) == Ok::<
            (nat, Seq<u8>),
            Fault,
        >((n, rest)),
        n < 18446744073709551616 ==> take_varint(varint_bytes(n) + rest, 18446744073709551616)
            == Ok::<(nat, Seq<u8>), Fault>((n, rest)),
        n <= usize::MAX ==> take_varint(varint_bytes(n) + rest, usize::MAX + 1) == Ok::<
            (nat, Seq<u8>),
            Fault,
        >((n, rest)),
{
    lemma_even_limits();
    if n < 65536 {
        lemma_varint(n, 65536, rest);
    }
    if n < 4294967296 {
        lemma_varint(n, 4294967296, rest);
    }
    if n < 18446744073709551616 {
        lemma_varint(n, 18446744073709551616, rest);
    }
    if n <= usize::MAX {
        lemma_varint(n, usize::MAX + 1, rest);
    }
}

/// A byte string that was written is read back, whatever follows it.
pub proof fn law_blobs_are_read_back(b: Seq<u8>, rest: Seq<u8>)
    requires
        b.len() <= usize::MAX,
    ensures
        take_blob(blob_bytes(b) + rest) == Ok::<(Seq<u8>, Seq<u8>), Fault>((b, rest)),
{
    law_numbers_are_read_back(b.len(), b + rest);
    assert(blob_bytes(b) + rest =~= varint_bytes(b.len()) + (b + rest));
    assert((b + rest).take(b.len() as int) =~= b);
    assert((b + rest).skip(b.len() as int) =~= rest);
}

/// A text that was written is read back, whatever follows it.
pub proof fn law_texts_are_read_back(s: Seq<char>, rest: Seq<u8>)
    requires
        vstd::utf8::encode_utf8(s).len() <= usize::MAX,
    ensures
        take_text_of(text_bytes(s) + rest) == Ok::<(Seq<char>, Seq<u8>), Fault>((s, rest)),
{
    law_blobs_are_read_back(vstd::utf8::encode_utf8(s), rest);
    vstd::utf8::encode_utf8_valid_utf8(s);
    vstd::utf8::encode_utf8_decode_utf8(s);
}

/// An optional text that was written is read back, whatever follows it.
pub proof fn law_optional_texts_are_read_back(s: Option<Seq<char>>, rest: Seq<u8>)
    requires
        s matches Some(t) ==> vstd::utf8::encode_utf8(t).len() <= usize::MAX,
    ensures
        take_maybe_text_of(maybe_text_bytes(s) + rest) == Ok::<(Option<Seq<char>>, Seq<u8>), Fault>(
            (s, rest),
        ),
{
    let b = maybe_text_bytes(s) + rest;
    match s {
        None => {
            assert(b.skip(1) =~= rest);
        },
        Some(t) => {
            assert(b.skip(1) =~= text_bytes(t) + rest);
            law_texts_are_read_back(t, rest);
        },
    }
}

/// The number that some bytes make up, seven bits to a byte, the lowest first.
pub open spec fn base128(b: Seq<u8>) -> nat
    decreases b.len(),
{
    if b.len() == 0 {
        0
    } else {
        (b[0] % 128) as nat + 128 * base128(b.drop_first())
    }
}

/// A number is written in base 128, the lowest digit first, in as few bytes as there are
/// digits, and all but the last byte have their highest bit set.
pub proof fn law_numbers_are_in_base_128(n: nat)
    ensures
        base128(varint_bytes(n)) == n,
        varint_bytes(n).len() > 0,
        varint_bytes(n).last() < 128,
        varint_bytes(n).len() > 1 ==> varint_bytes(n).last() > 0,
        forall|i: int| 0 <= i < varint_bytes(n).len() - 1 ==> #[trigger] varint_bytes(n)[i] >= 128,
    decreases n,
{
    let b = varint_bytes(n);
    if n < 128 {
        assert(b.drop_first() =~= Seq::<u8>::empty());
        assert(base128(b.drop_first()) == 0);
    } else {
        let rest = varint_bytes(n / 128);
        law_numbers_are_in_base_128(n / 128);
        assert(b.drop_first() =~= rest);
        assert(b.last() == rest.last());
        assert forall|i: int| 0 <= i < b.len() - 1 implies #[trigger] b[i] >= 128 by {
            if i > 0 {
                assert(b[i] == rest[i - 1]);
            }
        }
    }
}

/// What a number that is read stands for: the bytes up to the first without its highest bit,
/// in base 128; what follows them is left. Bytes that end before that are too few.
pub proof fn law_numbers_end_with_the_first_low_byte(b: Seq<u8>, limit: int, n: nat, rest: Seq<u8>)
    ensures
        take_varint(b, limit) == Ok::<(nat, Seq<u8>), Fault>((n, rest)) ==> n < limit && exists|
            used: Seq<u8>,
        |
            #![trigger base128(used)]
            b == used + rest && used.len() > 0 && used.last() < 128 && base128(used) == n,
        (forall|i: int| 0 <= i < b.len() ==> #[trigger] b[i] >= 128) ==> take_varint(b, limit)
            is Err,
    decreases b.len(),
{
    if b.len() > 0 && take_varint(b, limit) is Ok {
        let (m, tail) = take_varint(b, limit)->Ok_0;
        if b[0] < 128 {
            let used = seq![b[0]];
            assert(b =~= used + tail);
            assert(used.drop_first() =~= Seq::<u8>::empty());
            assert(base128(used.drop_first()) == 0);
            assert(base128(used) == m);
        } else {
            let (q, t) = take_varint(b.skip(1), limit / 128)->Ok_0;
            law_numbers_end_with_the_first_low_byte(b.skip(1), limit / 128, q, t);
            let inner = choose|used: Seq<u8>|
                #![trigger base128(used)]
                b.skip(1) == used + t && used.len() > 0 && used.last() < 128 && base128(used) == q;
            let used = seq![b[0]] + inner;
            assert(used.drop_first() =~= inner);
            assert(tail == t);
            assert(b =~= seq![b[0]] + b.skip(1));
            assert(seq![b[0]] + (inner + t) =~= used + tail);
            assert(used.last() == inner.last());
            assert(base128(used) == m);
        }
    }
    if b.len() > 0 && (forall|i: int| 0 <= i < b.len() ==> #[trigger] b[i] >= 128) {
        assert forall|i: int| 0 <= i < b.skip(1).len() implies #[trigger] b.skip(1)[i] >= 128 by {
            assert(b.skip(1)[i] == b[i + 1]);
        }
        law_numbers_end_with_the_first_low_byte(b.skip(1), limit / 128, n, rest);
    }
}

/// A truth value, and the tag of an optional value, is a 0 or a 1; every other byte is refused,
/// and so is none.
pub proof fn law_truth_values_are_0_or_1(v: u8, rest: Seq<u8>)
    ensures
        take_bool_of(seq![v] + rest) == (if v == 0 {
            Ok::<(bool, Seq<u8>), Fault>((false, rest))
        } else if v == 1 {
            Ok((true, rest))
        } else {
            Err(Fault::BadBool)
        }),
        take_tag_of(seq![v] + rest) == (if v == 0 {
            Ok::<(bool, Seq<u8>), Fault>((false, rest))
        } else if v == 1 {
            Ok((true, rest))
        } else {
            Err(Fault::BadOption)
        }),
        take_byte_of(seq![v] + rest) == Ok::<(u8, Seq<u8>), Fault>((v, rest)),
        take_byte_of(Seq::empty()) == Err::<(u8, Seq<u8>), Fault>(Fault::UnexpectedEnd),
{
    assert((seq![v] + rest).skip(1) =~= rest);
}

/// A byte string, a text and a block that are cut short are refused, and so is a text that is
/// no UTF-8.
pub proof fn law_cut_strings_are_refused(n: nat, b: Seq<u8>)
    requires
        b.len() < n <= usize::MAX,
    ensures
        take_blob(varint_bytes(n) + b) == Err::<(Seq<u8>, Seq<u8>), Fault>(Fault::UnexpectedEnd),
        take_text_of(varint_bytes(n) + b) == Err::<(Seq<char>, Seq<u8>), Fault>(
            Fault::UnexpectedEnd,
        ),
        take_block_of(b, n as int) == Err::<(Seq<u8>, Seq<u8>), Fault>(Fault::UnexpectedEnd),
        !vstd::utf8::valid_utf8(b) ==> take_text_of(varint_bytes(b.len()) + b) == Err::<
            (Seq<char>, Seq<u8>),
            Fault,
        >(Fault::BadUtf8),
{
    law_numbers_are_read_back(n, b);
    law_blobs_are_read_back(b, Seq::empty());
    assert(blob_bytes(b) + Seq::<u8>::empty() =~= varint_bytes(b.len()) + b);
}

/// Every fault has its own message.
pub proof fn law_faults_have_their_message(f: Fault)
    ensures
        f is UnexpectedEnd ==> f.text() == "Hit the end of buffer, expected more data"@,
        f is BadVarint ==> f.text()
            == "Found a varint that didn't terminate. Is the usize too big for this platform?"@,
        f is BadBool ==> f.text() == "Found a bool that wasn't 0 or 1"@,
        f is BadUtf8 ==> f.text() == "Tried to parse invalid utf-8"@,
        f is BadOption ==> f.text() == "Found an Option discriminant that wasn't 0 or 1"@,
        f is BadVariant ==> f.text() == "Serde Deserialization Error"@,
{
}

proof fn lemma_large_varint(n: nat, limit: int, rest: Seq<u8>)
    requires
        n >= limit > 0,
        even_limit(limit),
    ensures
        take_varint(varint_bytes(n) + rest, limit) == Err::<(nat, Seq<u8>), Fault>(
            Fault::BadVarint,
        ),
    decreases n,
{
    let b = varint_bytes(n) + rest;
    if n >= 128 && limit > 128 {
        lemma_large_varint(n / 128, limit / 128, rest);
        assert(b.skip(1) =~= varint_bytes(n / 128) + rest);
    }
}

/// A number that is too large for where it is read is refused.
pub proof fn law_large_numbers_are_refused(n: nat, rest: Seq<u8>)
    ensures
        n >= 65536 ==> take_varint(varint_bytes(n) + rest, 65536) == Err::<(nat, Seq<u8>), Fault>(
            Fault::BadVarint,
        ),
        n >= 4294967296 ==> take_varint(varint_bytes(n) + rest, 4294967296) == Err::<
            (nat, Seq<u8>),
            Fault,
        >(Fault::BadVarint),
        n >= 18446744073709551616 ==> take_varint(varint_bytes(n) + rest, 18446744073709551616)
            == Err::<(nat, Seq<u8>), Fault>(Fault::BadVarint),
{
    lemma_even_limits();
    if n >= 65536 {
        lemma_large_varint(n, 65536, rest);
    }
    if n >= 4294967296 {
        lemma_large_varint(n, 4294967296, rest);
    }
    if n >= 18446744073709551616 {
        lemma_large_varint(n, 18446744073709551616, rest);
    }
}

/// A number that is cut short is refused.
pub proof fn law_cut_numbers_are_refused(n: nat, k: int, limit: int)
    requires
        0 <= k < varint_bytes(n).len(),
    ensures
        take_varint(varint_bytes(n).take(k), limit) is Err,
{
    let cut = varint_bytes(n).take(k);
    law_numbers_are_in_base_128(n);
    assert forall|i: int| 0 <= i < cut.len() implies #[trigger] cut[i] >= 128 by {
        assert(cut[i] == varint_bytes(n)[i]);
    }
    law_numbers_end_with_the_first_low_byte(cut, limit, 0, Seq::empty());
}

/// A byte string that is cut short is refused.
pub proof fn law_cut_blobs_are_refused(b: Seq<u8>, k: int)
    requires
        b.len() <= usize::MAX,
        0 <= k < blob_bytes(b).len(),
    ensures
        take_blob(blob_bytes(b).take(k)) is Err,
{
    let cut = blob_bytes(b).take(k);
    let start = varint_bytes(b.len());
    if k < start.len() {
        law_cut_numbers_are_refused(b.len(), k, usize::MAX + 1);
        assert(cut =~= start.take(k));
    } else {
        let rest = b.take(k - start.len());
        law_numbers_are_read_back(b.len(), rest);
        assert(cut =~= start + rest);
    }
}

/// A text that is cut short is refused.
pub proof fn law_cut_texts_are_refused(s: Seq<char>, k: int)
    requires
        vstd::utf8::encode_utf8(s).len() <= usize::MAX,
        0 <= k < text_bytes(s).len(),
    ensures
        take_text_of(text_bytes(s).take(k)) is Err,
{
    law_cut_blobs_are_refused(vstd::utf8::encode_utf8(s), k);
}

/// An optional text that is cut short is refused.
pub proof fn law_cut_optional_texts_are_refused(s: Option<Seq<char>>, k: int)
    requires
        s matches Some(t) ==> vstd::utf8::encode_utf8(t).len() <= usize::MAX,
        0 <= k < maybe_text_bytes(s).len(),
    ensures
        take_maybe_text_of(maybe_text_bytes(s).take(k)) is Err,
{
    let cut = maybe_text_bytes(s).take(k);
    match s {
        Some(t) if k > 0 => {
            law_cut_texts_are_refused(t, k - 1);
            assert(cut.skip(1) =~= text_bytes(t).take(k - 1));
        },
        _ => {},
    }
}

} // verus!
