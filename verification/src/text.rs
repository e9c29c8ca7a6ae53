//! Text as the library reads and writes it: characters, decimal numbers, trimming and
//! the order of strings.

use vstd::prelude::*;

verus! {

/// `String::push` appends one character.
pub assume_specification[ String::push ](s: &mut String, c: char)
    ensures
        final(s)@ == old(s)@.push(c),
;

/// Whether `char::is_alphanumeric` holds of `c`.
pub uninterp spec fn unicode_alphanumeric(c: char) -> bool;

/// Whether `char::is_whitespace` holds of `c`.
pub uninterp spec fn unicode_whitespace(c: char) -> bool;

/// An ASCII letter or digit.
pub open spec fn ascii_alphanumeric(c: char) -> bool {
    ('a' <= c && c <= 'z') || ('A' <= c && c <= 'Z') || ('0' <= c && c <= '9')
}

/// `char::is_alphanumeric` depends on the character alone; of the ASCII characters it
/// holds of the letters and the digits.
pub assume_specification[ char::is_alphanumeric ](c: char) -> (r: bool)
    ensures
        r == unicode_alphanumeric(c),
        (c as u32) < 128 ==> r == ascii_alphanumeric(c),
;

/// `char::is_whitespace` depends on the character alone; of the ASCII characters it
/// holds of the space and of the five control characters from tab to carriage return.
pub assume_specification[ char::is_whitespace ](c: char) -> (r: bool)
    ensures
        r == unicode_whitespace(c),
        (c as u32) < 128 ==> r == (c == ' ' || (9 <= c as u32 && c as u32 <= 13)),
;

/// The characters of a string.
pub fn chars_of(s: &str) -> (r: Vec<char>)
    ensures
        r@ == s@,
{
    let mut out: Vec<char> = Vec::new();
    for c in iter: s.chars()
        invariant
            iter.seq() == s@,
            out@ == s@.take(iter.index() as int),
    {
        out.push(c);
    }
    proof {
        assert(s@.take(s@.len() as int) =~= s@);
    }
    out
}

/// The string of some characters.
pub fn text_of(chars: &[char]) -> (r: String)
    ensures
        r@ == chars@,
{
    let mut out = String::new();
    let mut i: usize = 0;
    while i < chars.len()
        invariant
            i <= chars@.len(),
            out@ == chars@.take(i as int),
        decreases chars.len() - i,
    {
        out.push(chars[i]);
        i = i + 1;
        proof {
            assert(chars@.take(i as int) =~= chars@.take(i - 1).push(chars@[i - 1]));
        }
    }
    proof {
        assert(chars@.take(i as int) =~= chars@);
    }
    out
}

/// Whether two strings are equal.
pub fn same_text(a: &str, b: &str) -> (r: bool)
    ensures
        r == (a@ == b@),
{
    a.to_owned() == b.to_owned()
}

/// Two texts, one behind the other.
pub fn joined(a: &str, b: &str) -> (r: String)
    ensures
        r@ == a@ + b@,
{
    let mut out = a.to_owned();
    out.append(b);
    out
}

/// The decimal digit for `n`.
pub open spec fn digit(n: int) -> char {
    (48 + n) as char
}

/// A number in decimal, without leading zeros.
pub open spec fn decimal(n: nat) -> Seq<char>
    decreases n,
{
    if n < 10 {
        seq![digit(n as int)]
    } else {
        decimal(n / 10).push(digit((n % 10) as int))
    }
}

/// Appends a number in decimal.
pub fn push_decimal(out: &mut String, n: u64)
    ensures
        final(out)@ == old(out)@ + decimal(n as nat),
    decreases n,
{
    if n >= 10 {
        push_decimal(out, n / 10);
    }
    let d: u8 = (n % 10) as u8;
    out.push((48 + d) as char);
    proof {
        if n >= 10 {
            assert(out@ =~= old(out)@ + decimal((n / 10) as nat).push(digit((n % 10) as int)));
        } else {
            assert(out@ =~= old(out)@ + seq![digit(n as int)]);
        }
    }
}

/// `n` zeros.
pub open spec fn zeros(n: int) -> Seq<char>
    decreases n,
{
    if n <= 0 {
        Seq::empty()
    } else {
        zeros(n - 1).push('0')
    }
}

/// A number in decimal, filled up with zeros on the left to at least `width` digits.
pub open spec fn zero_padded(n: nat, width: int) -> Seq<char> {
    zeros(width - decimal(n).len()) + decimal(n)
}

/// Appends a number with zeros on its left.
pub fn push_zero_padded(out: &mut String, n: u64, width: usize)
    ensures
        final(out)@ == old(out)@ + zero_padded(n as nat, width as int),
{
    let mut number = String::new();
    push_decimal(&mut number, n);
    let digits: usize = number.unicode_len();
    proof {
        assert(Seq::<char>::empty() + decimal(n as nat) =~= decimal(n as nat));
        assert(out@ + zeros(0) =~= out@);
    }
    let mut k: usize = 0;
    while digits < width && k < width - digits
        invariant
            digits == decimal(n as nat).len(),
            digits < width ==> k <= width - digits,
            digits >= width ==> k == 0,
            out@ == old(out)@ + zeros(k as int),
        decreases width - k,
    {
        out.push('0');
        k = k + 1;
        proof {
            assert(out@ =~= old(out)@ + zeros(k - 1).push('0'));
        }
    }
    proof {
        if digits >= width {
            assert(zeros(width - digits) =~= zeros(0));
        }
        assert(out@ + decimal(n as nat) =~= old(out)@ + zero_padded(n as nat, width as int));
    }
    out.append(&number);
}

/// A decimal digit.
pub open spec fn is_digit(c: char) -> bool {
    '0' <= c && c <= '9'
}

/// Whether `s` is digits only.
pub open spec fn all_digits(s: Seq<char>) -> bool {
    forall|i: int| 0 <= i < s.len() ==> is_digit(#[trigger] s[i])
}

/// The value of a run of digits.
pub open spec fn digits_value(s: Seq<char>) -> nat
    decreases s.len(),
{
    if s.len() == 0 {
        0
    } else {
        digits_value(s.drop_last()) * 10 + (s.last() as u32 - 48) as nat
    }
}

/// The unsigned number written in `s`, up to `max`: digits, of which there is at least
/// one, after an optional plus sign.
pub open spec fn parsed_unsigned(s: Seq<char>, max: nat) -> Option<nat> {
    let digits = if s.len() > 0 && s[0] == '+' {
        s.drop_first()
    } else {
        s
    };
    if digits.len() > 0 && all_digits(digits) && digits_value(digits) <= max {
        Some(digits_value(digits))
    } else {
        None
    }
}

proof fn lemma_digits_value_grows(s: Seq<char>, i: int)
    requires
        0 <= i <= s.len(),
        all_digits(s),
    ensures
        digits_value(s.take(i)) <= digits_value(s),
    decreases s.len() - i,
{
    if i < s.len() {
        let next = s.take(i + 1);
        assert(next.drop_last() =~= s.take(i));
        assert(is_digit(s[i]));
        lemma_digits_value_grows(s, i + 1);
    } else {
        assert(s.take(i) =~= s);
    }
}

/// Reads an unsigned number that is at most `max`.
pub fn parse_unsigned(s: &str, max: u64) -> (r: Option<u64>)
    ensures
        match parsed_unsigned(s@, max as nat) {
            Some(n) => r == Some(n as u64) && n <= max,
            None => r is None,
        },
{
    let chars = chars_of(s);
    let start: usize = if chars.len() > 0 && chars[0] == '+' {
        1
    } else {
        0
    };
    let ghost digits = s@.skip(start as int);
    proof {
        if start == 1 {
            assert(digits =~= s@.drop_first());
        } else {
            assert(digits =~= s@);
        }
    }
    if start == chars.len() {
        return None;
    }
    let mut value: u64 = 0;
    let mut i: usize = start;
    proof {
        assert(digits.take(0) =~= Seq::<char>::empty());
    }
    while i < chars.len()
        invariant
            chars@ == s@,
            start <= i <= chars@.len(),
            start <= 1,
            digits == s@.skip(start as int),
            digits.len() > 0,
            digits == (if s@.len() > 0 && s@[0] == '+' {
                s@.drop_first()
            } else {
                s@
            }),
            value <= max,
            value == digits_value(digits.take(i - start)),
            all_digits(digits.take(i - start)),
        decreases chars.len() - i,
    {
        let c = chars[i];
        let ghost k = i - start;
        proof {
            assert(digits[k] == c);
        }
        if c < '0' || c > '9' {
            return None;
        }
        let d: u64 = c as u64 - 48;
        proof {
            let next = digits.take(k + 1);
            assert(next.drop_last() =~= digits.take(k));
            assert forall|j: int| 0 <= j < next.len() implies is_digit(#[trigger] next[j]) by {
                if j < k {
                    assert(digits.take(k)[j] == next[j]);
                }
            }
            assert(digits_value(next) == digits_value(digits.take(k)) * 10 + d);
            if all_digits(digits) {
                lemma_digits_value_grows(digits, k + 1);
            }
        }
        if value > max / 10 || d > max - value * 10 {
            return None;
        }
        value = value * 10 + d;
        i = i + 1;
    }
    proof {
        assert(digits.take(i - start) =~= digits);
    }
    Some(value)
}

/// `s` without white space at its start.
pub open spec fn trim_start(s: Seq<char>) -> Seq<char>
    decreases s.len(),
{
    if s.len() > 0 && unicode_whitespace(s[0]) {
        trim_start(s.drop_first())
    } else {
        s
    }
}

/// `s` without white space at its end.
pub open spec fn trim_end(s: Seq<char>) -> Seq<char>
    decreases s.len(),
{
    if s.len() > 0 && unicode_whitespace(s.last()) {
        trim_end(s.drop_last())
    } else {
        s
    }
}

/// `s` without white space around it.
pub open spec fn trimmed(s: Seq<char>) -> Seq<char> {
    trim_end(trim_start(s))
}

/// The characters of `s` without white space around them.
pub fn trimmed_chars(s: &str) -> (r: Vec<char>)
    ensures
        r@ == trimmed(s@),
{
    let chars = chars_of(s);
    let mut from: usize = 0;
    proof {
        assert(s@.skip(0) =~= s@);
    }
    while from < chars.len() && chars[from].is_whitespace()
        invariant
            chars@ == s@,
            from <= chars@.len(),
            trim_start(s@.skip(from as int)) == trim_start(s@),
        decreases chars.len() - from,
    {
        proof {
            assert(s@.skip(from as int).drop_first() =~= s@.skip(from + 1));
        }
        from = from + 1;
    }
    let ghost start = s@.skip(from as int);
    assert(trim_start(s@) == start);
    let mut to: usize = chars.len();
    proof {
        assert(s@.subrange(from as int, to as int) =~= start);
    }
    while to > from && chars[to - 1].is_whitespace()
        invariant
            chars@ == s@,
            from <= to <= chars@.len(),
            trim_end(s@.subrange(from as int, to as int)) == trim_end(start),
        decreases to,
    {
        proof {
            assert(s@.subrange(from as int, to as int).drop_last() =~= s@.subrange(
                from as int,
                to - 1,
            ));
        }
        to = to - 1;
    }
    vstd::slice::slice_to_vec(vstd::slice::slice_subrange(chars.as_slice(), from, to))
}

/// Whether `a` comes before `b` in the order of strings, which goes by the first
/// character that differs.
pub open spec fn text_less(a: Seq<char>, b: Seq<char>) -> bool
    decreases a.len(),
{
    if b.len() == 0 {
        false
    } else if a.len() == 0 {
        true
    } else if a[0] != b[0] {
        a[0] < b[0]
    } else {
        text_less(a.drop_first(), b.drop_first())
    }
}

/// Whether `a` comes before `b`.
pub fn less(a: &str, b: &str) -> (r: bool)
    ensures
        r == text_less(a@, b@),
{
    let x = chars_of(a);
    let y = chars_of(b);
    let mut i: usize = 0;
    proof {
        assert(a@.skip(0) =~= a@);
        assert(b@.skip(0) =~= b@);
    }
    while i < x.len() && i < y.len()
        invariant
            x@ == a@,
            y@ == b@,
            i <= x@.len(),
            i <= y@.len(),
            text_less(a@.skip(i as int), b@.skip(i as int)) == text_less(a@, b@),
        decreases x.len() - i,
    {
        if x[i] != y[i] {
            return x[i] < y[i];
        }
        proof {
            assert(a@.skip(i as int).drop_first() =~= a@.skip(i + 1));
            assert(b@.skip(i as int).drop_first() =~= b@.skip(i + 1));
        }
        i = i + 1;
    }
    i < y.len()
}

/// No string comes before itself.
pub proof fn lemma_less_irreflexive(a: Seq<char>)
    ensures
        !text_less(a, a),
    decreases a.len(),
{
    if a.len() > 0 {
        lemma_less_irreflexive(a.drop_first());
    }
}

/// Of two different strings one comes before the other.
pub proof fn lemma_less_total(a: Seq<char>, b: Seq<char>)
    ensures
        a == b || text_less(a, b) || text_less(b, a),
    decreases a.len(),
{
    if a.len() > 0 && b.len() > 0 {
        lemma_less_total(a.drop_first(), b.drop_first());
        if a[0] == b[0] && a.drop_first() == b.drop_first() {
            assert(a =~= seq![a[0]] + a.drop_first());
            assert(b =~= seq![b[0]] + b.drop_first());
        }
    } else if a.len() == 0 && b.len() == 0 {
        assert(a =~= b);
    }
}

/// The order of strings is transitive.
pub proof fn lemma_less_transitive(a: Seq<char>, b: Seq<char>, c: Seq<char>)
    requires
        text_less(a, b),
        text_less(b, c),
    ensures
        text_less(a, c),
    decreases a.len(),
{
    if a.len() > 0 && b.len() > 0 && c.len() > 0 && a[0] == b[0] && b[0] == c[0] {
        lemma_less_transitive(a.drop_first(), b.drop_first(), c.drop_first());
    }
}

/// The number that some decimal digits make up.
pub open spec fn base10(s: Seq<char>) -> int
    decreases s.len(),
{
    if s.len() == 0 {
        0
    } else {
        10 * base10(s.drop_last()) + (s.last() as int - '0' as int)
    }
}

/// A number in decimal is digits that make up the number, and none but 0 begins with a 0.
pub proof fn law_decimals_make_up_their_number(n: nat)
    ensures
        base10(decimal(n)) == n,
        decimal(n).len() > 0,
        forall|i: int| 0 <= i < decimal(n).len() ==> '0' <= #[trigger] decimal(n)[i] && decimal(
            n,
        )[i] <= '9',
        decimal(n)[0] == '0' <==> n == 0,
        n == 0 ==> decimal(n).len() == 1,
    decreases n,
{
    let s = decimal(n);
    if n < 10 {
        assert(s.drop_last() =~= Seq::<char>::empty());
        assert(base10(s.drop_last()) == 0);
    } else {
        law_decimals_make_up_their_number(n / 10);
        assert(s.drop_last() =~= decimal(n / 10));
        assert(s[0] == decimal(n / 10)[0]);
        assert forall|i: int| 0 <= i < s.len() implies '0' <= #[trigger] s[i] && s[i] <= '9' by {
            if i < s.len() - 1 {
                assert(s[i] == decimal(n / 10)[i]);
            }
        }
    }
}

proof fn lemma_base10(s: Seq<char>)
    requires
        forall|i: int| 0 <= i < s.len() ==> '0' <= #[trigger] s[i] && s[i] <= '9',
    ensures
        all_digits(s),
        digits_value(s) == base10(s),
    decreases s.len(),
{
    assert forall|i: int| 0 <= i < s.len() implies is_digit(#[trigger] s[i]) by {}
    if s.len() > 0 {
        let rest = s.drop_last();
        assert forall|i: int| 0 <= i < rest.len() implies '0' <= #[trigger] rest[i] && rest[i]
            <= '9' by {
            assert(rest[i] == s[i]);
        }
        lemma_base10(rest);
        assert('0' <= s[s.len() - 1] && s[s.len() - 1] <= '9');
    }
}

/// What stands behind a plus sign, or all where there is none.
pub open spec fn without_plus(s: Seq<char>) -> Seq<char> {
    if s.len() > 0 && s[0] == '+' {
        s.skip(1)
    } else {
        s
    }
}

/// Whether every character is one of `0` to `9`.
pub open spec fn digits_only(s: Seq<char>) -> bool {
    forall|i: int| 0 <= i < s.len() ==> '0' <= #[trigger] s[i] && s[i] <= '9'
}

/// Digits are read as the number that they make up, with or without a plus sign before them,
/// where it is not more than the most allowed; so every number that was written is read back.
/// What holds anything but digits, or none, is no number.
pub proof fn law_digits_are_read_as_their_number(s: Seq<char>, n: nat, max: nat)
    ensures
        n <= max ==> parsed_unsigned(decimal(n), max) == Some(n),
        n > max ==> parsed_unsigned(decimal(n), max) is None,
        parsed_unsigned(s, max) is Some <==> without_plus(s).len() > 0 && digits_only(
            without_plus(s),
        ) && base10(without_plus(s)) <= max,
        parsed_unsigned(s, max) matches Some(m) ==> m == base10(without_plus(s)),
{
    law_decimals_make_up_their_number(n);
    lemma_base10(decimal(n));
    assert(decimal(n)[0] != '+');
    if s.len() > 0 {
        assert(s.drop_first() =~= s.skip(1));
    }
    let digits = without_plus(s);
    if all_digits(digits) {
        assert forall|i: int| 0 <= i < digits.len() implies '0' <= #[trigger] digits[i] && digits[i]
            <= '9' by {
            assert(is_digit(digits[i]));
        }
    }
    if digits_only(digits) {
        lemma_base10(digits);
    }
}

proof fn lemma_zeros(n: int)
    ensures
        zeros(n).len() == (if n > 0 {
            n
        } else {
            0
        }),
        forall|i: int| 0 <= i < zeros(n).len() ==> #[trigger] zeros(n)[i] == '0',
    decreases n,
{
    if n > 0 {
        lemma_zeros(n - 1);
    }
}

/// A padded number is the number with zeros before it, as long as asked for, or longer only
/// where the number itself is.
pub proof fn law_padding_is_zeros_before_the_number(n: nat, width: int)
    ensures
        ({
            let s = zero_padded(n, width);
            let d = decimal(n).len();
            &&& s.len() == (if width > d {
                width
            } else {
                d as int
            })
            &&& s.skip(s.len() - d) == decimal(n)
            &&& forall|i: int| 0 <= i < s.len() - d ==> #[trigger] s[i] == '0'
        }),
{
    let s = zero_padded(n, width);
    let d = decimal(n).len();
    lemma_zeros(width - d);
    assert(s.skip(s.len() - d) =~= decimal(n));
}

proof fn lemma_trim_start(a: Seq<char>, s: Seq<char>)
    requires
        forall|i: int| 0 <= i < a.len() ==> unicode_whitespace(#[trigger] a[i]),
        s.len() == 0 || !unicode_whitespace(s[0]),
    ensures
        trim_start(a + s) == s,
    decreases a.len(),
{
    if a.len() == 0 {
        assert(a + s =~= s);
    } else {
        assert((a + s)[0] == a[0]);
        assert((a + s).drop_first() =~= a.drop_first() + s);
        assert forall|i: int| 0 <= i < a.drop_first().len() implies unicode_whitespace(
            #[trigger] a.drop_first()[i],
        ) by {
            assert(a.drop_first()[i] == a[i + 1]);
        }
        lemma_trim_start(a.drop_first(), s);
    }
}

proof fn lemma_trim_end(s: Seq<char>, b: Seq<char>)
    requires
        forall|i: int| 0 <= i < b.len() ==> unicode_whitespace(#[trigger] b[i]),
        s.len() == 0 || !unicode_whitespace(s.last()),
    ensures
        trim_end(s + b) == s,
    decreases b.len(),
{
    if b.len() == 0 {
        assert(s + b =~= s);
    } else {
        assert((s + b).last() == b[b.len() - 1]);
        assert((s + b).drop_last() =~= s + b.drop_last());
        assert forall|i: int| 0 <= i < b.drop_last().len() implies unicode_whitespace(
            #[trigger] b.drop_last()[i],
        ) by {
            assert(b.drop_last()[i] == b[i]);
        }
        lemma_trim_end(s, b.drop_last());
    }
}

/// White space around a text, all of it and nothing else, is what trimming takes away: white
/// space inside stays, and of white space alone nothing is left.
pub proof fn law_trimming_takes_white_space_around(a: Seq<char>, s: Seq<char>, b: Seq<char>)
    requires
        forall|i: int| 0 <= i < a.len() ==> unicode_whitespace(#[trigger] a[i]),
        forall|i: int| 0 <= i < b.len() ==> unicode_whitespace(#[trigger] b[i]),
        s.len() > 0 ==> !unicode_whitespace(s[0]) && !unicode_whitespace(s.last()),
    ensures
        trimmed(a + s + b) == s,
{
    if s.len() > 0 {
        assert((s + b)[0] == s[0]);
        assert(a + s + b =~= a + (s + b));
        lemma_trim_start(a, s + b);
        lemma_trim_end(s, b);
    } else {
        let all = a + s + b;
        assert forall|i: int| 0 <= i < all.len() implies unicode_whitespace(#[trigger] all[i]) by {
            if i < a.len() {
                assert(all[i] == a[i]);
            } else {
                assert(all[i] == b[i - a.len()]);
            }
        }
        lemma_trim_start(all, Seq::empty());
        assert(all + Seq::<char>::empty() =~= all);
        assert(trim_end(Seq::<char>::empty()) =~= Seq::<char>::empty());
        assert(s =~= Seq::<char>::empty());
    }
}

/// Texts are ordered by the first character that differs, and a text comes before those that
/// go on where it ends.
pub proof fn law_texts_are_ordered_by_the_first_difference(
    p: Seq<char>,
    c: char,
    d: char,
    a: Seq<char>,
    b: Seq<char>,
)
    ensures
        c < d ==> text_less(p + seq![c] + a, p + seq![d] + b) && !text_less(
            p + seq![d] + b,
            p + seq![c] + a,
        ),
        text_less(p, p + seq![c] + a),
        !text_less(p + seq![c] + a, p),
        !text_less(p, p),
    decreases p.len(),
{
    let x = p + seq![c] + a;
    let y = p + seq![d] + b;
    if p.len() == 0 {
        assert(x[0] == c && y[0] == d);
    } else {
        let q = p.drop_first();
        law_texts_are_ordered_by_the_first_difference(q, c, d, a, b);
        assert(x.drop_first() =~= q + seq![c] + a);
        assert(y.drop_first() =~= q + seq![d] + b);
        assert(x[0] == p[0] && y[0] == p[0]);
    }
}

/// The letters and digits of ASCII are those between these codes.
pub proof fn law_letters_and_digits_of_ascii(c: char)
    ensures
        ascii_alphanumeric(c) <==> 48 <= c as u32 <= 57 || 65 <= c as u32 <= 90 || 97 <= c as u32
            <= 122,
{
}

} // verus!
