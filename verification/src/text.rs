//! Text primitives shared by the rest of the library: equality and ordering
//! of strings, and the rendering of numbers as decimal and hexadecimal text.
//!
//! Strings are modelled by their sequence of characters (`Seq<char>`); where
//! bytes matter, by the UTF-8 encoding of that sequence as `vstd::utf8`
//! defines it.

use vstd::prelude::*;
use vstd::utf8::*;

verus! {

/// Trusted: `String::push` of the standard library. The contract claims what
/// its documentation says: the character is appended at the end and nothing
/// else changes.
pub assume_specification[ String::push ](s: &mut String, ch: char)
    ensures
        final(s)@ == old(s)@.push(ch),
;

/// Trusted: `char::len_utf8` of the standard library. The contract claims
/// that the result is the number of bytes of the character's UTF-8 encoding,
/// which its documentation promises.
pub assume_specification[ char::len_utf8 ](c: char) -> (n: usize)
    ensures
        n == encode_scalar(c as u32).len(),
;

/// The texts that a sequence of strings holds.
pub open spec fn texts(strings: Seq<String>) -> Seq<Seq<char>> {
    strings.map_values(|s: String| s@)
}

/// The encoding of a text is the encoding of a prefix followed by the encoding
/// of the rest.
pub proof fn lemma_encode_concat(a: Seq<char>, b: Seq<char>)
    ensures
        encode_utf8(a + b) == encode_utf8(a) + encode_utf8(b),
    decreases a.len(),
{
    if a.len() == 0 {
        assert(a + b == b);
        assert(encode_utf8(a) + encode_utf8(b) == encode_utf8(b));
    } else {
        lemma_encode_concat(a.drop_first(), b);
        assert((a + b).drop_first() == a.drop_first() + b);
        assert((a + b)[0] == a[0]);
        assert(encode_utf8(a + b) == encode_scalar(a[0] as u32) + (encode_utf8(a.drop_first())
            + encode_utf8(b)));
        assert(encode_utf8(a) + encode_utf8(b) == encode_scalar(a[0] as u32) + (encode_utf8(
            a.drop_first(),
        ) + encode_utf8(b)));
    }
}

/// Every character takes between one and four bytes.
pub proof fn lemma_scalar_width(c: char)
    ensures
        1 <= encode_scalar(c as u32).len() <= 4,
{
}

/// Taking one more character of a text adds that character's encoding to the
/// encoding of the prefix, and never reaches past the encoding of the whole.
pub proof fn lemma_encode_step(text: Seq<char>, i: int)
    requires
        0 <= i < text.len(),
    ensures
        encode_utf8(text.take(i + 1)) == encode_utf8(text.take(i)) + encode_scalar(
            text[i] as u32,
        ),
        encode_utf8(text.take(i + 1)).len() <= encode_utf8(text).len(),
        i + 1 <= encode_utf8(text.take(i + 1)).len(),
    decreases i,
{
    let head = text.take(i);
    let one = seq![text[i]];
    assert(text.take(i + 1) == head + one);
    lemma_encode_concat(head, one);
    assert(one.drop_first() == Seq::<char>::empty());
    assert(encode_utf8(one) == encode_scalar(text[i] as u32) + encode_utf8(one.drop_first()));
    assert(encode_utf8(one) == encode_scalar(text[i] as u32));
    let rest = text.skip(i + 1);
    assert(text == text.take(i + 1) + rest);
    lemma_encode_concat(text.take(i + 1), rest);
    lemma_scalar_width(text[i]);
    if i > 0 {
        lemma_encode_step(text, i - 1);
    } else {
        assert(head == Seq::<char>::empty());
    }
}

/// A text has at least as many bytes as characters.
pub proof fn lemma_encode_len(text: Seq<char>)
    ensures
        text.len() <= encode_utf8(text).len(),
{
    if text.len() > 0 {
        lemma_encode_step(text, text.len() - 1);
        assert(text.take(text.len() as int) == text);
    }
}

/// Two texts with the same encoding are the same text.
pub proof fn lemma_encode_injective(a: Seq<char>, b: Seq<char>)
    requires
        encode_utf8(a) == encode_utf8(b),
    ensures
        a == b,
{
    encode_utf8_decode_utf8(a);
    encode_utf8_decode_utf8(b);
}

/// Whether two strings hold the same characters.
pub fn str_eq(a: &str, b: &str) -> (same: bool)
    ensures
        same == (a@ == b@),
{
    let x = a.as_bytes();
    let y = b.as_bytes();
    if x.len() != y.len() {
        return false;
    }
    let mut i: usize = 0;
    while i < x.len()
        invariant
            i <= x.len(),
            x.len() == y.len(),
            x@ == encode_utf8(a@),
            y@ == encode_utf8(b@),
            forall|k: int| 0 <= k < i ==> x@[k] == y@[k],
        decreases x.len() - i,
    {
        if x[i] != y[i] {
            return false;
        }
        i += 1;
    }
    proof {
        assert(x@ =~= y@);
        lemma_encode_injective(a@, b@);
    }
    true
}

/// Strict lexicographic order on byte sequences: the first differing byte
/// decides, and a proper prefix comes before any of its extensions.
pub open spec fn bytes_lt(a: Seq<u8>, b: Seq<u8>) -> bool
    decreases a.len(),
{
    if b.len() == 0 {
        false
    } else if a.len() == 0 {
        true
    } else if a[0] != b[0] {
        a[0] < b[0]
    } else {
        bytes_lt(a.drop_first(), b.drop_first())
    }
}

/// The order in which texts are sorted: lexicographic by the bytes of their
/// UTF-8 encoding.
pub open spec fn text_lt(a: Seq<char>, b: Seq<char>) -> bool {
    bytes_lt(encode_utf8(a), encode_utf8(b))
}

/// The order on bytes carries over from the first to the third of three
/// sequences in a row.
pub proof fn lemma_bytes_lt_transitive(a: Seq<u8>, b: Seq<u8>, c: Seq<u8>)
    requires
        bytes_lt(a, b),
        bytes_lt(b, c),
    ensures
        bytes_lt(a, c),
    decreases a.len(),
{
    if a.len() > 0 && a[0] == b[0] && b[0] == c[0] {
        lemma_bytes_lt_transitive(a.drop_first(), b.drop_first(), c.drop_first());
    }
}

/// Of two different byte sequences one comes before the other.
pub proof fn lemma_bytes_lt_total(a: Seq<u8>, b: Seq<u8>)
    ensures
        a == b || bytes_lt(a, b) || bytes_lt(b, a),
    decreases a.len(),
{
    if a.len() > 0 && b.len() > 0 && a[0] == b[0] {
        lemma_bytes_lt_total(a.drop_first(), b.drop_first());
        if a.drop_first() == b.drop_first() {
            assert(a =~= seq![a[0]] + a.drop_first());
            assert(b =~= seq![b[0]] + b.drop_first());
        }
    } else if a.len() == 0 && b.len() == 0 {
        assert(a =~= b);
    }
}

/// No byte sequence comes before itself.
pub proof fn lemma_bytes_lt_irreflexive(a: Seq<u8>)
    ensures
        !bytes_lt(a, a),
    decreases a.len(),
{
    if a.len() > 0 {
        lemma_bytes_lt_irreflexive(a.drop_first());
    }
}

/// The order of texts is a strict total order: nothing comes before itself,
/// of two different texts one comes before the other, and the order carries
/// over.
pub proof fn lemma_text_order(a: Seq<char>, b: Seq<char>, c: Seq<char>)
    ensures
        !text_lt(a, a),
        a == b || text_lt(a, b) || text_lt(b, a),
        text_lt(a, b) && text_lt(b, c) ==> text_lt(a, c),
{
    lemma_bytes_lt_irreflexive(encode_utf8(a));
    lemma_bytes_lt_total(encode_utf8(a), encode_utf8(b));
    if encode_utf8(a) == encode_utf8(b) {
        lemma_encode_injective(a, b);
    }
    if text_lt(a, b) && text_lt(b, c) {
        lemma_bytes_lt_transitive(encode_utf8(a), encode_utf8(b), encode_utf8(c));
    }
}

/// `bytes_lt` is decided by what follows a common prefix.
proof fn lemma_bytes_lt_skip(a: Seq<u8>, b: Seq<u8>, n: int)
    requires
        0 <= n <= a.len(),
        n <= b.len(),
        forall|k: int| 0 <= k < n ==> a[k] == b[k],
    ensures
        bytes_lt(a, b) == bytes_lt(a.skip(n), b.skip(n)),
    decreases n,
{
    if n == 0 {
        assert(a.skip(0) == a);
        assert(b.skip(0) == b);
    } else {
        let a1 = a.drop_first();
        let b1 = b.drop_first();
        assert forall|k: int| 0 <= k < n - 1 implies a1[k] == b1[k] by {
            assert(a1[k] == a[k + 1]);
            assert(b1[k] == b[k + 1]);
        }
        lemma_bytes_lt_skip(a1, b1, n - 1);
        assert(a1.skip(n - 1) == a.skip(n));
        assert(b1.skip(n - 1) == b.skip(n));
        assert(a[0] == b[0]);
    }
}

/// Whether `a` sorts strictly before `b`.
pub fn str_lt(a: &str, b: &str) -> (before: bool)
    ensures
        before == text_lt(a@, b@),
{
    let x = a.as_bytes();
    let y = b.as_bytes();
    let mut i: usize = 0;
    while i < x.len() && i < y.len()
        invariant
            i <= x.len(),
            i <= y.len(),
            x@ == encode_utf8(a@),
            y@ == encode_utf8(b@),
            forall|k: int| 0 <= k < i ==> x@[k] == y@[k],
        decreases x.len() - i,
    {
        if x[i] != y[i] {
            proof {
                lemma_bytes_lt_skip(x@, y@, i as int);
                assert(x@.skip(i as int)[0] == x@[i as int]);
                assert(y@.skip(i as int)[0] == y@[i as int]);
            }
            return x[i] < y[i];
        }
        i += 1;
    }
    proof {
        lemma_bytes_lt_skip(x@, y@, i as int);
        assert(x@.skip(i as int).len() == x@.len() - i);
        assert(y@.skip(i as int).len() == y@.len() - i);
    }
    i < y.len()
}

/// The character that stands for a digit below sixteen, letters in upper
/// case.
pub open spec fn digit_char(d: nat) -> char {
    if d == 0 {
        '0'
    } else if d == 1 {
        '1'
    } else if d == 2 {
        '2'
    } else if d == 3 {
        '3'
    } else if d == 4 {
        '4'
    } else if d == 5 {
        '5'
    } else if d == 6 {
        '6'
    } else if d == 7 {
        '7'
    } else if d == 8 {
        '8'
    } else if d == 9 {
        '9'
    } else if d == 10 {
        'A'
    } else if d == 11 {
        'B'
    } else if d == 12 {
        'C'
    } else if d == 13 {
        'D'
    } else if d == 14 {
        'E'
    } else {
        'F'
    }
}

/// The decimal numeral of `n`, without leading zeros.
pub open spec fn decimal(n: nat) -> Seq<char>
    decreases n,
{
    if n < 10 {
        seq![digit_char(n)]
    } else {
        decimal(n / 10).push(digit_char(n % 10))
    }
}

/// The hexadecimal numeral of `n` in upper case, without leading zeros.
pub open spec fn hex(n: nat) -> Seq<char>
    decreases n,
{
    if n < 16 {
        seq![digit_char(n)]
    } else {
        hex(n / 16).push(digit_char(n % 16))
    }
}

/// `digits` with zeros in front until it is at least `width` long.
pub open spec fn zero_padded(digits: Seq<char>, width: nat) -> Seq<char> {
    if digits.len() >= width {
        digits
    } else {
        Seq::new((width - digits.len()) as nat, |i: int| '0') + digits
    }
}

/// A code point as it is written after `U+`: upper-case hexadecimal, at least
/// four digits.
pub open spec fn code_point_hex(code: u32) -> Seq<char> {
    zero_padded(hex(code as nat), 4)
}

fn digit_of(d: u64) -> (c: char)
    requires
        d < 16,
    ensures
        c == digit_char(d as nat),
{
    if d == 0 {
        '0'
    } else if d == 1 {
        '1'
    } else if d == 2 {
        '2'
    } else if d == 3 {
        '3'
    } else if d == 4 {
        '4'
    } else if d == 5 {
        '5'
    } else if d == 6 {
        '6'
    } else if d == 7 {
        '7'
    } else if d == 8 {
        '8'
    } else if d == 9 {
        '9'
    } else if d == 10 {
        'A'
    } else if d == 11 {
        'B'
    } else if d == 12 {
        'C'
    } else if d == 13 {
        'D'
    } else if d == 14 {
        'E'
    } else {
        'F'
    }
}

/// Appends the characters of `reversed` to `out`, last one first.
fn push_reversed(out: &mut String, reversed: &Vec<char>)
    ensures
        final(out)@ == old(out)@ + reversed@.reverse(),
{
    let mut k: usize = reversed.len();
    while k > 0
        invariant
            k <= reversed.len(),
            out@ == old(out)@ + reversed@.skip(k as int).reverse(),
        decreases k,
    {
        k -= 1;
        out.push(reversed[k]);
        proof {
            let tail = reversed@.skip(k as int + 1);
            let longer = reversed@.skip(k as int);
            assert(longer.reverse() =~= tail.reverse().push(reversed@[k as int]));
        }
    }
    assert(reversed@.skip(0) == reversed@);
}

/// Appends the decimal numeral of `n` to `out`.
pub fn push_decimal(out: &mut String, n: usize)
    ensures
        final(out)@ == old(out)@ + decimal(n as nat),
{
    let mut rest: u64 = n as u64;
    let mut reversed: Vec<char> = Vec::new();
    while rest >= 10
        invariant
            decimal(n as nat) == decimal(rest as nat) + reversed@.reverse(),
        decreases rest,
    {
        let ghost before = reversed@;
        reversed.push(digit_of(rest % 10));
        proof {
            assert(reversed@.reverse() =~= seq![digit_char((rest % 10) as nat)]
                + before.reverse());
            assert(decimal(rest as nat) == decimal((rest / 10) as nat).push(
                digit_char((rest % 10) as nat),
            ));
            assert(decimal((rest / 10) as nat).push(digit_char((rest % 10) as nat))
                + before.reverse() =~= decimal((rest / 10) as nat) + reversed@.reverse());
        }
        rest = rest / 10;
    }
    let ghost before = reversed@;
    reversed.push(digit_of(rest));
    proof {
        assert(reversed@.reverse() =~= seq![digit_char(rest as nat)] + before.reverse());
    }
    push_reversed(out, &reversed);
}

/// Appends `code` in upper-case hexadecimal, at least four digits, to `out`.
pub fn push_code_point_hex(out: &mut String, code: u32)
    ensures
        final(out)@ == old(out)@ + code_point_hex(code),
{
    let mut rest: u64 = code as u64;
    let mut reversed: Vec<char> = Vec::new();
    while rest >= 16
        invariant
            hex(code as nat) == hex(rest as nat) + reversed@.reverse(),
        decreases rest,
    {
        let ghost before = reversed@;
        reversed.push(digit_of(rest % 16));
        proof {
            assert(reversed@.reverse() =~= seq![digit_char((rest % 16) as nat)]
                + before.reverse());
            assert(hex(rest as nat) == hex((rest / 16) as nat).push(
                digit_char((rest % 16) as nat),
            ));
            assert(hex((rest / 16) as nat).push(digit_char((rest % 16) as nat))
                + before.reverse() =~= hex((rest / 16) as nat) + reversed@.reverse());
        }
        rest = rest / 16;
    }
    let ghost before = reversed@;
    reversed.push(digit_of(rest));
    proof {
        assert(reversed@.reverse() =~= seq![digit_char(rest as nat)] + before.reverse());
    }
    let ghost digits = reversed@;
    assert(digits.reverse() == hex(code as nat));
    while reversed.len() < 4
        invariant
            reversed@.len() >= digits.len(),
            digits.len() >= 4 ==> reversed@ == digits,
            digits.len() < 4 ==> reversed@.len() <= 4,
            reversed@.reverse() == Seq::new(
                (reversed@.len() - digits.len()) as nat,
                |i: int| '0',
            ) + digits.reverse(),
        decreases 4 - reversed.len(),
    {
        let ghost before = reversed@;
        reversed.push('0');
        proof {
            assert(reversed@.reverse() =~= seq!['0'] + before.reverse());
            assert(seq!['0'] + (Seq::new((before.len() - digits.len()) as nat, |i: int| '0')
                + digits.reverse()) =~= Seq::new(
                (reversed@.len() - digits.len()) as nat,
                |i: int| '0',
            ) + digits.reverse());
        }
    }
    proof {
        if digits.len() >= 4 {
            assert(reversed@ == digits);
        } else {
            assert(reversed@.len() == 4);
        }
        assert(reversed@.reverse() == code_point_hex(code));
    }
    push_reversed(out, &reversed);
}

} // verus!
