//! Character classes of the lexical grammar and small text utilities:
//! decimal and hexadecimal rendering of integers, and the few trusted
//! bridges between `String` and `Vec<char>`.

use vstd::prelude::*;

verus! {

// ---------------------------------------------------------------------------
// Character classes
// ---------------------------------------------------------------------------

/// An ASCII decimal digit.
pub open spec fn spec_is_digit(c: char) -> bool {
    48 <= (c as u32) && (c as u32) <= 57
}

/// A letter or underscore: what may start an identifier.
pub open spec fn spec_is_alpha(c: char) -> bool {
    ||| (97 <= (c as u32) && (c as u32) <= 122)
    ||| (65 <= (c as u32) && (c as u32) <= 90)
    ||| c == '_'
}

/// What may continue an identifier.
pub open spec fn spec_is_alnum(c: char) -> bool {
    spec_is_digit(c) || spec_is_alpha(c)
}

/// The Unicode White_Space set, as `char::is_whitespace` recognises it.
pub open spec fn spec_is_space(c: char) -> bool {
    ||| (9 <= (c as u32) && (c as u32) <= 13)
    ||| (c as u32) == 32
    ||| (c as u32) == 0x85
    ||| (c as u32) == 0xA0
    ||| (c as u32) == 0x1680
    ||| (0x2000 <= (c as u32) && (c as u32) <= 0x200A)
    ||| (c as u32) == 0x2028
    ||| (c as u32) == 0x2029
    ||| (c as u32) == 0x202F
    ||| (c as u32) == 0x205F
    ||| (c as u32) == 0x3000
}

pub fn is_digit(c: char) -> (r: bool)
    ensures
        r == spec_is_digit(c),
{
    let u = (c as u32);
    48 <= u && u <= 57
}

pub fn is_alpha(c: char) -> (r: bool)
    ensures
        r == spec_is_alpha(c),
{
    let u = (c as u32);
    (97 <= u && u <= 122) || (65 <= u && u <= 90) || c == '_'
}

pub fn is_alnum(c: char) -> (r: bool)
    ensures
        r == spec_is_alnum(c),
{
    is_digit(c) || is_alpha(c)
}

pub fn is_space(c: char) -> (r: bool)
    ensures
        r == spec_is_space(c),
{
    let u = (c as u32);
    (9 <= u && u <= 13) || u == 32 || u == 0x85 || u == 0xA0 || u == 0x1680 || (0x2000 <= u && u
        <= 0x200A) || u == 0x2028 || u == 0x2029 || u == 0x202F || u == 0x205F || u == 0x3000
}

/// How many bytes the character occupies in UTF-8; columns advance by bytes.
pub open spec fn spec_utf8_len(c: char) -> nat {
    if (c as u32) < 0x80 {
        1
    } else if (c as u32) < 0x800 {
        2
    } else if (c as u32) < 0x10000 {
        3
    } else {
        4
    }
}

pub fn utf8_len(c: char) -> (n: usize)
    ensures
        n == spec_utf8_len(c),
        1 <= n <= 4,
{
    let u = (c as u32);
    if u < 0x80 {
        1
    } else if u < 0x800 {
        2
    } else if u < 0x10000 {
        3
    } else {
        4
    }
}

/// The UTF-8 length of a sequence of characters.
pub open spec fn spec_byte_len(s: Seq<char>) -> nat
    decreases s.len(),
{
    if s.len() == 0 {
        0
    } else {
        spec_utf8_len(s[0]) + spec_byte_len(s.drop_first())
    }
}

pub proof fn lemma_byte_len_push(s: Seq<char>, c: char)
    ensures
        spec_byte_len(s.push(c)) == spec_byte_len(s) + spec_utf8_len(c),
    decreases s.len(),
{
    assert(s.push(c)[0] == if s.len() == 0 {
        c
    } else {
        s[0]
    });
    if s.len() == 0 {
        assert(s.push(c).drop_first() =~= Seq::<char>::empty());
        assert(spec_byte_len(s.push(c)) == spec_utf8_len(c) + spec_byte_len(
            s.push(c).drop_first(),
        ));
        assert(spec_byte_len(Seq::<char>::empty()) == 0);
    } else {
        assert(s.push(c).drop_first() =~= s.drop_first().push(c));
        lemma_byte_len_push(s.drop_first(), c);
        assert(spec_byte_len(s.push(c)) == spec_utf8_len(s[0]) + spec_byte_len(
            s.push(c).drop_first(),
        ));
        assert(spec_byte_len(s) == spec_utf8_len(s[0]) + spec_byte_len(s.drop_first()));
    }
}

// ---------------------------------------------------------------------------
// Decimal and hexadecimal rendering
// ---------------------------------------------------------------------------

/// The digit character for a value below ten.
pub open spec fn spec_digit_char(d: nat) -> char
    recommends
        d < 10,
{
    ((48 + d) as u8) as char
}

/// The decimal numeral of `n`, most significant digit first.
pub open spec fn spec_dec(n: nat) -> Seq<char>
    decreases n,
{
    if n < 10 {
        seq![spec_digit_char(n)]
    } else {
        spec_dec(n / 10).push(spec_digit_char(n % 10))
    }
}

/// The lowercase hexadecimal digit character for a value below sixteen.
pub open spec fn spec_hex_char(d: nat) -> char
    recommends
        d < 16,
{
    if d < 10 {
        ((48 + d) as u8) as char
    } else {
        ((87 + d) as u8) as char
    }
}

/// The lowercase hexadecimal numeral of `n`, most significant digit first.
pub open spec fn spec_hex(n: nat) -> Seq<char>
    decreases n,
{
    if n < 16 {
        seq![spec_hex_char(n)]
    } else {
        spec_hex(n / 16).push(spec_hex_char(n % 16))
    }
}

fn digit_char(d: u64) -> (c: char)
    requires
        d < 10,
    ensures
        c == spec_digit_char(d as nat),
{
    ((48 + d) as u8) as char
}

fn hex_char(d: u64) -> (c: char)
    requires
        d < 16,
    ensures
        c == spec_hex_char(d as nat),
{
    if d < 10 {
        ((48 + d) as u8) as char
    } else {
        ((87 + d) as u8) as char
    }
}

/// The decimal numeral of `n` as characters.
pub fn dec_chars(n: u64) -> (r: Vec<char>)
    ensures
        r@ == spec_dec(n as nat),
    decreases n,
{
    if n < 10 {
        let mut r: Vec<char> = Vec::new();
        r.push(digit_char(n));
        proof {
            assert(r@ =~= spec_dec(n as nat));
        }
        r
    } else {
        let mut r = dec_chars(n / 10);
        r.push(digit_char(n % 10));
        r
    }
}

/// The lowercase hexadecimal numeral of `n` as characters.
pub fn hex_chars(n: u64) -> (r: Vec<char>)
    ensures
        r@ == spec_hex(n as nat),
    decreases n,
{
    if n < 16 {
        let mut r: Vec<char> = Vec::new();
        r.push(hex_char(n));
        proof {
            assert(r@ =~= spec_hex(n as nat));
        }
        r
    } else {
        let mut r = hex_chars(n / 16);
        r.push(hex_char(n % 16));
        r
    }
}

/// The decimal numeral of `n`, left-padded with zeros to at least four digits.
pub open spec fn spec_dec4(n: nat) -> Seq<char> {
    let d = spec_dec(n);
    if d.len() >= 4 {
        d
    } else {
        Seq::new((4 - d.len()) as nat, |i: int| '0') + d
    }
}

/// Appends the zero-padded four-digit decimal numeral of `n` to `out`.
pub fn append_dec4(out: &mut Vec<char>, n: u64)
    ensures
        final(out)@ == old(out)@ + spec_dec4(n as nat),
{
    let d = dec_chars(n);
    let mut pad: Vec<char> = Vec::new();
    while pad.len() + d.len() < 4
        invariant
            d@ == spec_dec(n as nat),
            pad@ =~= Seq::new(pad.len() as nat, |i: int| '0'),
            d.len() < 4 ==> pad.len() + d.len() <= 4,
            d.len() >= 4 ==> pad.len() == 0,
        decreases 4 - pad.len() - d.len(),
    {
        pad.push('0');
        proof {
            assert(pad@ =~= Seq::new(pad.len() as nat, |i: int| '0'));
        }
    }
    append_chars(out, pad.as_slice());
    append_chars(out, d.as_slice());
    proof {
        if spec_dec(n as nat).len() >= 4 {
            assert(pad@ =~= Seq::<char>::empty());
            assert(out@ =~= old(out)@ + spec_dec4(n as nat));
        } else {
            assert(pad@ =~= Seq::new((4 - spec_dec(n as nat).len()) as nat, |i: int| '0'));
            assert(out@ =~= old(out)@ + spec_dec4(n as nat));
        }
    }
}

/// Every character of a decimal numeral is a digit.
pub proof fn lemma_dec_digits(n: nat)
    ensures
        forall|i: int| 0 <= i < spec_dec(n).len() ==> spec_is_digit(#[trigger] spec_dec(n)[i]),
        spec_dec(n).len() >= 1,
    decreases n,
{
    if n >= 10 {
        lemma_dec_digits(n / 10);
    }
}

/// Reading a decimal numeral back: the value of a digit string.
pub open spec fn spec_dec_value(s: Seq<char>) -> nat
    decreases s.len(),
{
    if s.len() == 0 {
        0
    } else {
        spec_dec_value(s.drop_last()) * 10 + (if spec_is_digit(s.last()) {
            (s.last() as u32 - 48) as nat
        } else {
            0
        })
    }
}

/// Rendering then reading a decimal numeral gives the number back.
pub proof fn lemma_dec_round_trip(n: nat)
    ensures
        spec_dec_value(spec_dec(n)) == n,
    decreases n,
{
    if n < 10 {
        assert(spec_dec(n).drop_last() =~= Seq::<char>::empty());
        assert(spec_dec(n).last() == spec_digit_char(n));
        assert((spec_digit_char(n) as u32) == 48 + n);
        assert(spec_dec_value(Seq::<char>::empty()) == 0);
        assert(spec_dec_value(spec_dec(n)) == spec_dec_value(spec_dec(n).drop_last()) * 10 + n);
    } else {
        lemma_dec_round_trip(n / 10);
        assert(spec_dec(n).drop_last() =~= spec_dec(n / 10));
        assert(spec_dec(n).last() == spec_digit_char(n % 10));
        assert((spec_digit_char(n % 10) as u32) == 48 + n % 10);
        assert(spec_dec_value(spec_dec(n)) == spec_dec_value(spec_dec(n / 10)) * 10 + n % 10);
        assert(spec_dec_value(spec_dec(n / 10)) * 10 + n % 10 == (n / 10) * 10 + n % 10);
        assert((n / 10) * 10 + n % 10 == n) by (nonlinear_arith);
    }
}

// ---------------------------------------------------------------------------
// Building text
// ---------------------------------------------------------------------------

/// Appends every character of `src` to `out`.
pub fn append_chars(out: &mut Vec<char>, src: &[char])
    ensures
        final(out)@ == old(out)@ + src@,
{
    let mut i: usize = 0;
    while i < src.len()
        invariant
            i <= src.len(),
            out@ =~= old(out)@ + src@.take(i as int),
        decreases src.len() - i,
    {
        out.push(src[i]);
        i = i + 1;
        proof {
            assert(out@ =~= old(out)@ + src@.take(i as int));
        }
    }
    proof {
        assert(src@.take(src@.len() as int) =~= src@);
    }
}

/// Appends every character of the string slice `src` to `out`.
pub fn append_str(out: &mut Vec<char>, src: &str)
    ensures
        final(out)@ == old(out)@ + src@,
{
    let v = chars_vec(src);
    append_chars(out, v.as_slice());
}

/// `spec_byte_len` distributes over concatenation.
pub proof fn lemma_byte_len_concat(a: Seq<char>, b: Seq<char>)
    ensures
        spec_byte_len(a + b) == spec_byte_len(a) + spec_byte_len(b),
    decreases a.len(),
{
    if a.len() == 0 {
        assert(a + b =~= b);
    } else {
        assert((a + b).drop_first() =~= a.drop_first() + b);
        assert((a + b)[0] == a[0]);
        lemma_byte_len_concat(a.drop_first(), b);
        assert(spec_byte_len(a) == spec_utf8_len(a[0]) + spec_byte_len(a.drop_first()));
        assert(spec_byte_len(a + b) == spec_utf8_len(a[0]) + spec_byte_len((a + b).drop_first()));
    }
}

/// A prefix never has more bytes than the whole.
pub proof fn lemma_byte_len_take(s: Seq<char>, i: int)
    requires
        0 <= i <= s.len(),
    ensures
        spec_byte_len(s.take(i)) <= spec_byte_len(s),
{
    assert(s =~= s.take(i) + s.skip(i));
    lemma_byte_len_concat(s.take(i), s.skip(i));
}

/// The characters of `v` from `start` up to `end`.
pub fn subvec(v: &Vec<char>, start: usize, end: usize) -> (r: Vec<char>)
    requires
        start <= end <= v.len(),
    ensures
        r@ == v@.subrange(start as int, end as int),
{
    let mut r: Vec<char> = Vec::new();
    let mut i: usize = start;
    while i < end
        invariant
            start <= i <= end <= v.len(),
            r@ =~= v@.subrange(start as int, i as int),
        decreases end - i,
    {
        r.push(v[i]);
        i = i + 1;
        proof {
            assert(r@ =~= v@.subrange(start as int, i as int));
        }
    }
    r
}

/// The UTF-8 length of the characters in `v`.
pub fn byte_len_of(v: &[char]) -> (n: usize)
    requires
        spec_byte_len(v@) <= usize::MAX,
    ensures
        n == spec_byte_len(v@),
{
    let mut n: usize = 0;
    let mut i: usize = 0;
    while i < v.len()
        invariant
            i <= v.len(),
            n == spec_byte_len(v@.take(i as int)),
            spec_byte_len(v@) <= usize::MAX,
        decreases v.len() - i,
    {
        proof {
            assert(v@.take(i as int).push(v@[i as int]) =~= v@.take(i + 1));
            lemma_byte_len_push(v@.take(i as int), v@[i as int]);
            lemma_byte_len_take(v@, i + 1);
        }
        n = n + utf8_len(v[i]);
        i = i + 1;
    }
    proof {
        assert(v@.take(v@.len() as int) =~= v@);
    }
    n
}

/// Relies on `core::iter::Iterator::collect` for `String`: the collected
/// string holds exactly the characters of the slice, in order.
#[verifier::external_body]
pub fn string_from_chars(v: &[char]) -> (s: String)
    ensures
        s@ == v@,
{
    v.iter().collect()
}

/// A sequence has at least as many UTF-8 bytes as characters.
pub proof fn lemma_byte_len_lower(s: Seq<char>)
    ensures
        spec_byte_len(s) >= s.len(),
    decreases s.len(),
{
    if s.len() > 0 {
        lemma_byte_len_lower(s.drop_first());
    }
}

/// Relies on `str::chars`: it yields the characters of the slice in order.
/// The byte bound holds because a slice occupies at most `isize::MAX` bytes
/// and `spec_byte_len` is the slice's UTF-8 byte count.
#[verifier::external_body]
pub fn chars_vec(s: &str) -> (v: Vec<char>)
    ensures
        v@ == s@,
        spec_byte_len(v@) <= usize::MAX / 2,
{
    s.chars().collect()
}

/// Relies on `str`'s `==` (`PartialEq::eq`): string slices are equal exactly
/// when their character sequences are.
#[verifier::external_body]
pub fn str_eq(a: &str, b: &str) -> (r: bool)
    ensures
        r == (a@ == b@),
{
    a == b
}

} // verus!
