//! Character-level string helpers: splitting a string into its characters,
//! rebuilding a string from characters, and printing integers in decimal.

use vstd::prelude::*;
use vstd::std_specs::iter::IteratorSpec;

verus! {

broadcast use vstd::string::next_postcondition, vstd::string::axiom_spec_iter;

/// The characters of `s`, in order.
pub fn chars_of(s: &str) -> (r: Vec<char>)
    ensures
        r@ == s@,
{
    let mut it = s.chars();
    let mut out: Vec<char> = Vec::new();
    loop
        invariant
            it.decrease() is Some,
            out@ + it.remaining() =~= s@,
        decreases it.decrease()->0,
    {
        let c_opt = it.next();
        match c_opt {
            Some(c) => {
                out.push(c);
                proof {
                    assert(out@ + it.remaining() =~= s@);
                }
            },
            None => {
                proof {
                    assert(out@ =~= s@);
                }
                return out;
            },
        }
    }
}

/// Relies on `String`'s `FromIterator` over characters: the result is exactly
/// those characters, in order.
#[verifier::external_body]
pub fn chars_to_string(v: Vec<char>) -> (r: String)
    ensures
        r@ == v@,
{
    String::from_iter(v)
}

/// The character for a single decimal digit.
pub open spec fn digit_char(d: nat) -> char {
    if d == 0 {
        '0'
    } else if d == 1 {
        '1'
    } else if d == 2 {
        '2'
    } else if d == 3 {
        '3'
    } else if d == 4 {
        '4'
    } else if d == 5 {
        '5'
    } else if d == 6 {
        '6'
    } else if d == 7 {
        '7'
    } else if d == 8 {
        '8'
    } else {
        '9'
    }
}

/// The decimal digits of `n`, most significant first.
pub open spec fn dec_digits(n: nat) -> Seq<char>
    decreases n,
{
    if n < 10 {
        seq![digit_char(n)]
    } else {
        dec_digits(n / 10).push(digit_char(n % 10))
    }
}

/// The decimal form of the integer `i`, with a leading `-` when negative.
pub open spec fn int_str(i: int) -> Seq<char> {
    if i < 0 {
        seq!['-'] + dec_digits((-i) as nat)
    } else {
        dec_digits(i as nat)
    }
}

fn digit_char_exec(d: u64) -> (c: char)
    requires
        d < 10,
    ensures
        c == digit_char(d as nat),
{
    if d == 0 {
        '0'
    } else if d == 1 {
        '1'
    } else if d == 2 {
        '2'
    } else if d == 3 {
        '3'
    } else if d == 4 {
        '4'
    } else if d == 5 {
        '5'
    } else if d == 6 {
        '6'
    } else if d == 7 {
        '7'
    } else if d == 8 {
        '8'
    } else {
        '9'
    }
}

fn push_digits(n: u64, out: &mut Vec<char>)
    ensures
        final(out)@ == old(out)@ + dec_digits(n as nat),
    decreases n,
{
    if n < 10 {
        let c = digit_char_exec(n);
        out.push(c);
        proof {
            assert(out@ =~= old(out)@ + dec_digits(n as nat));
        }
    } else {
        push_digits(n / 10, out);
        let c = digit_char_exec(n % 10);
        out.push(c);
        proof {
            assert(out@ =~= old(out)@ + dec_digits(n as nat));
        }
    }
}

/// Appends the decimal form of `n` to `out`.
pub fn push_u64_digits(n: u64, out: &mut Vec<char>)
    ensures
        final(out)@ == old(out)@ + dec_digits(n as nat),
{
    push_digits(n, out);
}

/// Appends the decimal form of `i`, sign included, to `out`.
pub fn push_i64_digits(i: i64, out: &mut Vec<char>)
    ensures
        final(out)@ == old(out)@ + int_str(i as int),
{
    if i < 0 {
        out.push('-');
        let mag: u64 = ((-(i + 1)) as u64) + 1;
        proof {
            assert(mag as int == -(i as int));
        }
        push_digits(mag, out);
        proof {
            assert(out@ =~= old(out)@ + int_str(i as int));
        }
    } else {
        push_digits(i as u64, out);
    }
}

/// Lexicographic order on character sequences, by code point.
pub open spec fn str_lt(a: Seq<char>, b: Seq<char>) -> bool
    decreases a.len(),
{
    if b.len() == 0 {
        false
    } else if a.len() == 0 {
        true
    } else if a[0] == b[0] {
        str_lt(a.drop_first(), b.drop_first())
    } else {
        (a[0] as u32) < (b[0] as u32)
    }
}

/// Compares two strings lexicographically by code point.
pub fn str_lt_exec(a: &str, b: &str) -> (r: bool)
    ensures
        r == str_lt(a@, b@),
{
    let av = chars_of(a);
    let bv = chars_of(b);
    proof {
        assert(a@.skip(0) =~= a@);
        assert(b@.skip(0) =~= b@);
    }
    let mut i: usize = 0;
    loop
        invariant
            av@ == a@,
            bv@ == b@,
            0 <= i <= av@.len(),
            0 <= i <= bv@.len(),
            str_lt(a@, b@) == str_lt(a@.skip(i as int), b@.skip(i as int)),
        decreases av@.len() - i,
    {
        if i >= bv.len() {
            return false;
        }
        if i >= av.len() {
            return true;
        }
        let ca = av[i];
        let cb = bv[i];
        if ca == cb {
            proof {
                assert(a@.skip(i as int).drop_first() =~= a@.skip(i + 1));
                assert(b@.skip(i as int).drop_first() =~= b@.skip(i + 1));
            }
            i = i + 1;
        } else {
            return (ca as u32) < (cb as u32);
        }
    }
}

/// Relies on `char::from_u32`: `Some` exactly for Unicode scalar values,
/// yielding the character with that code point.
#[verifier::external_body]
pub fn char_from_u32(u: u32) -> (r: Option<char>)
    ensures
        r is Some <==> (u < 0xD800 || (0xE000 <= u && u <= 0x10FFFF)),
        r is Some ==> r->0 as u32 == u,
{
    char::from_u32(u)
}

/// The number of bytes the UTF-8 encoding of one character takes.
pub open spec fn char_utf8_len(c: char) -> nat {
    if (c as u32) < 0x80 {
        1
    } else if (c as u32) < 0x800 {
        2
    } else if (c as u32) < 0x10000 {
        3
    } else {
        4
    }
}

/// The number of bytes the UTF-8 encoding of a string of characters takes.
pub open spec fn utf8_len(s: Seq<char>) -> nat
    decreases s.len(),
{
    if s.len() == 0 {
        0
    } else {
        utf8_len(s.drop_last()) + char_utf8_len(s.last())
    }
}

pub proof fn lemma_utf8_len_take_step(s: Seq<char>, j: int)
    requires
        0 <= j < s.len(),
    ensures
        utf8_len(s.take(j + 1)) == utf8_len(s.take(j)) + char_utf8_len(s[j]),
{
    assert(s.take(j + 1).drop_last() =~= s.take(j));
    assert(s.take(j + 1).last() == s[j]);
}

pub proof fn lemma_utf8_len_take_mono(s: Seq<char>, j: int, l: int)
    requires
        0 <= j <= l <= s.len(),
    ensures
        utf8_len(s.take(j)) <= utf8_len(s.take(l)),
    decreases l - j,
{
    if j < l {
        lemma_utf8_len_take_step(s, l - 1);
        lemma_utf8_len_take_mono(s, j, l - 1);
    }
}

/// The UTF-8 byte length of one character.
pub fn char_len_utf8(c: char) -> (n: usize)
    ensures
        n as nat == char_utf8_len(c),
{
    let u = c as u32;
    if u < 0x80 {
        1
    } else if u < 0x800 {
        2
    } else if u < 0x10000 {
        3
    } else {
        4
    }
}

/// Relies on `str::len`: the length of a string slice in bytes, which, the
/// slice being UTF-8, is the sum of its characters' UTF-8 lengths.
#[verifier::external_body]
pub fn byte_len(s: &str) -> (n: usize)
    ensures
        n as nat == utf8_len(s@),
{
    s.len()
}

/// The byte offset of the character at index `k` of `s`, clamped to the end
/// of the string.
#[verifier::loop_isolation(false)]
pub fn byte_offset(s: &str, k: usize) -> (r: usize)
    ensures
        r as nat == utf8_len(s@.take(if k <= s@.len() { k as int } else { s@.len() as int })),
        r as nat <= utf8_len(s@),
{
    let cs = chars_of(s);
    let total = byte_len(s);
    let upto = if k <= cs.len() { k } else { cs.len() };
    let mut acc: usize = 0;
    let mut j: usize = 0;
    proof {
        assert(s@.take(0) =~= Seq::<char>::empty());
    }
    while j < upto
        invariant
            0 <= j <= upto <= cs@.len(),
            cs@ == s@,
            total as nat == utf8_len(s@),
            acc as nat == utf8_len(s@.take(j as int)),
            acc <= total,
        decreases upto - j,
    {
        proof {
            lemma_utf8_len_take_step(s@, j as int);
            lemma_utf8_len_take_mono(s@, j + 1, s@.len() as int);
            assert(s@.take(s@.len() as int) =~= s@);
        }
        let step = char_len_utf8(cs[j]);
        acc = acc + step;
        j = j + 1;
    }
    proof {
        lemma_utf8_len_take_mono(s@, upto as int, s@.len() as int);
        assert(s@.take(s@.len() as int) =~= s@);
    }
    acc
}

/// The decimal form of `n` as a string.
pub fn usize_to_string(n: usize) -> (r: String)
    ensures
        r@ == dec_digits(n as nat),
{
    let mut out: Vec<char> = Vec::new();
    push_digits(n as u64, &mut out);
    chars_to_string(out)
}

} // verus!
