//! The compact DNA text codec for quantized gene values.
//!
//! A chromosome's genes are quantized to `u32` values; each value is rendered
//! in base 52 with the alphabet `a`-`z` (digits 0 to 25) and `A`-`Z` (digits
//! 26 to 51), most significant digit first, and the tokens are joined with
//! `-`. Decoding splits on `-` and accumulates each token left to right,
//! failing on any character outside the alphabet; the accumulator wraps at
//! 2^32 as the fixed-width arithmetic does.
//!
//! The contracts speak of the text's UTF-8 bytes: the alphabet and the
//! separator are ASCII, so each character of a well-formed DNA string is one
//! byte.

use vstd::prelude::*;
use vstd::arithmetic::div_mod::lemma_add_mod_noop;
use vstd::arithmetic::div_mod::lemma_fundamental_div_mod;
use vstd::arithmetic::div_mod::lemma_mul_mod_noop_left;
use vstd::arithmetic::div_mod::lemma_small_mod;
use vstd::utf8::encode_utf8;

use crate::error::Error;

verus! {

/// The byte of the `-` separator between tokens.
pub const DASH: u8 = 45;

/// One past the largest quantized value: the accumulator wraps here.
pub const WRAP: u64 = 0x1_0000_0000;

/// Whether `b` is a base-52 digit: a lower- or upper-case ASCII letter.
pub open spec fn is_dna_byte(b: u8) -> bool {
    (97 <= b && b <= 122) || (65 <= b && b <= 90)
}

/// The digit a letter stands for: `a`-`z` are 0 to 25, `A`-`Z` are 26 to 51.
pub open spec fn digit_val(b: u8) -> nat {
    if 97 <= b && b <= 122 {
        (b - 97) as nat
    } else {
        (26 + b - 65) as nat
    }
}

/// The letter standing for digit `d`, for `d < 52`.
pub open spec fn digit_byte(d: nat) -> u8 {
    if d < 26 {
        (97 + d) as u8
    } else {
        (65 + (d - 26)) as u8
    }
}

/// The base-52 rendering of `x`, most significant digit first, with no
/// leading zero digits (zero itself is the single digit `a`).
pub open spec fn token_bytes(x: nat) -> Seq<u8>
    decreases x,
{
    if x < 52 {
        seq![digit_byte(x)]
    } else {
        token_bytes(x / 52) + seq![digit_byte(x % 52)]
    }
}

/// The value of a token: each digit scales the accumulated value by 52.
pub open spec fn token_val(s: Seq<u8>) -> nat
    decreases s.len(),
{
    if s.len() == 0 {
        0
    } else {
        token_val(s.drop_last()) * 52 + digit_val(s.last())
    }
}

/// The DNA text of a value sequence: tokens joined with `-`.
pub open spec fn dna_bytes(vs: Seq<u32>) -> Seq<u8>
    decreases vs.len(),
{
    if vs.len() == 0 {
        Seq::empty()
    } else if vs.len() == 1 {
        token_bytes(vs[0] as nat)
    } else {
        dna_bytes(vs.drop_last()) + seq![DASH] + token_bytes(vs.last() as nat)
    }
}

/// One decoding step of the accumulator: scale by 52, add the digit, wrap at
/// 2^32.
pub open spec fn mul_add_digit(cur: u32, d: nat) -> u32 {
    ((cur * 52 + d) % (WRAP as int)) as u32
}

/// The decoder's state after reading `s` from position `i` with the values
/// read so far in `acc` and the token being read in `cur`; `None` on the
/// first byte outside the alphabet and the separator.
pub open spec fn parse_step(s: Seq<u8>, i: int, acc: Seq<u32>, cur: u32) -> Option<Seq<u32>>
    decreases s.len() - i,
{
    if i < 0 || i > s.len() {
        None
    } else if i == s.len() {
        Some(acc.push(cur))
    } else if s[i] == DASH {
        parse_step(s, i + 1, acc.push(cur), 0)
    } else if is_dna_byte(s[i]) {
        parse_step(s, i + 1, acc, mul_add_digit(cur, digit_val(s[i])))
    } else {
        None
    }
}

/// What a DNA byte string decodes to, or `None` where a byte is neither a
/// base-52 digit nor the separator. An empty token decodes to zero, as a
/// fixed-width accumulator over no digits does; the empty string is the
/// single empty token.
pub open spec fn parse_dna(s: Seq<u8>) -> Option<Seq<u32>> {
    parse_step(s, 0, Seq::empty(), 0)
}

/// A token is never empty and is made of the alphabet only.
pub proof fn lemma_token_bytes_wf(x: nat)
    ensures
        token_bytes(x).len() >= 1,
        forall|i: int| 0 <= i < token_bytes(x).len() ==> is_dna_byte(#[trigger] token_bytes(x)[i]),
    decreases x,
{
    if x < 52 {
    } else {
        lemma_token_bytes_wf(x / 52);
    }
}

/// Rendering then reading a value is the identity.
pub proof fn lemma_token_round_trip(x: nat)
    ensures
        token_val(token_bytes(x)) == x,
    decreases x,
{
    if x < 52 {
        assert(token_bytes(x) =~= seq![digit_byte(x)]);
        assert(token_bytes(x).drop_last() =~= Seq::<u8>::empty());
        assert(token_val(Seq::<u8>::empty()) == 0);
        assert(token_bytes(x).last() == digit_byte(x));
        assert(digit_val(digit_byte(x)) == x);
        assert(token_val(token_bytes(x)) == token_val(token_bytes(x).drop_last()) * 52 + digit_val(token_bytes(x).last()));
        assert(token_val(token_bytes(x)) == x);
    } else {
        lemma_token_round_trip(x / 52);
        let t = token_bytes(x / 52) + seq![digit_byte(x % 52)];
        assert(t.drop_last() =~= token_bytes(x / 52));
        assert(t.last() == digit_byte(x % 52));
        assert(digit_val(digit_byte(x % 52)) == x % 52);
        lemma_fundamental_div_mod(x as int, 52);
    }
}

/// A DNA text is made of the alphabet and the separator only.
pub proof fn lemma_dna_bytes_wf(vs: Seq<u32>)
    ensures
        forall|i: int|
            0 <= i < dna_bytes(vs).len() ==> is_dna_byte(#[trigger] dna_bytes(vs)[i])
                || dna_bytes(vs)[i] == DASH,
    decreases vs.len(),
{
    if vs.len() == 0 {
    } else if vs.len() == 1 {
        lemma_token_bytes_wf(vs[0] as nat);
    } else {
        lemma_dna_bytes_wf(vs.drop_last());
        lemma_token_bytes_wf(vs.last() as nat);
        let whole = dna_bytes(vs);
        let front = dna_bytes(vs.drop_last());
        let tail = token_bytes(vs.last() as nat);
        assert(whole =~= front + seq![DASH] + tail);
        assert forall|i: int| 0 <= i < whole.len() implies is_dna_byte(#[trigger] whole[i])
            || whole[i] == DASH by {
            if i < front.len() {
                assert(whole[i] == front[i]);
            } else if i > front.len() {
                assert(whole[i] == tail[i - front.len() - 1]);
            }
        }
    }
}

/// Reading one rendered token moves the decoder just past it, with the
/// token's value accumulated.
proof fn lemma_parse_token(s: Seq<u8>, i: int, acc: Seq<u32>, x: u32)
    requires
        0 <= i,
        i + token_bytes(x as nat).len() <= s.len(),
        s.subrange(i, i + token_bytes(x as nat).len() as int) == token_bytes(x as nat),
    ensures
        parse_step(s, i, acc, 0) == parse_step(s, i + token_bytes(x as nat).len(), acc, x),
    decreases x,
{
    let t = token_bytes(x as nat);
    if x < 52 {
        assert(s[i] == t[0]);
        assert(digit_val(digit_byte(x as nat)) == x);
        lemma_small_mod(x as nat, WRAP as nat);
        assert(mul_add_digit(0, digit_val(s[i])) == x);
    } else {
        let t1 = token_bytes((x / 52) as nat);
        let k1 = t1.len() as int;
        assert(t =~= t1 + seq![digit_byte((x % 52) as nat)]);
        assert(s.subrange(i, i + k1) =~= t1);
        lemma_parse_token(s, i, acc, x / 52);
        assert(s[i + k1] == t[k1]);
        assert(t[k1] == digit_byte((x % 52) as nat));
        assert(digit_val(digit_byte((x % 52) as nat)) == x % 52);
        lemma_fundamental_div_mod(x as int, 52);
        lemma_small_mod(x as nat, WRAP as nat);
        assert(mul_add_digit(x / 52, digit_val(s[i + k1])) == x);
    }
}

/// Reading a rendered value sequence moves the decoder to its end, with the
/// last token still in the accumulator.
proof fn lemma_parse_prefix(s: Seq<u8>, vs: Seq<u32>)
    requires
        vs.len() >= 1,
        dna_bytes(vs).len() <= s.len(),
        s.subrange(0, dna_bytes(vs).len() as int) == dna_bytes(vs),
    ensures
        parse_step(s, 0, Seq::empty(), 0) == parse_step(
            s,
            dna_bytes(vs).len() as int,
            vs.drop_last(),
            vs.last(),
        ),
    decreases vs.len(),
{
    if vs.len() == 1 {
        lemma_parse_token(s, 0, Seq::empty(), vs[0]);
        assert(vs.drop_last() =~= Seq::<u32>::empty());
    } else {
        let prior = vs.drop_last();
        let whole = dna_bytes(vs);
        let front = dna_bytes(prior);
        let tail = token_bytes(vs.last() as nat);
        let l1 = front.len() as int;
        let l = whole.len() as int;
        assert(whole =~= front + seq![DASH] + tail);
        assert(s.subrange(0, l1) =~= front);
        lemma_parse_prefix(s, prior);
        assert(s[l1] == whole[l1]);
        assert(whole[l1] == DASH);
        assert(prior.drop_last().push(prior.last()) =~= prior);
        assert forall|j: int| 0 <= j < tail.len() implies s[l1 + 1 + j] == #[trigger] tail[j] by {
            assert(s[l1 + 1 + j] == s.subrange(0, l)[l1 + 1 + j]);
            assert(whole[l1 + 1 + j] == tail[j]);
        }
        assert(s.subrange(l1 + 1, l1 + 1 + tail.len()) =~= tail);
        lemma_parse_token(s, l1 + 1, prior, vs.last());
        assert(l1 + 1 + tail.len() == l);
    }
}

/// Round trip: rendering a value sequence as DNA text and decoding it gives
/// the sequence back, for any sequence of at least one value.
pub proof fn lemma_dna_round_trip(vs: Seq<u32>)
    requires
        vs.len() >= 1,
    ensures
        parse_dna(dna_bytes(vs)) == Some(vs),
{
    let s = dna_bytes(vs);
    assert(s.subrange(0, s.len() as int) =~= s);
    lemma_parse_prefix(s, vs);
    assert(vs.drop_last().push(vs.last()) =~= vs);
}

/// Relies on `String::from_utf8`: a vector of ASCII bytes is valid UTF-8,
/// and the returned string is the one whose UTF-8 encoding is exactly the
/// given bytes, one character per byte.
#[verifier::external_body]
fn ascii_to_string(bytes: Vec<u8>) -> (r: String)
    requires
        forall|i: int| 0 <= i < bytes@.len() ==> bytes@[i] < 128,
    ensures
        encode_utf8(r@) == bytes@,
        r@.len() == bytes@.len(),
        forall|i: int| 0 <= i < bytes@.len() ==> r@[i] == bytes@[i] as char,
{
    String::from_utf8(bytes).unwrap_or_default()
}

/// The letter for digit `d`, executably.
fn digit_of(d: u32) -> (r: u8)
    requires
        d < 52,
    ensures
        r == digit_byte(d as nat),
{
    if d < 26 {
        97 + d as u8
    } else {
        65 + (d as u8 - 26)
    }
}

/// Appends the base-52 rendering of `x` to `out`.
fn push_token(out: &mut Vec<u8>, x: u32)
    ensures
        final(out)@ == old(out)@ + token_bytes(x as nat),
{
    let mut digits: Vec<u8> = Vec::new();
    let mut y: u32 = x;
    digits.push(digit_of(y % 52));
    proof {
        assert(digits@.reverse() =~= digits@);
    }
    y = y / 52;
    while y > 0
        invariant
            digits@.len() >= 1,
            y > 0 ==> token_bytes(x as nat) == token_bytes(y as nat) + digits@.reverse(),
            y == 0 ==> token_bytes(x as nat) == digits@.reverse(),
        decreases y,
    {
        let b = digit_of(y % 52);
        proof {
            assert(digits@.push(b).reverse() =~= seq![b] + digits@.reverse());
            if y >= 52 {
                assert(token_bytes(y as nat) + digits@.reverse() =~= token_bytes(
                    (y / 52) as nat,
                ) + (seq![b] + digits@.reverse()));
            } else {
                assert(token_bytes(y as nat) + digits@.reverse() =~= seq![b] + digits@.reverse());
            }
        }
        digits.push(b);
        y = y / 52;
    }
    let n = digits.len();
    let mut k: usize = 0;
    while k < n
        invariant
            n == digits@.len(),
            k <= n,
            out@ == old(out)@ + digits@.reverse().take(k as int),
        decreases n - k,
    {
        let b = digits[n - 1 - k];
        proof {
            assert(digits@.reverse()[k as int] == b);
            assert(digits@.reverse().take(k + 1) =~= digits@.reverse().take(k as int).push(b));
            assert(out@.push(b) =~= old(out)@ + digits@.reverse().take(k + 1));
        }
        out.push(b);
        k = k + 1;
    }
    proof {
        assert(digits@.reverse().take(n as int) =~= digits@.reverse());
    }
}

/// The base-52 text of one quantized value, most significant digit first:
/// `a` for zero, and no leading zero digits otherwise.
pub fn value_to_string(x: u32) -> (r: String)
    ensures
        encode_utf8(r@) == token_bytes(x as nat),
        r@.len() == token_bytes(x as nat).len(),
{
    let mut out: Vec<u8> = Vec::new();
    push_token(&mut out, x);
    proof {
        lemma_token_bytes_wf(x as nat);
        assert(out@ =~= token_bytes(x as nat));
    }
    ascii_to_string(out)
}

/// The value of one base-52 token, accumulated left to right with the
/// accumulator wrapping at 2^32; `InvalidDna` on any character outside the
/// alphabet (the separator `-` included), and zero for the empty string.
pub fn string_to_value(s: &str) -> (r: Result<u32, Error>)
    ensures
        r is Ok <==> (forall|i: int|
            0 <= i < encode_utf8(s@).len() ==> is_dna_byte(#[trigger] encode_utf8(s@)[i])),
        r matches Ok(v) ==> v as nat == token_val(encode_utf8(s@)) % (WRAP as nat),
        r is Err ==> r == Err::<u32, Error>(Error::InvalidDna),
{
    let b = s.as_bytes();
    let mut cur: u32 = 0;
    let mut i: usize = 0;
    while i < b.len()
        invariant
            b@ == encode_utf8(s@),
            i <= b@.len(),
            forall|j: int| 0 <= j < i ==> is_dna_byte(#[trigger] b@[j]),
            cur as nat == token_val(b@.take(i as int)) % (WRAP as nat),
        decreases b@.len() - i,
    {
        let c = b[i];
        let d: u32 = if 97 <= c && c <= 122 {
            (c - 97) as u32
        } else if 65 <= c && c <= 90 {
            (c - 65) as u32 + 26
        } else {
            return Err(Error::InvalidDna);
        };
        proof {
            let pre = b@.take(i as int);
            let post = b@.take(i + 1);
            assert(post.drop_last() =~= pre);
            assert(post.last() == b@[i as int]);
            assert(d as nat == digit_val(b@[i as int]));
            let a = token_val(pre) as int;
            let m = WRAP as int;
            lemma_small_mod(d as nat, WRAP as nat);
            lemma_add_mod_noop((a % m) * 52, d as int, m);
            lemma_mul_mod_noop_left(a, 52, m);
            lemma_add_mod_noop(a * 52, d as int, m);
            assert(((a % m) * 52 + d) % m == (a * 52 + d) % m);
        }
        let wide: u64 = cur as u64 * 52 + d as u64;
        cur = (wide % WRAP) as u32;
        i = i + 1;
    }
    proof {
        assert(b@.take(i as int) =~= b@);
    }
    Ok(cur)
}

/// The DNA text of a sequence of quantized values: base-52 tokens joined
/// with `-`; empty for no values.
pub fn values_to_dna(values: &Vec<u32>) -> (r: String)
    ensures
        encode_utf8(r@) == dna_bytes(values@),
        r@.len() == dna_bytes(values@).len(),
{
    let mut out: Vec<u8> = Vec::new();
    let mut i: usize = 0;
    while i < values.len()
        invariant
            i <= values@.len(),
            out@ == dna_bytes(values@.take(i as int)),
        decreases values@.len() - i,
    {
        let v = values[i];
        proof {
            let pre = values@.take(i as int);
            let post = values@.take(i + 1);
            assert(post.drop_last() =~= pre);
            assert(post.last() == values@[i as int]);
            if i == 0 {
                assert(dna_bytes(post) =~= token_bytes(v as nat));
                assert(out@ + token_bytes(v as nat) =~= token_bytes(v as nat));
            } else {
                assert(dna_bytes(post) =~= dna_bytes(pre) + seq![DASH] + token_bytes(v as nat));
                assert((out@ + seq![DASH]) + token_bytes(v as nat) =~= dna_bytes(post));
            }
        }
        if i > 0 {
            out.push(DASH);
        }
        push_token(&mut out, v);
        i = i + 1;
    }
    proof {
        assert(values@.take(i as int) =~= values@);
        lemma_dna_bytes_wf(values@);
    }
    ascii_to_string(out)
}

/// The quantized values a DNA text decodes to, or `InvalidDna` where a
/// character is neither a base-52 digit nor the separator.
pub fn dna_to_values(s: &str) -> (r: Result<Vec<u32>, Error>)
    ensures
        r is Ok <==> parse_dna(encode_utf8(s@)) is Some,
        r matches Ok(vs) ==> Some(vs@) == parse_dna(encode_utf8(s@)),
        r is Err ==> r == Err::<Vec<u32>, Error>(Error::InvalidDna),
{
    let b = s.as_bytes();
    let mut acc: Vec<u32> = Vec::new();
    let mut cur: u32 = 0;
    let mut i: usize = 0;
    while i < b.len()
        invariant
            b@ == encode_utf8(s@),
            i <= b@.len(),
            parse_dna(b@) == parse_step(b@, i as int, acc@, cur),
        decreases b@.len() - i,
    {
        let c = b[i];
        if c == DASH {
            acc.push(cur);
            cur = 0;
        } else if 97 <= c && c <= 122 {
            let d = (c - 97) as u32;
            proof {
                assert(d as nat == digit_val(b@[i as int]));
            }
            let wide: u64 = cur as u64 * 52 + d as u64;
            cur = (wide % WRAP) as u32;
        } else if 65 <= c && c <= 90 {
            let d = (c - 65) as u32 + 26;
            proof {
                assert(d as nat == digit_val(b@[i as int]));
            }
            let wide: u64 = cur as u64 * 52 + d as u64;
            cur = (wide % WRAP) as u32;
        } else {
            return Err(Error::InvalidDna);
        }
        i = i + 1;
    }
    acc.push(cur);
    Ok(acc)
}

} // verus!
