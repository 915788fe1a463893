//! Fixed-capacity text buffers from `heapless`, as the firmware fills them,
//! and the decimal spelling of integers, written into them in one piece.
use vstd::prelude::*;
use vstd::string::StringSliceAdditionalSpecFns;
use vstd::utf8::valid_utf8;

verus! {

#[verifier::external_type_specification]
#[verifier::external_body]
pub struct ExFixedString<const N: usize>(heapless::String<N>);

/// The bytes held by a 128-byte `heapless::String`.
pub uninterp spec fn fields_text(s: heapless::String<128>) -> Seq<u8>;

/// The bytes held by a 160-byte `heapless::String`.
pub uninterp spec fn body_text(s: heapless::String<160>) -> Seq<u8>;

/// The bytes held by a 512-byte `heapless::String`.
pub uninterp spec fn request_text(s: heapless::String<512>) -> Seq<u8>;

/// ASCII digits of `n` in base ten, most significant first, with no leading
/// zero (what `{}` prints for an unsigned integer).
pub open spec fn decimal(n: nat) -> Seq<u8>
    decreases n,
{
    if n < 10 {
        seq![(n + 48) as u8]
    } else {
        decimal(n / 10).push((n % 10 + 48) as u8)
    }
}

/// The number that a string of ASCII decimal digits spells, most significant
/// digit first (0 for no digits).
pub open spec fn digits_value(s: Seq<u8>) -> int
    decreases s.len(),
{
    if s.len() == 0 {
        0
    } else {
        digits_value(s.drop_last()) * 10 + (s.last() - 48)
    }
}

/// The decimal spelling of `n` reads back as `n`: it is a non-empty string of
/// the digit bytes `'0'..='9'`, with no leading zero, whose value in base ten
/// is `n`.
pub proof fn decimal_reads_back(n: nat)
    ensures
        digits_value(decimal(n)) == n,
        decimal(n).len() >= 1,
        forall|i: int| 0 <= i < decimal(n).len() ==> 48 <= #[trigger] decimal(n)[i] <= 57,
        decimal(n).len() > 1 ==> decimal(n)[0] != 48,
    decreases n,
{
    if n < 10 {
        assert(decimal(n).drop_last() =~= Seq::<u8>::empty());
        assert(digits_value(Seq::<u8>::empty()) == 0);
        assert(decimal(n).last() == (n + 48) as u8);
        assert(digits_value(decimal(n)) == digits_value(decimal(n).drop_last()) * 10 + (
        decimal(n).last() - 48));
    } else {
        decimal_reads_back(n / 10);
        let d = (n % 10 + 48) as u8;
        let p = decimal(n / 10);
        assert(decimal(n) == p.push(d));
        assert(p.push(d).drop_last() =~= p);
        assert(forall|i: int| 0 <= i < p.len() ==> p.push(d)[i] == p[i]);
        assert(p.push(d)[0] == p[0]);
        assert(p.push(d).last() == d);
        assert(d - 48 == n % 10);
        assert(digits_value(p.push(d)) == digits_value(p) * 10 + (d - 48));
        assert(n == (n / 10) * 10 + n % 10);
        if p.len() == 1 {
            assert(n / 10 < 10) by {
                if n / 10 >= 10 {
                    assert(decimal(n / 10) == decimal(n / 100).push(((n / 10) % 10 + 48) as u8));
                    decimal_reads_back(n / 100);
                }
            }
            assert(p[0] == (n / 10 + 48) as u8);
        }
    }
}

/// Ten to the power `k`.
pub open spec fn pow10(k: nat) -> nat
    decreases k,
{
    if k == 0 {
        1
    } else {
        10 * pow10((k - 1) as nat)
    }
}

/// A number below `10^k` takes at most `k` digits.
pub proof fn lemma_decimal_len(n: nat, k: nat)
    requires
        1 <= k,
        n < pow10(k),
    ensures
        1 <= decimal(n).len() <= k,
    decreases n,
{
    if n >= 10 {
        assert(k >= 2) by {
            if k == 1 {
                assert(pow10(1) == 10) by {
                    reveal_with_fuel(pow10, 2);
                }
            }
        }
        let k1 = (k - 1) as nat;
        assert(pow10(k) == 10 * pow10(k1));
        assert(n / 10 < pow10(k1)) by (nonlinear_arith)
            requires
                n < 10 * pow10(k1),
        ;
        lemma_decimal_len(n / 10, k1);
    }
}

/// Text produced by writing `pieces` one after another into a buffer that
/// already holds `text` and can hold `cap` bytes, the way one formatted write
/// proceeds: each piece goes in whole or not at all, and the first piece that
/// does not fit ends the write.
pub open spec fn fill(text: Seq<u8>, pieces: Seq<Seq<u8>>, cap: nat) -> Seq<u8>
    decreases pieces.len(),
{
    if pieces.len() == 0 {
        text
    } else if text.len() + pieces[0].len() <= cap {
        fill(text + pieces[0], pieces.drop_first(), cap)
    } else {
        text
    }
}

/// `heapless::String::<128>::new`: an empty buffer.
#[verifier::external_body]
pub(crate) fn fields_new() -> (r: heapless::String<128>)
    ensures
        fields_text(r) == Seq::<u8>::empty(),
{
    heapless::String::new()
}

/// `heapless::String::<128>::push_str`: appends the UTF-8 bytes of `piece`
/// when they fit in the capacity, otherwise fails and changes nothing.
#[verifier::external_body]
pub(crate) fn fields_push_str(s: &mut heapless::String<128>, piece: &str) -> (r: Result<(), ()>)
    ensures
        fields_text(*old(s)).len() + piece.spec_bytes().len() <= 128 ==> r is Ok
            && fields_text(*final(s)) == fields_text(*old(s)) + piece.spec_bytes(),
        fields_text(*old(s)).len() + piece.spec_bytes().len() > 128 ==> r is Err
            && fields_text(*final(s)) == fields_text(*old(s)),
{
    s.push_str(piece)
}


/// `heapless::String::<128>::as_str`: the held bytes as a string slice, which
/// never holds more than the capacity.
#[verifier::external_body]
pub(crate) fn fields_as_str(s: &heapless::String<128>) -> (r: &str)
    ensures
        r.spec_bytes() == fields_text(*s),
        r.spec_bytes().len() <= 128,
{
    s.as_str()
}

/// `heapless::String::<160>::new`: an empty buffer.
#[verifier::external_body]
pub(crate) fn body_new() -> (r: heapless::String<160>)
    ensures
        body_text(r) == Seq::<u8>::empty(),
{
    heapless::String::new()
}

/// `heapless::String::<160>::push_str`: appends the UTF-8 bytes of `piece`
/// when they fit in the capacity, otherwise fails and changes nothing.
#[verifier::external_body]
pub(crate) fn body_push_str(s: &mut heapless::String<160>, piece: &str) -> (r: Result<(), ()>)
    ensures
        body_text(*old(s)).len() + piece.spec_bytes().len() <= 160 ==> r is Ok
            && body_text(*final(s)) == body_text(*old(s)) + piece.spec_bytes(),
        body_text(*old(s)).len() + piece.spec_bytes().len() > 160 ==> r is Err
            && body_text(*final(s)) == body_text(*old(s)),
{
    s.push_str(piece)
}

/// `heapless::String::<512>::new`: an empty buffer.
#[verifier::external_body]
pub(crate) fn request_new() -> (r: heapless::String<512>)
    ensures
        request_text(r) == Seq::<u8>::empty(),
{
    heapless::String::new()
}

/// `heapless::String::<512>::push_str`: appends the UTF-8 bytes of `piece`
/// when they fit in the capacity, otherwise fails and changes nothing.
#[verifier::external_body]
pub(crate) fn request_push_str(s: &mut heapless::String<512>, piece: &str) -> (r: Result<(), ()>)
    ensures
        request_text(*old(s)).len() + piece.spec_bytes().len() <= 512 ==> r is Ok
            && request_text(*final(s)) == request_text(*old(s)) + piece.spec_bytes(),
        request_text(*old(s)).len() + piece.spec_bytes().len() > 512 ==> r is Err
            && request_text(*final(s)) == request_text(*old(s)),
{
    s.push_str(piece)
}

/// `core::str::from_utf8`: the bytes as a string slice when they are valid
/// UTF-8, and nothing otherwise.
#[verifier::external_body]
pub(crate) fn utf8_str(bytes: &[u8]) -> (r: Option<&str>)
    ensures
        r is Some <==> valid_utf8(bytes@),
        r matches Some(t) ==> t.spec_bytes() == bytes@,
{
    core::str::from_utf8(bytes).ok()
}

proof fn lemma_ascii_byte_utf8(b: u8)
    requires
        b < 128,
    ensures
        valid_utf8(seq![b]),
{
    assert((b & 0x7f) as u32 == b as u32) by (bit_vector)
        requires
            b < 128,
    ;
    let s = seq![b];
    assert(vstd::utf8::valid_first_scalar(s));
    assert(vstd::utf8::pop_first_scalar(s) =~= Seq::<u8>::empty());
    reveal_with_fuel(valid_utf8, 2);
}

/// Decimal digits are ASCII, hence valid UTF-8.
proof fn lemma_decimal_utf8(n: nat)
    ensures
        valid_utf8(decimal(n)),
    decreases n,
{
    if n < 10 {
        lemma_ascii_byte_utf8((n + 48) as u8);
    } else {
        lemma_decimal_utf8(n / 10);
        let d = (n % 10 + 48) as u8;
        lemma_ascii_byte_utf8(d);
        vstd::utf8::valid_utf8_concat(decimal(n / 10), seq![d]);
        assert(decimal(n / 10).push(d) =~= decimal(n / 10) + seq![d]);
    }
}

/// The decimal digits of `n`, as bytes.
fn decimal_digits(n: u64) -> (r: Vec<u8>)
    ensures
        r@ == decimal(n as nat),
    decreases n,
{
    if n < 10 {
        let mut v: Vec<u8> = Vec::new();
        v.push(n as u8 + 48);
        v
    } else {
        let mut v = decimal_digits(n / 10);
        v.push((n % 10) as u8 + 48);
        v
    }
}

/// Appends the decimal digits of `n` to a 128-byte buffer as one piece: all
/// of them when they fit, otherwise none and the write fails.
pub(crate) fn fields_write_decimal(s: &mut heapless::String<128>, n: u64) -> (r: Result<(), ()>)
    ensures
        fields_text(*old(s)).len() + decimal(n as nat).len() <= 128 ==> r is Ok
            && fields_text(*final(s)) == fields_text(*old(s)) + decimal(n as nat),
        fields_text(*old(s)).len() + decimal(n as nat).len() > 128 ==> r is Err
            && fields_text(*final(s)) == fields_text(*old(s)),
{
    let digits = decimal_digits(n);
    proof {
        lemma_decimal_utf8(n as nat);
    }
    match utf8_str(digits.as_slice()) {
        Some(t) => fields_push_str(s, t),
        None => Err(()),
    }
}

/// Appends the decimal digits of `n` to a 512-byte buffer as one piece: all
/// of them when they fit, otherwise none and the write fails.
pub(crate) fn request_write_decimal(s: &mut heapless::String<512>, n: u64) -> (r: Result<(), ()>)
    ensures
        request_text(*old(s)).len() + decimal(n as nat).len() <= 512 ==> r is Ok
            && request_text(*final(s)) == request_text(*old(s)) + decimal(n as nat),
        request_text(*old(s)).len() + decimal(n as nat).len() > 512 ==> r is Err
            && request_text(*final(s)) == request_text(*old(s)),
{
    let digits = decimal_digits(n);
    proof {
        lemma_decimal_utf8(n as nat);
    }
    match utf8_str(digits.as_slice()) {
        Some(t) => request_push_str(s, t),
        None => Err(()),
    }
}

} // verus!
