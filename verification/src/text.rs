//! Text produced by the library: UTF-8 checks, decimal and hexadecimal digits.
use vstd::prelude::*;
use vstd::string::StringSliceAdditionalSpecFns;
use vstd::utf8::{
    encode_utf8, encode_utf8_decode_utf8, encode_utf8_valid_utf8, is_ascii_chars,
    is_ascii_chars_encode_utf8, valid_utf8,
};

verus! {

/// Views `bytes` as text by calling `core::str::from_utf8`.
///
/// Claims what the standard library documents of that function: it succeeds
/// exactly when `bytes` is valid UTF-8, and the text it returns is made of
/// those same bytes.
#[verifier::external_body]
pub(crate) fn str_from_utf8<'a>(bytes: &'a [u8]) -> (r: Option<&'a str>)
    ensures
        r is Some <==> valid_utf8(bytes@),
        r matches Some(s) ==> s.spec_bytes() == bytes@,
{
    core::str::from_utf8(bytes).ok()
}

/// The characters of an ASCII byte string.
pub open spec fn ascii_chars(b: Seq<u8>) -> Seq<char> {
    b.map_values(|x: u8| x as char)
}

/// Every byte is an ASCII character.
pub open spec fn is_ascii_bytes(b: Seq<u8>) -> bool {
    forall|i: int| 0 <= i < b.len() ==> #[trigger] b[i] < 128
}

/// Text whose characters are the given ASCII bytes.
pub fn ascii_string(bytes: &[u8]) -> (s: String)
    requires
        is_ascii_bytes(bytes@),
    ensures
        s@ == ascii_chars(bytes@),
{
    let ghost chars = ascii_chars(bytes@);
    proof {
        assert(is_ascii_chars(chars));
        is_ascii_chars_encode_utf8(chars);
        assert(encode_utf8(chars) =~= bytes@);
        encode_utf8_valid_utf8(chars);
        encode_utf8_decode_utf8(chars);
    }
    match str_from_utf8(bytes) {
        Some(text) => {
            proof {
                encode_utf8_decode_utf8(text@);
            }
            text.to_owned()
        },
        None => String::new(),
    }
}

/// The ASCII decimal digits of `n`, most significant first, without leading zeros.
pub open spec fn decimal(n: nat) -> Seq<u8>
    decreases n,
{
    if n < 10 {
        seq![(48 + n) as u8]
    } else {
        decimal(n / 10) + seq![(48 + n % 10) as u8]
    }
}

/// Decimal digits are ASCII characters.
pub proof fn lemma_decimal_ascii(n: nat)
    ensures
        is_ascii_bytes(decimal(n)),
        decimal(n).len() >= 1,
    decreases n,
{
    if n >= 10 {
        lemma_decimal_ascii(n / 10);
    }
}

/// Appends the decimal digits of `n` to `out`.
pub fn push_decimal(out: &mut Vec<u8>, n: u64)
    ensures
        final(out)@ == old(out)@ + decimal(n as nat),
    decreases n,
{
    if n >= 10 {
        push_decimal(out, n / 10);
    }
    out.push(48 + (n % 10) as u8);
    assert(final(out)@ =~= old(out)@ + decimal(n as nat));
}

/// Items joined with `-` between each pair.
pub open spec fn dash_join(items: Seq<Seq<u8>>) -> Seq<u8>
    decreases items.len(),
{
    if items.len() == 0 {
        Seq::empty()
    } else if items.len() == 1 {
        items[0]
    } else {
        dash_join(items.drop_last()) + seq![45u8] + items.last()
    }
}

/// The decimal forms of `vals`, joined with `-`.
pub open spec fn decimals_joined(vals: Seq<int>) -> Seq<u8> {
    dash_join(vals.map_values(|v: int| decimal(v as nat)))
}

/// Appends the decimal forms of `vals`, joined with `-`, to `out`.
pub fn push_decimals_joined(out: &mut Vec<u8>, vals: &[u64])
    ensures
        final(out)@ == old(out)@ + decimals_joined(vals@.map_values(|v: u64| v as int)),
{
    let ghost ints = vals@.map_values(|v: u64| v as int);
    let ghost items = ints.map_values(|v: int| decimal(v as nat));
    let ghost start = out@;
    let mut i: usize = 0;
    assert(items.take(0) =~= Seq::<Seq<u8>>::empty());
    while i < vals.len()
        invariant
            i <= vals@.len(),
            ints == vals@.map_values(|v: u64| v as int),
            items == ints.map_values(|v: int| decimal(v as nat)),
            out@ == start + dash_join(items.take(i as int)),
        decreases vals@.len() - i,
    {
        let ghost before = out@;
        if i > 0 {
            out.push(45u8);
        }
        push_decimal(out, vals[i]);
        proof {
            let t = items.take(i + 1);
            assert(t.drop_last() =~= items.take(i as int));
            assert(t.last() == decimal(vals@[i as int] as nat));
            if i == 0 {
                assert(out@ =~= start + dash_join(t));
            } else {
                assert(out@ =~= start + dash_join(t));
            }
        }
        i = i + 1;
    }
    assert(items.take(i as int) =~= items);
}

/// The lowercase hexadecimal digit of a value below 16.
pub open spec fn hex_digit(v: int) -> u8 {
    if v < 10 {
        (48 + v) as u8
    } else {
        (87 + v) as u8
    }
}

/// Two lowercase hexadecimal digits per byte, most significant first.
pub open spec fn hex_lower(bytes: Seq<u8>) -> Seq<u8> {
    Seq::new(
        2 * bytes.len(),
        |i: int|
            if i % 2 == 0 {
                hex_digit(bytes[i / 2] as int / 16)
            } else {
                hex_digit(bytes[i / 2] as int % 16)
            },
    )
}

/// Appends the lowercase hexadecimal digit of `v` to `out`.
fn push_hex_digit(out: &mut Vec<u8>, v: u8)
    requires
        v < 16,
    ensures
        final(out)@ == old(out)@.push(hex_digit(v as int)),
{
    if v < 10 {
        out.push(48 + v);
    } else {
        out.push(87 + v);
    }
}

/// Appends two lowercase hexadecimal digits for `b` to `out`.
pub fn push_hex_byte(out: &mut Vec<u8>, b: u8)
    ensures
        final(out)@ == old(out)@ + seq![hex_digit(b as int / 16), hex_digit(b as int % 16)],
{
    push_hex_digit(out, b / 16);
    push_hex_digit(out, b % 16);
    assert(final(out)@ =~= old(out)@ + seq![hex_digit(b as int / 16), hex_digit(b as int % 16)]);
}

/// Hexadecimal digits are ASCII characters.
pub proof fn lemma_hex_lower_ascii(bytes: Seq<u8>)
    ensures
        is_ascii_bytes(hex_lower(bytes)),
{
}

/// Renders `bytes` as lowercase hexadecimal text, two digits per byte.
pub fn hex_string(bytes: &[u8]) -> (s: String)
    ensures
        s@ == ascii_chars(hex_lower(bytes@)),
{
    let mut out: Vec<u8> = Vec::new();
    let mut i: usize = 0;
    while i < bytes.len()
        invariant
            i <= bytes@.len(),
            out@ =~= hex_lower(bytes@.take(i as int)),
        decreases bytes@.len() - i,
    {
        push_hex_byte(&mut out, bytes[i]);
        proof {
            let a = hex_lower(bytes@.take(i + 1));
            assert forall|k: int| 0 <= k < a.len() implies a[k] == out@[k] by {
                if k < 2 * i {
                    assert(bytes@.take(i + 1)[k / 2] == bytes@.take(i as int)[k / 2]);
                } else {
                    assert(k / 2 == i);
                }
            }
        }
        i = i + 1;
    }
    assert(bytes@.take(i as int) =~= bytes@);
    proof {
        lemma_hex_lower_ascii(bytes@);
    }
    ascii_string(out.as_slice())
}

/// The number that ASCII decimal digits, most significant first, spell.
pub open spec fn decimal_value(digits: Seq<u8>) -> int
    decreases digits.len(),
{
    if digits.len() == 0 {
        0
    } else {
        decimal_value(digits.drop_last()) * 10 + (digits.last() - 48)
    }
}

/// The decimal form of `n` is made of the digits `0` to `9`, has no leading
/// zero, and spells `n`.
pub proof fn law_decimal_spells_the_number(n: nat)
    ensures
        forall|i: int| 0 <= i < decimal(n).len() ==> 48 <= #[trigger] decimal(n)[i] <= 57,
        decimal(n).len() >= 1,
        decimal(n)[0] == 48 ==> n == 0,
        decimal_value(decimal(n)) == n,
    decreases n,
{
    if n >= 10 {
        law_decimal_spells_the_number(n / 10);
        let d = decimal(n / 10) + seq![(48 + n % 10) as u8];
        assert(d.drop_last() =~= decimal(n / 10));
        assert(d[0] == decimal(n / 10)[0]);
        assert forall|i: int| 0 <= i < d.len() implies 48 <= #[trigger] d[i] <= 57 by {
            if i < decimal(n / 10).len() {
                assert(d[i] == decimal(n / 10)[i]);
            }
        }
        assert(d.last() == (48 + n % 10) as u8);
        assert(decimal_value(d) == decimal_value(decimal(n / 10)) * 10 + (n % 10));
        assert((n / 10) * 10 + n % 10 == n);
    } else {
        assert(decimal_value(seq![(48 + n) as u8]) == decimal_value(
            seq![(48 + n) as u8].drop_last(),
        ) * 10 + n);
        assert(seq![(48 + n) as u8].drop_last() =~= Seq::<u8>::empty());
    }
}

/// The value of a lowercase hexadecimal digit.
pub open spec fn hex_digit_value(c: u8) -> int {
    if c <= 57 {
        c - 48
    } else {
        c - 87
    }
}

/// The lowercase hex form of bytes takes two digits per byte, from `0` to
/// `9` and `a` to `f`, the first digit worth sixteen times the second: the
/// digits at `2 i` and `2 i + 1` spell byte `i`.
pub proof fn law_hex_lower_spells_the_bytes(bytes: Seq<u8>)
    ensures
        hex_lower(bytes).len() == 2 * bytes.len(),
        forall|i: int|
            0 <= i < hex_lower(bytes).len() ==> (48 <= #[trigger] hex_lower(bytes)[i] <= 57 || 97
                <= hex_lower(bytes)[i] <= 102),
        forall|i: int|
            0 <= i < bytes.len() ==> hex_digit_value(hex_lower(bytes)[2 * i]) * 16
                + hex_digit_value(hex_lower(bytes)[2 * i + 1]) == #[trigger] bytes[i],
{
    let h = hex_lower(bytes);
    assert forall|i: int| 0 <= i < bytes.len() implies hex_digit_value(h[2 * i]) * 16
        + hex_digit_value(h[2 * i + 1]) == #[trigger] bytes[i] by {
        assert((2 * i) / 2 == i && (2 * i + 1) / 2 == i);
        assert((2 * i) % 2 == 0 && (2 * i + 1) % 2 == 1);
        let b = bytes[i] as int;
        assert(b == (b / 16) * 16 + b % 16);
    }
}

} // verus!
