//! Network byte order encodings shared by the TLS codecs.
use vstd::prelude::*;

verus! {

/// The two bytes, most significant first, that encode a 16-bit value.
pub open spec fn be16(v: int) -> Seq<u8> {
    seq![(v / 256) as u8, (v % 256) as u8]
}

/// The 16-bit value held by two bytes in network byte order.
pub open spec fn be16_value(hi: u8, lo: u8) -> u16 {
    (hi as int * 256 + lo as int) as u16
}

/// The 16-bit value at offset `i` of `s`, read in network byte order.
pub open spec fn u16_at(s: Seq<u8>, i: int) -> u16 {
    be16_value(s[i], s[i + 1])
}

/// The three bytes, most significant first, that encode a 24-bit value.
pub open spec fn be24(v: int) -> Seq<u8> {
    seq![(v / 65536) as u8, ((v / 256) % 256) as u8, (v % 256) as u8]
}

/// The 24-bit value held by three bytes in network byte order.
pub open spec fn be24_value(a: u8, b: u8, c: u8) -> nat {
    (a as int * 65536 + b as int * 256 + c as int) as nat
}

/// The bytes of a sequence of 16-bit values, each in network byte order.
pub open spec fn be16_list(vals: Seq<u16>) -> Seq<u8> {
    Seq::new(
        2 * vals.len(),
        |i: int| if i % 2 == 0 { (vals[i / 2] / 256) as u8 } else { (vals[i / 2] % 256) as u8 },
    )
}

/// The 16-bit values held by a byte string of even length.
pub open spec fn u16_list(s: Seq<u8>) -> Seq<u16> {
    Seq::new(s.len() / 2, |i: int| u16_at(s, 2 * i))
}

/// Encodes a 16-bit value in network byte order.
pub fn u16_to_be(v: u16) -> (r: [u8; 2])
    ensures
        r@ == be16(v as int),
{
    let r = [(v / 256) as u8, (v % 256) as u8];
    assert(r@ =~= be16(v as int));
    r
}

/// Decoding the three bytes of a 24-bit value gives the value back.
pub proof fn lemma_be24_round_trip(v: int)
    requires
        0 <= v <= 0xff_ffff,
    ensures
        be24(v).len() == 3,
        be24_value(be24(v)[0], be24(v)[1], be24(v)[2]) == v,
{
}

/// Reading back the bytes of a list of 16-bit values gives the list.
pub proof fn lemma_be16_list_round_trip(vals: Seq<u16>)
    ensures
        be16_list(vals).len() == 2 * vals.len(),
        u16_list(be16_list(vals)) =~= vals,
{
    assert forall|i: int| 0 <= i < vals.len() implies #[trigger] u16_list(be16_list(vals))[i]
        == vals[i] by {
        assert((2 * i) / 2 == i);
        assert((2 * i + 1) / 2 == i);
        assert((2 * i) % 2 == 0);
        assert((2 * i + 1) % 2 == 1);
    }
}

/// Appending one value to a list appends its two bytes to the encoding.
pub proof fn lemma_be16_list_push(vals: Seq<u16>, v: u16)
    ensures
        be16_list(vals.push(v)) =~= be16_list(vals) + be16(v as int),
{
    let a = be16_list(vals.push(v));
    let b = be16_list(vals) + be16(v as int);
    assert forall|i: int| 0 <= i < a.len() implies a[i] == b[i] by {
        if i < 2 * vals.len() {
            assert(i / 2 < vals.len());
        } else {
            assert(i / 2 == vals.len());
        }
    }
}

/// Encoding the 16-bit value held by two bytes gives the two bytes back.
pub proof fn lemma_be16_of_bytes(hi: u8, lo: u8)
    ensures
        be16(be16_value(hi, lo) as int) == seq![hi, lo],
{
    let v = be16_value(hi, lo);
    assert(v == hi as int * 256 + lo as int);
    assert(v / 256 == hi as int);
    assert(v % 256 == lo as int);
    assert(be16(v as int) =~= seq![hi, lo]);
}

/// Encoding the 16-bit values held by a byte string of even length gives
/// the byte string back.
pub proof fn lemma_u16_list_encodes(s: Seq<u8>)
    requires
        s.len() % 2 == 0,
    ensures
        u16_list(s).len() == s.len() / 2,
        be16_list(u16_list(s)) == s,
{
    let vals = u16_list(s);
    let e = be16_list(vals);
    assert forall|i: int| 0 <= i < s.len() implies e[i] == s[i] by {
        let k = i / 2;
        lemma_be16_of_bytes(s[2 * k], s[2 * k + 1]);
        assert(vals[k] == be16_value(s[2 * k], s[2 * k + 1]));
        if i % 2 == 0 {
            assert(i == 2 * k);
        } else {
            assert(i == 2 * k + 1);
        }
    }
    assert(e =~= s);
}

} // verus!
