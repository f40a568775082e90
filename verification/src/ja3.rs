//! JA3 and JA3S passive TLS fingerprints.
use vstd::prelude::*;

use crate::digest::{md5_digest, md5_of};
use crate::error::{eof, Error};
use crate::text::{
    ascii_chars, decimal, decimals_joined, hex_lower, hex_string, push_decimal,
    push_decimals_joined,
};
use crate::tls::{
    extension_models, find_extension, find_extension_data, is_grease_value, suite_values,
    ClientHelloModel, ExtensionModel, Grease, ServerHelloModel, TlsClientHello, TlsExtension,
    TlsReader, TlsServerHello,
};
use crate::wire::{be16, be16_list, u16_at, u16_list};

verus! {

/// Reported when the `supported_groups` extension is not a well-formed list.
pub open spec fn bad_supported_groups() -> Error {
    Error::Malformed("invalid supported_groups extension")
}

/// Reported when the `ec_point_formats` extension is not a well-formed list.
pub open spec fn bad_point_formats() -> Error {
    Error::Malformed("invalid ec_point_formats extension")
}

/// The values that are not GREASE code points, in order.
pub open spec fn non_grease(vals: Seq<u16>) -> Seq<u16> {
    vals.filter(|v: u16| !is_grease_value(v))
}

/// 16-bit values as integers.
pub open spec fn ints16(vals: Seq<u16>) -> Seq<int> {
    vals.map_values(|v: u16| v as int)
}

/// The types of a list of extensions, in order.
pub open spec fn extension_types_of(exts: Seq<ExtensionModel>) -> Seq<u16> {
    exts.map_values(|e: ExtensionModel| e.ext_type)
}

/// The JA3 field of supported groups: the non-GREASE groups of the first
/// `supported_groups` extension in decimal, joined with `-`; empty without
/// that extension.
pub open spec fn ja3_groups(exts: Seq<ExtensionModel>) -> Result<Seq<u8>, Error> {
    match find_extension(exts, 0x000a) {
        None => Ok(Seq::empty()),
        Some(e) => {
            let d = e.data;
            if d.len() < 2 {
                Err(eof(2, d.len() as int))
            } else {
                let n: int = u16_at(d, 0) as int;
                if d.len() - 2 < n {
                    Err(eof(n, d.len() - 2))
                } else if d.len() != 2 + n || n % 2 != 0 {
                    Err(bad_supported_groups())
                } else {
                    Ok(decimals_joined(ints16(non_grease(u16_list(d.subrange(2, 2 + n))))))
                }
            }
        },
    }
}

/// The JA3 field of point formats: the formats of the first
/// `ec_point_formats` extension in decimal, joined with `-`; empty without
/// that extension.
pub open spec fn ja3_point_formats(exts: Seq<ExtensionModel>) -> Result<Seq<u8>, Error> {
    match find_extension(exts, 0x000b) {
        None => Ok(Seq::empty()),
        Some(e) => {
            let d = e.data;
            if d.len() < 1 {
                Err(eof(1, 0))
            } else {
                let n: int = d[0] as int;
                if d.len() - 1 < n {
                    Err(eof(n, d.len() - 1))
                } else if d.len() != 1 + n {
                    Err(bad_point_formats())
                } else {
                    Ok(decimals_joined(d.subrange(1, 1 + n).map_values(|v: u8| v as int)))
                }
            }
        },
    }
}

/// The JA3 string of a `ClientHello`: its version, cipher suites, extension
/// types, supported groups and point formats, each in decimal, separated by
/// commas, with every GREASE value left out.
pub open spec fn ja3_source(m: ClientHelloModel) -> Result<Seq<u8>, Error> {
    match ja3_groups(m.extensions) {
        Err(e) => Err(e),
        Ok(groups) => match ja3_point_formats(m.extensions) {
            Err(e) => Err(e),
            Ok(formats) => Ok(
                decimal(m.legacy_version as nat) + seq![44u8] + decimals_joined(
                    ints16(non_grease(m.cipher_suites)),
                ) + seq![44u8] + decimals_joined(
                    ints16(non_grease(extension_types_of(m.extensions))),
                ) + seq![44u8] + groups + seq![44u8] + formats,
            ),
        },
    }
}

/// The JA3S string of a `ServerHello`: its version, cipher suite and
/// extension types in decimal, separated by commas.
pub open spec fn ja3s_source(m: ServerHelloModel) -> Seq<u8> {
    decimal(m.legacy_version as nat) + seq![44u8] + decimal(m.cipher_suite as nat) + seq![44u8]
        + decimals_joined(ints16(extension_types_of(m.extensions)))
}

/// Keeps the values that are not GREASE code points.
fn without_grease(vals: &[u16]) -> (r: Vec<u64>)
    ensures
        r@.map_values(|v: u64| v as int) == ints16(non_grease(vals@)),
{
    let mut kept: Vec<u64> = Vec::new();
    let mut i: usize = 0;
    assert(vals@.take(0) =~= Seq::<u16>::empty());
    proof {
        reveal_with_fuel(Seq::<_>::filter, 1);
    }
    assert(kept@.map_values(|v: u64| v as int) =~= ints16(non_grease(vals@.take(0))));
    while i < vals.len()
        invariant
            i <= vals@.len(),
            kept@.map_values(|v: u64| v as int) =~= ints16(non_grease(vals@.take(i as int))),
        decreases vals@.len() - i,
    {
        let ghost before = kept@;
        let v = vals[i];
        if !Grease::is_grease(v) {
            kept.push(v as u64);
        }
        proof {
            reveal_with_fuel(Seq::<_>::filter, 1);
            let t = vals@.take(i + 1);
            assert(t.drop_last() =~= vals@.take(i as int));
            assert(t.last() == v);
            let prev = non_grease(vals@.take(i as int));
            if !is_grease_value(v) {
                assert(non_grease(t) == prev.push(v));
                assert(kept@ =~= before.push(v as u64));
                assert(kept@.map_values(|v: u64| v as int) =~= before.map_values(
                    |v: u64| v as int,
                ).push(v as int));
                assert(ints16(prev.push(v)) =~= ints16(prev).push(v as int));
            } else {
                assert(non_grease(t) == prev);
            }
        }
        i = i + 1;
    }
    assert(vals@.take(i as int) =~= vals@);
    kept
}

/// The types of `exts`, in order.
fn extension_type_values(exts: &[TlsExtension]) -> (r: Vec<u16>)
    ensures
        r@ == extension_types_of(extension_models(exts@)),
{
    let mut types: Vec<u16> = Vec::new();
    let mut i: usize = 0;
    while i < exts.len()
        invariant
            i <= exts@.len(),
            types@ =~= extension_types_of(extension_models(exts@)).take(i as int),
        decreases exts@.len() - i,
    {
        types.push(exts[i].extension_type().as_u16());
        i = i + 1;
    }
    types
}

/// Widens 16-bit values.
fn widen(vals: &[u16]) -> (r: Vec<u64>)
    ensures
        r@.map_values(|v: u64| v as int) == ints16(vals@),
{
    let mut out: Vec<u64> = Vec::new();
    let mut i: usize = 0;
    while i < vals.len()
        invariant
            i <= vals@.len(),
            out@.map_values(|v: u64| v as int) =~= ints16(vals@.take(i as int)),
        decreases vals@.len() - i,
    {
        let ghost before = out@;
        out.push(vals[i] as u64);
        proof {
            assert(out@.map_values(|v: u64| v as int) =~= before.map_values(|v: u64| v as int).push(
                vals@[i as int] as int,
            ));
            assert(vals@.take(i + 1) =~= vals@.take(i as int).push(vals@[i as int]));
            assert(ints16(vals@.take(i + 1)) =~= ints16(vals@.take(i as int)).push(
                vals@[i as int] as int,
            ));
        }
        i = i + 1;
    }
    assert(vals@.take(i as int) =~= vals@);
    out
}

/// Appends the JA3 supported-groups field to `out`.
fn push_groups(out: &mut Vec<u8>, exts: &[TlsExtension]) -> (r: Result<(), Error>)
    ensures
        match ja3_groups(extension_models(exts@)) {
            Ok(f) => r is Ok && final(out)@ == old(out)@ + f,
            Err(e) => r == Err::<(), Error>(e),
        },
{
    let data = match find_extension_data(exts, 0x000a) {
        Some(d) => d,
        None => {
            assert(old(out)@ + Seq::<u8>::empty() =~= old(out)@);
            return Ok(());
        },
    };
    let mut reader = TlsReader::new(data);
    let groups_length = reader.read_u16()? as usize;
    let groups_data = reader.read_bytes(groups_length)?;
    if !reader.is_empty() || groups_length % 2 != 0 {
        return Err(Error::Malformed("invalid supported_groups extension"));
    }
    let mut groups_reader = TlsReader::new(groups_data);
    let mut groups: Vec<u16> = Vec::new();
    assert(groups@ =~= u16_list(groups_data@).take(0));
    while !groups_reader.is_empty()
        invariant
            groups_reader.data() == groups_data@,
            groups_reader.valid(),
            groups_data@.len() % 2 == 0,
            groups_reader.pos() % 2 == 0,
            groups@ =~= u16_list(groups_data@).take(groups_reader.pos() / 2),
        decreases groups_reader.data().len() - groups_reader.pos(),
    {
        let ghost pos = groups_reader.pos();
        let group = groups_reader.read_u16()?;
        groups.push(group);
        assert(u16_list(groups_data@)[pos / 2] == group);
        assert((pos + 2) / 2 == pos / 2 + 1);
        assert(u16_list(groups_data@).take(pos / 2 + 1) =~= u16_list(groups_data@).take(
            pos / 2,
        ).push(group));
    }
    assert(groups@ =~= u16_list(groups_data@));
    assert(groups_data@ =~= data@.subrange(2, 2 + groups_length as int));
    let kept = without_grease(groups.as_slice());
    push_decimals_joined(out, kept.as_slice());
    Ok(())
}

/// Appends the JA3 point-formats field to `out`.
fn push_point_formats(out: &mut Vec<u8>, exts: &[TlsExtension]) -> (r: Result<(), Error>)
    ensures
        match ja3_point_formats(extension_models(exts@)) {
            Ok(f) => r is Ok && final(out)@ == old(out)@ + f,
            Err(e) => r == Err::<(), Error>(e),
        },
{
    let data = match find_extension_data(exts, 0x000b) {
        Some(d) => d,
        None => {
            assert(old(out)@ + Seq::<u8>::empty() =~= old(out)@);
            return Ok(());
        },
    };
    let mut reader = TlsReader::new(data);
    let formats_length = reader.read_u8()? as usize;
    let formats_data = reader.read_bytes(formats_length)?;
    if !reader.is_empty() {
        return Err(Error::Malformed("invalid ec_point_formats extension"));
    }
    let mut formats: Vec<u64> = Vec::new();
    let mut i: usize = 0;
    while i < formats_data.len()
        invariant
            i <= formats_data@.len(),
            formats@.map_values(|v: u64| v as int) =~= formats_data@.take(i as int).map_values(
                |v: u8| v as int,
            ),
        decreases formats_data@.len() - i,
    {
        let ghost before = formats@;
        formats.push(formats_data[i] as u64);
        proof {
            assert(formats@.map_values(|v: u64| v as int) =~= before.map_values(|v: u64| v as int).push(
                formats_data@[i as int] as int,
            ));
            assert(formats_data@.take(i + 1) =~= formats_data@.take(i as int).push(
                formats_data@[i as int],
            ));
            assert(formats_data@.take(i + 1).map_values(|v: u8| v as int) =~= formats_data@.take(
                i as int,
            ).map_values(|v: u8| v as int).push(formats_data@[i as int] as int));
        }
        i = i + 1;
    }
    assert(formats_data@.take(i as int) =~= formats_data@);
    assert(formats_data@ =~= data@.subrange(1, 1 + formats_length as int));
    push_decimals_joined(out, formats.as_slice());
    Ok(())
}

/// The JA3 string of a parsed `ClientHello`, before hashing.
fn ja3_string(client_hello: &TlsClientHello) -> (r: Result<Vec<u8>, Error>)
    ensures
        match r {
            Ok(s) => ja3_source(client_hello@) == Ok::<Seq<u8>, Error>(s@),
            Err(e) => ja3_source(client_hello@) == Err::<Seq<u8>, Error>(e),
        },
{
    let m = Ghost(client_hello@);
    let suites = client_hello.cipher_suites();
    let mut suite_vals: Vec<u16> = Vec::new();
    let mut i: usize = 0;
    while i < suites.len()
        invariant
            i <= suites@.len(),
            suite_vals@ =~= suite_values(suites@).take(i as int),
        decreases suites@.len() - i,
    {
        suite_vals.push(suites[i].as_u16());
        i = i + 1;
    }
    assert(suite_values(suites@).take(i as int) =~= suite_values(suites@));
    let extensions = client_hello.extensions();
    let types = extension_type_values(extensions);
    let mut groups: Vec<u8> = Vec::new();
    push_groups(&mut groups, extensions)?;
    let mut formats: Vec<u8> = Vec::new();
    push_point_formats(&mut formats, extensions)?;
    let mut source: Vec<u8> = Vec::new();
    push_decimal(&mut source, client_hello.legacy_version().as_u16() as u64);
    source.push(44u8);
    push_decimals_joined(&mut source, without_grease(suite_vals.as_slice()).as_slice());
    source.push(44u8);
    push_decimals_joined(&mut source, without_grease(types.as_slice()).as_slice());
    source.push(44u8);
    source.extend_from_slice(groups.as_slice());
    source.push(44u8);
    source.extend_from_slice(formats.as_slice());
    assert(source@ =~= ja3_source(m@)->Ok_0);
    Ok(source)
}

/// Computes the JA3 fingerprint of a parsed TLS `ClientHello`: the lowercase
/// hexadecimal MD5 digest of its JA3 string.
///
/// # Errors
///
/// Returns an error if the `supported_groups` or `ec_point_formats` extension
/// contains an invalid vector encoding.
pub fn ja3_fingerprint(client_hello: &TlsClientHello) -> (r: Result<String, Error>)
    ensures
        match r {
            Ok(s) => {
                &&& ja3_source(client_hello@) is Ok
                &&& s@ == ascii_chars(hex_lower(md5_of(ja3_source(client_hello@)->Ok_0)))
                &&& s@.len() == 32
            },
            Err(e) => ja3_source(client_hello@) == Err::<Seq<u8>, Error>(e),
        },
{
    let source = ja3_string(client_hello)?;
    let digest = md5_digest(source.as_slice());
    Ok(hex_string(digest.as_slice()))
}

/// Computes the JA3S fingerprint of a parsed TLS `ServerHello`: the lowercase
/// hexadecimal MD5 digest of its JA3S string.
pub fn ja3s_fingerprint(server_hello: &TlsServerHello) -> (r: String)
    ensures
        r@ == ascii_chars(hex_lower(md5_of(ja3s_source(server_hello@)))),
        r@.len() == 32,
{
    let types = extension_type_values(server_hello.extensions());
    let mut source: Vec<u8> = Vec::new();
    push_decimal(&mut source, server_hello.legacy_version().as_u16() as u64);
    source.push(44u8);
    push_decimal(&mut source, server_hello.cipher_suite().as_u16() as u64);
    source.push(44u8);
    push_decimals_joined(&mut source, widen(types.as_slice()).as_slice());
    assert(source@ =~= ja3s_source(server_hello@));
    let digest = md5_digest(source.as_slice());
    hex_string(digest.as_slice())
}

/// The JA3 point-formats field lists every format byte of the first
/// `ec_point_formats` extension, in order, in decimal and joined with `-`:
/// a payload of a count `n` followed by `n` format bytes gives all `n`.
pub proof fn law_ja3_point_formats_lists_every_format(exts: Seq<ExtensionModel>, formats: Seq<u8>)
    requires
        formats.len() < 256,
        find_extension(exts, 0x000b) matches Some(e) && e.data == seq![formats.len() as u8]
            + formats,
    ensures
        ja3_point_formats(exts) == Ok::<Seq<u8>, Error>(
            decimals_joined(formats.map_values(|v: u8| v as int)),
        ),
{
    let d = find_extension(exts, 0x000b)->Some_0.data;
    assert(d[0] == formats.len());
    assert(d.subrange(1, 1 + formats.len() as int) =~= formats);
}

/// The JA3 groups field lists every group of the first `supported_groups`
/// extension that is not a GREASE value, in order, in decimal and joined
/// with `-`: a payload of a two-byte length followed by the groups' bytes
/// gives all of them.
pub proof fn law_ja3_groups_lists_every_group(exts: Seq<ExtensionModel>, groups: Seq<u16>)
    requires
        2 * groups.len() <= 0xffff,
        find_extension(exts, 0x000a) matches Some(e) && e.data == be16(2 * groups.len() as int)
            + be16_list(groups),
    ensures
        ja3_groups(exts) == Ok::<Seq<u8>, Error>(decimals_joined(ints16(non_grease(groups)))),
{
    let d = find_extension(exts, 0x000a)->Some_0.data;
    crate::wire::lemma_be16_list_round_trip(groups);
    assert(u16_at(d, 0) == 2 * groups.len());
    assert(d.subrange(2, 2 + 2 * groups.len() as int) =~= be16_list(groups));
}

/// GREASE values leave no trace in JA3: a `ClientHello` that also offers a
/// GREASE cipher suite and a GREASE-typed extension in front of its own has
/// the same JA3 string.
pub proof fn law_ja3_ignores_grease(m: ClientHelloModel, suite: u16, extension: ExtensionModel)
    requires
        is_grease_value(suite),
        is_grease_value(extension.ext_type),
    ensures
        ja3_source(
            ClientHelloModel {
                cipher_suites: seq![suite] + m.cipher_suites,
                extensions: seq![extension] + m.extensions,
                ..m
            },
        ) == ja3_source(m),
{
    let exts = seq![extension] + m.extensions;
    let pred = |v: u16| !is_grease_value(v);
    Seq::filter_distributes_over_add(seq![suite], m.cipher_suites, pred);
    reveal_with_fuel(Seq::<_>::filter, 2);
    assert(seq![suite].filter(pred) =~= Seq::<u16>::empty());
    assert(non_grease(seq![suite] + m.cipher_suites) =~= non_grease(m.cipher_suites));
    assert(extension_types_of(exts) =~= seq![extension.ext_type] + extension_types_of(m.extensions));
    Seq::filter_distributes_over_add(seq![extension.ext_type], extension_types_of(m.extensions), pred);
    assert(seq![extension.ext_type].filter(pred) =~= Seq::<u16>::empty());
    assert(non_grease(extension_types_of(exts)) =~= non_grease(extension_types_of(m.extensions)));
    assert(exts.drop_first() =~= m.extensions);
    assert(find_extension(exts, 0x000a) == find_extension(m.extensions, 0x000a));
    assert(find_extension(exts, 0x000b) == find_extension(m.extensions, 0x000b));
}

} // verus!
