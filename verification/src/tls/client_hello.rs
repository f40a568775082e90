use vstd::prelude::*;

use crate::error::{eof, overflow, Error};
use crate::tls::{
    encode_extensions, extension_fits, extension_models, lemma_encode_extensions_push,
    lemma_parse_extensions_fit, parse_extension_list, parse_extensions, ExtensionModel,
    TlsCipherSuite, TlsExtension, TlsReader, TlsVersion, legacy_version_of,
};
use crate::utils::random_32_bytes;
use crate::wire::{be16, be16_list, lemma_be16_list_push, u16_at, u16_list, u16_to_be};

verus! {

/// Reported when a `ClientHello` declares a session ID longer than 32 bytes.
pub open spec fn client_session_id_too_long() -> Error {
    Error::Malformed("ClientHello session ID exceeds 32 bytes")
}

/// Reported when the cipher-suite list is empty or of odd length.
pub open spec fn client_bad_cipher_suites() -> Error {
    Error::Malformed("ClientHello cipher-suite list must contain complete 16-bit values")
}

/// Reported when the compression-method list is empty.
pub open spec fn client_no_compression() -> Error {
    Error::Malformed("ClientHello must contain at least one compression method")
}

/// Reported when bytes follow the extension block.
pub open spec fn client_trailing_bytes() -> Error {
    Error::Malformed("trailing bytes after ClientHello extensions")
}

/// Reported when a `ClientHello` is built without any cipher suite.
pub open spec fn client_without_cipher_suites() -> Error {
    Error::Malformed("ClientHello must contain at least one cipher suite")
}

/// What a `ClientHello` body holds.
pub struct ClientHelloModel {
    pub legacy_version: u16,
    pub random: Seq<u8>,
    pub session_id: Seq<u8>,
    pub cipher_suites: Seq<u16>,
    pub compression_methods: Seq<u8>,
    pub extensions: Seq<ExtensionModel>,
}

/// The values of a list of cipher suites.
pub open spec fn suite_values(v: Seq<TlsCipherSuite>) -> Seq<u16> {
    v.map_values(|c: TlsCipherSuite| c.0)
}

/// Every field of a `ClientHello` fits the length field in front of it.
pub open spec fn client_hello_valid(m: ClientHelloModel) -> bool {
    &&& m.random.len() == 32
    &&& m.session_id.len() <= 32
    &&& 1 <= m.cipher_suites.len() <= 0x7fff
    &&& 1 <= m.compression_methods.len() <= 0xff
    &&& forall|i: int| 0 <= i < m.extensions.len() ==> #[trigger] extension_fits(m.extensions[i])
}

/// The wire form of a `ClientHello` body.
pub open spec fn encode_client_hello(m: ClientHelloModel) -> Seq<u8> {
    be16(m.legacy_version as int) + m.random + seq![m.session_id.len() as u8] + m.session_id + be16(
        2 * m.cipher_suites.len() as int,
    ) + be16_list(m.cipher_suites) + seq![m.compression_methods.len() as u8]
        + m.compression_methods + be16(encode_extensions(m.extensions).len() as int)
        + encode_extensions(m.extensions)
}

/// The extensions of a `ClientHello` body whose extension block starts at
/// offset `r`; the block is optional.
pub open spec fn client_hello_extensions(b: Seq<u8>, r: int) -> Result<Seq<ExtensionModel>, Error> {
    if r == b.len() {
        Ok(Seq::empty())
    } else if b.len() < r + 2 {
        Err(eof(2, b.len() - r))
    } else {
        let n: int = u16_at(b, r) as int;
        if b.len() < r + 2 + n {
            Err(eof(n, b.len() - r - 2))
        } else if b.len() != r + 2 + n {
            Err(client_trailing_bytes())
        } else {
            parse_extensions(b.subrange(r + 2, r + 2 + n))
        }
    }
}

/// The `ClientHello` a body encodes, or the error its parse reports.
pub open spec fn parse_client_hello(b: Seq<u8>) -> Result<ClientHelloModel, Error> {
    if b.len() < 2 {
        Err(eof(2, b.len() as int))
    } else if b.len() < 34 {
        Err(eof(32, b.len() - 2))
    } else if b.len() < 35 {
        Err(eof(1, 0))
    } else if b[34] > 32 {
        Err(client_session_id_too_long())
    } else if b.len() < 35 + b[34] {
        Err(eof(b[34] as int, b.len() - 35))
    } else {
        let p: int = 35 + b[34];
        if b.len() < p + 2 {
            Err(eof(2, b.len() - p))
        } else {
            let cs_len: int = u16_at(b, p) as int;
            if cs_len == 0 || cs_len % 2 != 0 {
                Err(client_bad_cipher_suites())
            } else if b.len() < p + 2 + cs_len {
                Err(eof(cs_len, b.len() - p - 2))
            } else {
                let q: int = p + 2 + cs_len;
                if b.len() < q + 1 {
                    Err(eof(1, 0))
                } else if b[q] == 0 {
                    Err(client_no_compression())
                } else if b.len() < q + 1 + b[q] {
                    Err(eof(b[q] as int, b.len() - q - 1))
                } else {
                    let r: int = q + 1 + b[q];
                    match client_hello_extensions(b, r) {
                        Ok(exts) => Ok(
                            ClientHelloModel {
                                legacy_version: u16_at(b, 0),
                                random: b.subrange(2, 34),
                                session_id: b.subrange(35, p),
                                cipher_suites: u16_list(b.subrange(p + 2, q)),
                                compression_methods: b.subrange(q + 1, r),
                                extensions: exts,
                            },
                        ),
                        Err(e) => Err(e),
                    }
                }
            }
        }
    }
}

/// Encoding a `ClientHello` that a body parses into gives the body back,
/// followed by an empty extension block when the body had none.
pub proof fn law_client_hello_reencode(b: Seq<u8>)
    requires
        parse_client_hello(b) is Ok,
    ensures
        ({
            let m = parse_client_hello(b)->Ok_0;
            let fixed = 38 + m.session_id.len() + 2 * m.cipher_suites.len()
                + m.compression_methods.len();
            &&& b.len() == fixed ==> encode_client_hello(m) == b + seq![0u8, 0u8]
            &&& b.len() != fixed ==> encode_client_hello(m) == b
        }),
{
    let m = parse_client_hello(b)->Ok_0;
    let p: int = 35 + b[34];
    let cs_len: int = u16_at(b, p) as int;
    let q: int = p + 2 + cs_len;
    let r: int = q + 1 + b[q];
    lemma_client_hello_head(b);
    if r == b.len() {
        assert(m.extensions =~= Seq::<ExtensionModel>::empty());
        assert(encode_extensions(m.extensions) =~= Seq::<u8>::empty());
        assert(b.subrange(0, r) =~= b);
        assert(encode_client_hello(m) =~= b + seq![0u8, 0u8]);
    } else {
        let n: int = u16_at(b, r) as int;
        let block = b.subrange(r + 2, r + 2 + n);
        crate::tls::law_extensions_reencode(block);
        crate::wire::lemma_be16_of_bytes(b[r], b[r + 1]);
        assert(encode_extensions(m.extensions) == block);
        assert(b.subrange(0, r) + seq![b[r], b[r + 1]] + block =~= b);
        assert(encode_client_hello(m) =~= b);
    }
}

/// The fields before the extension block of a `ClientHello` that a body
/// parses into encode to the body's bytes before that block.
proof fn lemma_client_hello_head(b: Seq<u8>)
    requires
        parse_client_hello(b) is Ok,
    ensures
        ({
            let m = parse_client_hello(b)->Ok_0;
            let r: int = (38 + m.session_id.len() + 2 * m.cipher_suites.len()
                + m.compression_methods.len()) as int;
            &&& r == 38 + b[34] + u16_at(b, 35 + b[34]) + b[37 + b[34] + u16_at(b, 35 + b[34])]
            &&& be16(m.legacy_version as int) + m.random + seq![m.session_id.len() as u8]
                + m.session_id + be16(2 * m.cipher_suites.len() as int) + be16_list(
                m.cipher_suites,
            ) + seq![m.compression_methods.len() as u8] + m.compression_methods == b.subrange(
                0,
                r,
            )
        }),
{
    let m = parse_client_hello(b)->Ok_0;
    let p: int = 35 + b[34];
    let cs_len: int = u16_at(b, p) as int;
    let q: int = p + 2 + cs_len;
    let r: int = q + 1 + b[q];
    let cs = b.subrange(p + 2, q);
    assert(m.legacy_version == u16_at(b, 0));
    assert(m.random == b.subrange(2, 34));
    assert(m.session_id == b.subrange(35, p));
    assert(m.cipher_suites == u16_list(cs));
    assert(m.compression_methods == b.subrange(q + 1, r));
    crate::wire::lemma_u16_list_encodes(cs);
    crate::wire::lemma_be16_of_bytes(b[0], b[1]);
    crate::wire::lemma_be16_of_bytes(b[p], b[p + 1]);
    assert(be16(m.legacy_version as int) == b.subrange(0, 2));
    assert(be16(2 * m.cipher_suites.len() as int) == b.subrange(p, p + 2));
    assert(seq![m.session_id.len() as u8] =~= b.subrange(34, 35));
    assert(seq![m.compression_methods.len() as u8] =~= b.subrange(q, q + 1));
    assert(b.subrange(0, 2) + b.subrange(2, 34) + b.subrange(34, 35) + b.subrange(35, p)
        + b.subrange(p, p + 2) + b.subrange(p + 2, q) + b.subrange(q, q + 1) + b.subrange(
        q + 1,
        r,
    ) =~= b.subrange(0, r));
}

/// A valid `ClientHello` whose extensions fit their 16-bit block length
/// decodes from its wire form to itself.
pub proof fn law_client_hello_round_trip(m: ClientHelloModel)
    requires
        client_hello_valid(m),
        encode_extensions(m.extensions).len() <= 0xffff,
    ensures
        parse_client_hello(encode_client_hello(m)) == Ok::<ClientHelloModel, Error>(m),
{
    let b = encode_client_hello(m);
    let sid = m.session_id.len() as int;
    let ncs = m.cipher_suites.len() as int;
    let ncm = m.compression_methods.len() as int;
    let ext = encode_extensions(m.extensions);
    let p = 35 + sid;
    let q = p + 2 + 2 * ncs;
    let r = q + 1 + ncm;
    crate::wire::lemma_be16_list_round_trip(m.cipher_suites);
    assert(b.len() == r + 2 + ext.len());
    assert(u16_at(b, 0) == m.legacy_version);
    assert(b.subrange(2, 34) =~= m.random);
    assert(b[34] == sid);
    assert(b.subrange(35, p) =~= m.session_id);
    assert(u16_at(b, p) == 2 * ncs);
    assert(b.subrange(p + 2, q) =~= be16_list(m.cipher_suites));
    assert(b[q] == ncm);
    assert(b.subrange(q + 1, r) =~= m.compression_methods);
    assert(u16_at(b, r) == ext.len());
    assert(b.subrange(r + 2, r + 2 + ext.len()) =~= ext);
    crate::tls::law_extensions_round_trip(m.extensions);
}

/// A TLS `ClientHello` handshake body.
///
/// This type represents only the `ClientHello` body. It does not include the
/// TLS handshake header or TLS record header.
///
/// ```text
/// +--------------------------------------------------+
/// | Legacy Version       2 bytes                     |
/// | Random              32 bytes                     |
/// | Session ID Length    1 byte                      |
/// | Session ID           N bytes                     |
/// | Cipher Suites Length 2 bytes                     |
/// | Cipher Suites        N x 2 bytes                 |
/// | Compression Length   1 byte                      |
/// | Compression Methods  N bytes                     |
/// | Extensions Length    2 bytes                     |
/// | Extensions           N bytes                     |
/// +--------------------------------------------------+
/// ```
#[derive(Debug)]
pub struct TlsClientHello {
    legacy_version: TlsVersion,
    random: [u8; 32],
    session_id: Vec<u8>,
    cipher_suites: Vec<TlsCipherSuite>,
    compression_methods: Vec<u8>,
    extensions: Vec<TlsExtension>,
}

impl View for TlsClientHello {
    type V = ClientHelloModel;

    closed spec fn view(&self) -> ClientHelloModel {
        ClientHelloModel {
            legacy_version: self.legacy_version@,
            random: self.random@,
            session_id: self.session_id@,
            cipher_suites: suite_values(self.cipher_suites@),
            compression_methods: self.compression_methods@,
            extensions: extension_models(self.extensions@),
        }
    }
}

impl TlsClientHello {
    #[verifier::type_invariant]
    spec fn well_formed(self) -> bool {
        client_hello_valid(self@)
    }

    /// Creates a new TLS `ClientHello` body.
    ///
    /// TLS 1.3 is encoded with the TLS 1.2 legacy version. The random value and
    /// the 32-byte session ID are drawn from the operating system.
    ///
    /// # Errors
    ///
    /// Returns [`Error::Malformed`] if `cipher_suites` is empty. Returns
    /// [`Error::LengthOverflow`] if the cipher-suite list exceeds the maximum
    /// size representable by its 16-bit length field.
    pub fn new(version: TlsVersion, cipher_suites: Vec<TlsCipherSuite>, extensions: Vec<
        TlsExtension,
    >) -> (r: Result<Self, Error>)
        ensures
            match r {
                Ok(h) => new_client_hello_error(suite_values(cipher_suites@)) is None && exists|
                    random: Seq<u8>,
                    session_id: Seq<u8>,
                |
                    random.len() == 32 && session_id.len() == 32 && h@ == new_client_hello(
                        version@,
                        suite_values(cipher_suites@),
                        extension_models(extensions@),
                        random,
                        session_id,
                    ),
                Err(e) => new_client_hello_error(suite_values(cipher_suites@)) == Some(e),
            },
            new_client_hello_error(suite_values(cipher_suites@)) is None ==> r is Ok,
    {
        let random = random_32_bytes();
        let session_id = random_32_bytes();
        Self::with_random(version, cipher_suites, extensions, random, session_id)
    }

    /// Creates a `ClientHello` body with the given random value and session
    /// ID; [`TlsClientHello::new`] draws both from the operating system.
    ///
    /// # Errors
    ///
    /// As [`TlsClientHello::new`].
    pub fn with_random(
        version: TlsVersion,
        cipher_suites: Vec<TlsCipherSuite>,
        extensions: Vec<TlsExtension>,
        random: [u8; 32],
        session_id: [u8; 32],
    ) -> (r: Result<Self, Error>)
        ensures
            match r {
                Ok(h) => {
                    &&& new_client_hello_error(suite_values(cipher_suites@)) is None
                    &&& h@ == new_client_hello(
                        version@,
                        suite_values(cipher_suites@),
                        extension_models(extensions@),
                        random@,
                        session_id@,
                    )
                },
                Err(e) => new_client_hello_error(suite_values(cipher_suites@)) == Some(e),
            },
    {
        if cipher_suites.len() == 0 {
            return Err(Error::Malformed("ClientHello must contain at least one cipher suite"));
        }
        let encoded_length = match cipher_suites.len().checked_mul(2) {
            Some(n) => n,
            None => return Err(Error::LengthOverflow { max: 0xffff, actual: usize::MAX }),
        };
        if encoded_length > 0xffff {
            return Err(Error::LengthOverflow { max: 0xffff, actual: encoded_length });
        }
        let mut i: usize = 0;
        while i < extensions.len()
            invariant
                i <= extensions@.len(),
                forall|j: int| 0 <= j < i ==> #[trigger] extension_fits(extensions@[j]@),
            decreases extensions@.len() - i,
        {
            let extension = &extensions[i];
            proof {
                use_type_invariant(extension);
            }
            i = i + 1;
        }
        let hello = Self {
            legacy_version: version.legacy_version(),
            random,
            session_id: vstd::slice::slice_to_vec(&session_id),
            cipher_suites,
            compression_methods: vec![0u8],
            extensions,
        };
        assert(hello@.compression_methods =~= seq![0u8]);
        assert(hello@ == new_client_hello(
            version@,
            suite_values(hello.cipher_suites@),
            extension_models(hello.extensions@),
            random@,
            session_id@,
        ));
        Ok(hello)
    }

    /// Parses a TLS `ClientHello` body.
    ///
    /// The input must begin with the legacy version and must not include a TLS
    /// handshake header or record header.
    ///
    /// # Errors
    ///
    /// Returns [`Error::UnexpectedEof`] if a declared field extends beyond the
    /// input. Returns [`Error::Malformed`] for an invalid session ID,
    /// cipher-suite list, compression-method list, extension block, or trailing
    /// bytes.
    pub fn try_from_bytes(bytes: &[u8]) -> (r: Result<Self, Error>)
        ensures
            match r {
                Ok(h) => {
                    &&& parse_client_hello(bytes@) == Ok::<ClientHelloModel, Error>(h@)
                    &&& client_hello_valid(h@)
                },
                Err(e) => parse_client_hello(bytes@) == Err::<ClientHelloModel, Error>(e),
            },
    {
        let ghost b = bytes@;
        let mut reader = TlsReader::new(bytes);
        let legacy_version = TlsVersion(reader.read_u16()?);
        let random = reader.read_array::<32>()?;
        let session_id_length = reader.read_u8()? as usize;
        if session_id_length > 32 {
            return Err(Error::Malformed("ClientHello session ID exceeds 32 bytes"));
        }
        let session_id = vstd::slice::slice_to_vec(reader.read_bytes(session_id_length)?);
        let ghost p: int = 35 + session_id_length;
        let cipher_suites_length = reader.read_u16()? as usize;
        if cipher_suites_length == 0 || cipher_suites_length % 2 != 0 {
            return Err(
                Error::Malformed("ClientHello cipher-suite list must contain complete 16-bit values"),
            );
        }
        let cipher_suites_data = reader.read_bytes(cipher_suites_length)?;
        let mut cipher_suites_reader = TlsReader::new(cipher_suites_data);
        let mut cipher_suites: Vec<TlsCipherSuite> = Vec::with_capacity(cipher_suites_length / 2);
        assert(suite_values(cipher_suites@) =~= u16_list(cipher_suites_data@).take(0));
        while !cipher_suites_reader.is_empty()
            invariant
                cipher_suites_reader.data() == cipher_suites_data@,
                cipher_suites_reader.valid(),
                cipher_suites_data@.len() % 2 == 0,
                cipher_suites_reader.pos() % 2 == 0,
                suite_values(cipher_suites@) =~= u16_list(cipher_suites_data@).take(
                    cipher_suites_reader.pos() / 2,
                ),
            decreases cipher_suites_reader.data().len() - cipher_suites_reader.pos(),
        {
            let ghost pos = cipher_suites_reader.pos();
            let ghost before = suite_values(cipher_suites@);
            let suite = cipher_suites_reader.read_u16()?;
            cipher_suites.push(TlsCipherSuite(suite));
            assert(u16_list(cipher_suites_data@)[pos / 2] == suite);
            assert(suite_values(cipher_suites@) =~= before.push(suite));
            assert((pos + 2) / 2 == pos / 2 + 1);
            assert(u16_list(cipher_suites_data@).take(pos / 2 + 1) =~= u16_list(
                cipher_suites_data@,
            ).take(pos / 2).push(suite));
            assert(suite_values(cipher_suites@) =~= u16_list(cipher_suites_data@).take(
                cipher_suites_reader.pos() / 2,
            ));
        }
        assert(suite_values(cipher_suites@) =~= u16_list(cipher_suites_data@));
        let ghost q: int = p + 2 + cipher_suites_length;
        let compression_methods_length = reader.read_u8()? as usize;
        if compression_methods_length == 0 {
            return Err(Error::Malformed("ClientHello must contain at least one compression method"));
        }
        let compression_methods = vstd::slice::slice_to_vec(
            reader.read_bytes(compression_methods_length)?,
        );
        let ghost r: int = q + 1 + compression_methods_length;
        let mut extensions: Vec<TlsExtension> = Vec::new();
        if !reader.is_empty() {
            let extensions_length = reader.read_u16()? as usize;
            let extensions_data = reader.read_bytes(extensions_length)?;
            if !reader.is_empty() {
                return Err(Error::Malformed("trailing bytes after ClientHello extensions"));
            }
            extensions = parse_extension_list(extensions_data)?;
            proof {
                lemma_parse_extensions_fit(extensions_data@);
            }
        }
        assert(extension_models(extensions@) == client_hello_extensions(b, r)->Ok_0);
        let hello = Self {
            legacy_version,
            random,
            session_id,
            cipher_suites,
            compression_methods,
            extensions,
        };
        assert(hello@.random =~= b.subrange(2, 34));
        assert(hello@.session_id =~= b.subrange(35, p));
        assert(cipher_suites_data@ =~= b.subrange(p + 2, q));
        assert(hello@.compression_methods =~= b.subrange(q + 1, r));
        Ok(hello)
    }

    /// Encodes this `ClientHello` body.
    ///
    /// # Errors
    ///
    /// Returns [`Error::LengthOverflow`] if the encoded extensions exceed the
    /// maximum size representable by their 16-bit length field.
    pub fn try_to_bytes(&self) -> (r: Result<Vec<u8>, Error>)
        ensures
            client_hello_valid(self@),
            match r {
                Ok(b) => {
                    &&& encode_extensions(self@.extensions).len() <= 0xffff
                    &&& b@ == encode_client_hello(self@)
                },
                Err(e) => {
                    &&& encode_extensions(self@.extensions).len() > 0xffff
                    &&& e == overflow(0xffff, encode_extensions(self@.extensions).len() as int)
                },
            },
    {
        proof {
            use_type_invariant(self);
        }
        let mut body: Vec<u8> = Vec::new();
        body.extend_from_slice(&self.legacy_version.to_be_bytes());
        body.extend_from_slice(&self.random);
        body.push(self.session_id.len() as u8);
        body.extend_from_slice(self.session_id.as_slice());
        let cipher_suites_length = (self.cipher_suites.len() * 2) as u16;
        body.extend_from_slice(&u16_to_be(cipher_suites_length));
        let ghost prefix = body@;
        let mut i: usize = 0;
        while i < self.cipher_suites.len()
            invariant
                i <= self.cipher_suites@.len(),
                body@ =~= prefix + be16_list(suite_values(self.cipher_suites@).take(i as int)),
            decreases self.cipher_suites@.len() - i,
        {
            let ghost done = suite_values(self.cipher_suites@).take(i as int);
            body.extend_from_slice(&self.cipher_suites[i].to_be_bytes());
            proof {
                lemma_be16_list_push(done, self.cipher_suites@[i as int].0);
                assert(suite_values(self.cipher_suites@).take(i + 1) =~= done.push(
                    self.cipher_suites@[i as int].0,
                ));
            }
            i = i + 1;
        }
        assert(suite_values(self.cipher_suites@).take(i as int) =~= suite_values(
            self.cipher_suites@,
        ));
        body.push(self.compression_methods.len() as u8);
        body.extend_from_slice(self.compression_methods.as_slice());
        let mut encoded_extensions: Vec<u8> = Vec::new();
        let mut j: usize = 0;
        while j < self.extensions.len()
            invariant
                j <= self.extensions@.len(),
                encoded_extensions@ =~= encode_extensions(
                    extension_models(self.extensions@).take(j as int),
                ),
            decreases self.extensions@.len() - j,
        {
            let ghost done = extension_models(self.extensions@).take(j as int);
            encoded_extensions.extend_from_slice(self.extensions[j].to_bytes().as_slice());
            proof {
                lemma_encode_extensions_push(done, self.extensions@[j as int]@);
                assert(extension_models(self.extensions@).take(j + 1) =~= done.push(
                    self.extensions@[j as int]@,
                ));
            }
            j = j + 1;
        }
        assert(extension_models(self.extensions@).take(j as int) =~= extension_models(
            self.extensions@,
        ));
        if encoded_extensions.len() > 0xffff {
            return Err(Error::LengthOverflow { max: 0xffff, actual: encoded_extensions.len() });
        }
        body.extend_from_slice(&u16_to_be(encoded_extensions.len() as u16));
        body.extend_from_slice(encoded_extensions.as_slice());
        assert(body@ =~= encode_client_hello(self@));
        Ok(body)
    }

    /// Returns the legacy version carried in the `ClientHello` body.
    pub fn legacy_version(&self) -> (r: TlsVersion)
        ensures
            r@ == self@.legacy_version,
    {
        self.legacy_version
    }

    /// Returns the client random value.
    pub fn random(&self) -> (r: &[u8; 32])
        ensures
            r@ == self@.random,
    {
        &self.random
    }

    /// Returns the legacy session ID.
    pub fn session_id(&self) -> (r: &[u8])
        ensures
            r@ == self@.session_id,
    {
        self.session_id.as_slice()
    }

    /// Returns the offered cipher suites in wire order.
    pub fn cipher_suites(&self) -> (r: &[TlsCipherSuite])
        ensures
            suite_values(r@) == self@.cipher_suites,
    {
        self.cipher_suites.as_slice()
    }

    /// Returns the offered compression methods in wire order.
    pub fn compression_methods(&self) -> (r: &[u8])
        ensures
            r@ == self@.compression_methods,
    {
        self.compression_methods.as_slice()
    }

    /// Returns the extensions in wire order.
    pub fn extensions(&self) -> (r: &[TlsExtension])
        ensures
            extension_models(r@) == self@.extensions,
    {
        self.extensions.as_slice()
    }
}

/// The `ClientHello` [`TlsClientHello::new`] builds: the legacy form of the
/// version, the given random value, session ID, cipher suites and
/// extensions, and the null compression method alone.
pub open spec fn new_client_hello(
    version: u16,
    cipher_suites: Seq<u16>,
    extensions: Seq<ExtensionModel>,
    random: Seq<u8>,
    session_id: Seq<u8>,
) -> ClientHelloModel {
    ClientHelloModel {
        legacy_version: legacy_version_of(version),
        random,
        session_id,
        cipher_suites,
        compression_methods: seq![0u8],
        extensions,
    }
}

/// The error [`TlsClientHello::new`] reports for a list of cipher suites, if any.
pub open spec fn new_client_hello_error(cipher_suites: Seq<u16>) -> Option<Error> {
    if cipher_suites.len() == 0 {
        Some(client_without_cipher_suites())
    } else if 2 * cipher_suites.len() > usize::MAX {
        Some(overflow(0xffff, usize::MAX as int))
    } else if 2 * cipher_suites.len() > 0xffff {
        Some(overflow(0xffff, 2 * cipher_suites.len() as int))
    } else {
        None
    }
}

} // verus!
