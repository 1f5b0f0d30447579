use vstd::prelude::*;

verus! {

/// The error that `hex::decode` reports.
#[verifier::external_type_specification]
#[verifier::external_body]
pub struct ExFromHexError(hex::FromHexError);

/// Is `c` a hexadecimal digit, in either case.
pub open spec fn is_hex_digit(c: char) -> bool {
    ('0' <= c && c <= '9') || ('a' <= c && c <= 'f') || ('A' <= c && c <= 'F')
}

/// The value of a hexadecimal digit.
pub open spec fn hex_value(c: char) -> int {
    if '0' <= c && c <= '9' {
        c as int - '0' as int
    } else if 'a' <= c && c <= 'f' {
        c as int - 'a' as int + 10
    } else {
        c as int - 'A' as int + 10
    }
}

/// The lower-case hexadecimal digit of a value below sixteen.
pub open spec fn lower_hex_digit(v: int) -> char {
    if v < 10 {
        (v + '0' as int) as char
    } else {
        (v - 10 + 'a' as int) as char
    }
}

/// Lower-case hexadecimal text of `bytes`: two digits per byte, high
/// nibble first.
pub open spec fn hex_lower(bytes: Seq<u8>) -> Seq<char> {
    Seq::new(
        2 * bytes.len(),
        |i: int|
            lower_hex_digit(
                if i % 2 == 0 {
                    bytes[i / 2] / 16
                } else {
                    bytes[i / 2] % 16
                } as int,
            ),
    )
}

/// Text that hex-decodes: an even number of hexadecimal digits.
pub open spec fn is_hex_string(s: Seq<char>) -> bool {
    &&& s.len() % 2 == 0
    &&& forall|i: int| 0 <= i < s.len() ==> is_hex_digit(#[trigger] s[i])
}

/// The bytes that hexadecimal text stands for, two digits per byte.
pub open spec fn hex_decoded(s: Seq<char>) -> Seq<u8> {
    Seq::new(s.len() / 2, |i: int| (hex_value(s[2 * i]) * 16 + hex_value(s[2 * i + 1])) as u8)
}

/// Hex-encodes `data` with `hex::encode`.
///
/// Trusted: the text is two lower-case digits per byte, high nibble first,
/// as the crate's documentation and its lower-case digit table show.
#[verifier::external_body]
pub(crate) fn hex_encode(data: &[u8]) -> (s: String)
    ensures
        s@ == hex_lower(data@),
{
    hex::encode(data)
}

/// Hex-decodes the bytes of `s` with `hex::decode`.
///
/// Trusted: it succeeds exactly on an even number of hexadecimal digits of
/// either case, and then gives one byte per pair, high nibble first. Which
/// error it reports otherwise is left unsaid.
#[verifier::external_body]
pub(crate) fn hex_decode(s: &str) -> (r: Result<Vec<u8>, hex::FromHexError>)
    ensures
        r is Ok <==> is_hex_string(s@),
        r matches Ok(v) ==> v@ == hex_decoded(s@),
{
    hex::decode(s)
}

/// Why a generation signature could not be decoded.
#[derive(Debug, Clone, Copy, PartialEq, Eq, Structural)]
pub enum GensigError {
    /// The text is not an even number of hexadecimal digits.
    InvalidHex,
    /// The text decodes, but not to 32 bytes.
    WrongLength,
}

/// The result of decoding a generation signature given as text.
pub open spec fn spec_decode_gensig(s: Seq<char>) -> Result<Seq<u8>, GensigError> {
    if !is_hex_string(s) {
        Err(GensigError::InvalidHex)
    } else if s.len() != 64 {
        Err(GensigError::WrongLength)
    } else {
        Ok(hex_decoded(s))
    }
}

/// Decodes a 32-byte generation signature from its hexadecimal text.
pub fn decode_gensig(gensig: &str) -> (r: Result<[u8; 32], GensigError>)
    ensures
        match r {
            Ok(g) => spec_decode_gensig(gensig@) == Ok::<Seq<u8>, GensigError>(g@),
            Err(e) => spec_decode_gensig(gensig@) == Err::<Seq<u8>, GensigError>(e),
        },
{
    let decoded = hex_decode(gensig);
    match decoded {
        Err(_) => Err(GensigError::InvalidHex),
        Ok(bytes) => {
            if bytes.len() != 32 {
                return Err(GensigError::WrongLength);
            }
            let mut g = [0u8; 32];
            let mut i: usize = 0;
            while i < 32
                invariant
                    i <= 32,
                    bytes@.len() == 32,
                    forall|t: int| 0 <= t < i ==> g@[t] == bytes@[t],
                decreases 32 - i,
            {
                g[i] = bytes[i];
                i = i + 1;
            }
            assert(g@ =~= bytes@);
            Ok(g)
        },
    }
}

/// Lower-case hexadecimal text of `data`, two digits per byte, as
/// `hex::encode` writes it.
pub fn encode_hex(data: &[u8]) -> (s: String)
    ensures
        s@ == hex_lower(data@),
{
    hex_encode(data)
}

proof fn lemma_nibble_roundtrip(v: int)
    requires
        0 <= v < 16,
    ensures
        is_hex_digit(lower_hex_digit(v)),
        hex_value(lower_hex_digit(v)) == v,
{
}

/// Hex-encoding bytes and decoding the text gives the bytes back.
pub proof fn lemma_hex_roundtrip(bytes: Seq<u8>)
    ensures
        is_hex_string(hex_lower(bytes)),
        hex_decoded(hex_lower(bytes)) == bytes,
{
    let s = hex_lower(bytes);
    assert forall|i: int| 0 <= i < s.len() implies is_hex_digit(#[trigger] s[i]) by {
        let b = bytes[i / 2];
        lemma_nibble_roundtrip((b / 16) as int);
        lemma_nibble_roundtrip((b % 16) as int);
    }
    assert forall|i: int| 0 <= i < bytes.len() implies #[trigger] hex_decoded(s)[i] == bytes[i] by {
        let b = bytes[i];
        lemma_nibble_roundtrip((b / 16) as int);
        lemma_nibble_roundtrip((b % 16) as int);
        assert((2 * i) / 2 == i);
        assert((2 * i + 1) / 2 == i);
        assert((2 * i) % 2 == 0);
        assert((2 * i + 1) % 2 == 1);
        assert((b / 16) * 16 + b % 16 == b);
    }
    assert(hex_decoded(s) =~= bytes);
}

/// A generation signature survives being written as hexadecimal text and
/// decoded again.
pub proof fn lemma_gensig_hex_roundtrip(gensig: Seq<u8>)
    requires
        gensig.len() == 32,
    ensures
        spec_decode_gensig(hex_lower(gensig)) == Ok::<Seq<u8>, GensigError>(gensig),
{
    lemma_hex_roundtrip(gensig);
}

} // verus!
