//! Versioned container around one module's compiled bytecode.
//!
//! Layout (little-endian):
//! - bytes 0..4: four-byte format version tag,
//! - byte 4: compression flag (0 = uncompressed, 1 = compressed),
//! - bytes 5..9: original (uncompressed) payload size, present if and only if
//!   the flag says "compressed",
//! - the payload.
//!
//! A reader must reject a buffer whose tag differs from the compiled-in tag
//! before it looks at anything else in the buffer.

use vstd::prelude::*;
use vstd::bytes::{lemma_auto_spec_u32_to_from_le_bytes, spec_u32_from_le_bytes,
    spec_u32_to_le_bytes, u32_from_le_bytes, u32_to_le_bytes};
use vstd::slice::{slice_index_get, slice_subrange, slice_to_vec};

verus! {

/// First byte of the format version tag.
pub const TAG_BYTE_0: u8 = 0x42;

/// Second byte of the format version tag.
pub const TAG_BYTE_1: u8 = 0x43;

/// Third byte of the format version tag.
pub const TAG_BYTE_2: u8 = 0x30;

/// Fourth byte of the format version tag.
pub const TAG_BYTE_3: u8 = 0x31;

/// Flag byte of an uncompressed container.
pub const FLAG_UNCOMPRESSED: u8 = 0x00;

/// Flag byte of a compressed container.
pub const FLAG_COMPRESSED: u8 = 0x01;

/// The compiled-in four-byte version tag that every container starts with.
pub open spec fn format_tag() -> Seq<u8> {
    seq![TAG_BYTE_0, TAG_BYTE_1, TAG_BYTE_2, TAG_BYTE_3]
}

/// Why a buffer was rejected by [`decode`].
#[derive(Clone, Copy, Debug, PartialEq, Eq, Structural)]
pub enum FormatError {
    /// The buffer ends before the header it announces is complete.
    TooShort,
    /// The first four bytes differ from the compiled-in version tag.
    VersionMismatch,
    /// The flag byte is neither "uncompressed" nor "compressed".
    InvalidFlag,
    /// A payload too large for the header's 32-bit original-size field was
    /// offered for encoding; refused rather than silently truncated.
    OversizedPayload,
}

/// The fields read back out of a container.
#[derive(Debug)]
pub struct Decoded {
    /// Whether the payload is compressed.
    pub compressed: bool,
    /// The uncompressed payload size; present if and only if `compressed`.
    pub original_size: Option<u32>,
    /// The payload bytes that follow the header.
    pub payload: Vec<u8>,
}

/// The bytes of a container holding `payload`, marked `compressed`, with
/// `original_size` recorded in the header if and only if compressed.
pub open spec fn spec_encode(payload: Seq<u8>, compressed: bool, original_size: Option<u32>)
    -> Seq<u8> {
    format_tag()
        + seq![if compressed { FLAG_COMPRESSED } else { FLAG_UNCOMPRESSED }]
        + (if compressed { spec_u32_to_le_bytes(original_size.unwrap()) } else { Seq::empty() })
        + payload
}

/// A buffer that [`decode`] accepts: long enough for its header, carrying the
/// compiled-in tag and a known flag byte.
pub open spec fn spec_well_formed(bytes: Seq<u8>) -> bool {
    &&& bytes.len() >= 5
    &&& bytes.subrange(0, 4) == format_tag()
    &&& (bytes[4] == FLAG_UNCOMPRESSED || bytes[4] == FLAG_COMPRESSED)
    &&& (bytes[4] == FLAG_COMPRESSED ==> bytes.len() >= 9)
}

/// The error [`decode`] reports for a rejected buffer.  The version tag is
/// judged before anything after it.
pub open spec fn spec_decode_err(bytes: Seq<u8>) -> FormatError
    recommends !spec_well_formed(bytes),
{
    if bytes.len() < 4 {
        FormatError::TooShort
    } else if bytes.subrange(0, 4) != format_tag() {
        FormatError::VersionMismatch
    } else if bytes.len() < 5 {
        FormatError::TooShort
    } else if bytes[4] != FLAG_UNCOMPRESSED && bytes[4] != FLAG_COMPRESSED {
        FormatError::InvalidFlag
    } else {
        FormatError::TooShort
    }
}

/// Wrap `payload` in a container.  `original_size` must be given exactly when
/// `compressed` is set: it records the payload's pre-compression length, which
/// a reader needs to size its output buffer.
pub fn encode(payload: &[u8], compressed: bool, original_size: Option<u32>) -> (r: Vec<u8>)
    requires
        compressed <==> original_size is Some,
        payload@.len() + 9 <= usize::MAX,
    ensures
        r@ == spec_encode(payload@, compressed, original_size),
{
    let mut out: Vec<u8> = Vec::new();
    out.push(TAG_BYTE_0);
    out.push(TAG_BYTE_1);
    out.push(TAG_BYTE_2);
    out.push(TAG_BYTE_3);
    assert(out@ =~= format_tag());
    if compressed {
        out.push(FLAG_COMPRESSED);
        let size_bytes = u32_to_le_bytes(original_size.unwrap());
        let mut i: usize = 0;
        while i < size_bytes.len()
            invariant
                i <= size_bytes.len(),
                size_bytes@ == spec_u32_to_le_bytes(original_size.unwrap()),
                out@ == format_tag() + seq![FLAG_COMPRESSED] + size_bytes@.subrange(0, i as int),
            decreases size_bytes.len() - i,
        {
            out.push(size_bytes[i]);
            assert(size_bytes@.subrange(0, i + 1)
                =~= size_bytes@.subrange(0, i as int).push(size_bytes@[i as int]));
            i = i + 1;
        }
        assert(size_bytes@.subrange(0, 4) =~= size_bytes@);
    } else {
        out.push(FLAG_UNCOMPRESSED);
    }
    let ghost header = out@;
    let mut j: usize = 0;
    while j < payload.len()
        invariant
            j <= payload@.len(),
            out@ == header + payload@.subrange(0, j as int),
        decreases payload@.len() - j,
    {
        out.push(*slice_index_get(payload, j));
        assert(payload@.subrange(0, j + 1)
            =~= payload@.subrange(0, j as int).push(payload@[j as int]));
        j = j + 1;
    }
    assert(payload@.subrange(0, payload@.len() as int) =~= payload@);
    assert(out@ =~= spec_encode(payload@, compressed, original_size));
    out
}

/// Read a container back.  Succeeds exactly on well-formed buffers; the
/// version tag is checked before any payload inspection, and a tag mismatch
/// is reported as its own error.
pub fn decode(bytes: &[u8]) -> (r: Result<Decoded, FormatError>)
    ensures
        r is Ok <==> spec_well_formed(bytes@),
        r matches Err(e) ==> e == spec_decode_err(bytes@),
        r matches Ok(d) ==> {
            &&& d.compressed == (bytes@[4] == FLAG_COMPRESSED)
            &&& (d.compressed ==> {
                &&& d.original_size == Some(spec_u32_from_le_bytes(bytes@.subrange(5, 9)))
                &&& d.payload@ == bytes@.subrange(9, bytes@.len() as int)
            })
            &&& (!d.compressed ==> {
                &&& d.original_size is None
                &&& d.payload@ == bytes@.subrange(5, bytes@.len() as int)
            })
        },
{
    if bytes.len() < 4 {
        return Err(FormatError::TooShort);
    }
    let b0 = *slice_index_get(bytes, 0);
    let b1 = *slice_index_get(bytes, 1);
    let b2 = *slice_index_get(bytes, 2);
    let b3 = *slice_index_get(bytes, 3);
    if b0 != TAG_BYTE_0 || b1 != TAG_BYTE_1 || b2 != TAG_BYTE_2 || b3 != TAG_BYTE_3 {
        assert(bytes@.subrange(0, 4) != format_tag()) by {
            if bytes@.subrange(0, 4) == format_tag() {
                assert(bytes@.subrange(0, 4)[0] == format_tag()[0]);
                assert(bytes@.subrange(0, 4)[1] == format_tag()[1]);
                assert(bytes@.subrange(0, 4)[2] == format_tag()[2]);
                assert(bytes@.subrange(0, 4)[3] == format_tag()[3]);
            }
        }
        return Err(FormatError::VersionMismatch);
    }
    assert(bytes@.subrange(0, 4) =~= format_tag());
    if bytes.len() < 5 {
        return Err(FormatError::TooShort);
    }
    let flag = *slice_index_get(bytes, 4);
    if flag == FLAG_UNCOMPRESSED {
        let payload = slice_to_vec(slice_subrange(bytes, 5, bytes.len()));
        Ok(Decoded { compressed: false, original_size: None, payload })
    } else if flag == FLAG_COMPRESSED {
        if bytes.len() < 9 {
            return Err(FormatError::TooShort);
        }
        let size = u32_from_le_bytes(slice_subrange(bytes, 5, 9));
        let payload = slice_to_vec(slice_subrange(bytes, 9, bytes.len()));
        Ok(Decoded { compressed: true, original_size: Some(size), payload })
    } else {
        Err(FormatError::InvalidFlag)
    }
}

/// Round trip: a container written by [`encode`] is accepted by [`decode`],
/// and every field read back equals what was written.
pub proof fn lemma_encode_decode_round_trip(
    payload: Seq<u8>,
    compressed: bool,
    original_size: Option<u32>,
)
    requires
        compressed <==> original_size is Some,
    ensures
        spec_well_formed(spec_encode(payload, compressed, original_size)),
        ({
            let enc = spec_encode(payload, compressed, original_size);
            &&& (enc[4] == FLAG_COMPRESSED) == compressed
            &&& (compressed ==> spec_u32_from_le_bytes(enc.subrange(5, 9))
                == original_size.unwrap())
            &&& (compressed ==> enc.subrange(9, enc.len() as int) == payload)
            &&& (!compressed ==> enc.subrange(5, enc.len() as int) == payload)
        }),
{
    lemma_auto_spec_u32_to_from_le_bytes();
    let enc = spec_encode(payload, compressed, original_size);
    assert(enc.subrange(0, 4) =~= format_tag());
    if compressed {
        assert(enc.subrange(5, 9) =~= spec_u32_to_le_bytes(original_size.unwrap()));
        assert(enc.subrange(9, enc.len() as int) =~= payload);
    } else {
        assert(enc.subrange(5, enc.len() as int) =~= payload);
    }
}

/// The format is canonical: a buffer the decoder accepts is exactly the
/// encoding of the fields read out of it, so no information outside the
/// decoded fields hides in an accepted container.
pub proof fn lemma_decode_encode_identity(bytes: Seq<u8>)
    requires
        spec_well_formed(bytes),
    ensures
        ({
            let compressed = bytes[4] == FLAG_COMPRESSED;
            let original_size = if compressed {
                Some(spec_u32_from_le_bytes(bytes.subrange(5, 9)))
            } else {
                None::<u32>
            };
            let payload = if compressed {
                bytes.subrange(9, bytes.len() as int)
            } else {
                bytes.subrange(5, bytes.len() as int)
            };
            spec_encode(payload, compressed, original_size) == bytes
        }),
{
    lemma_auto_spec_u32_to_from_le_bytes();
    let compressed = bytes[4] == FLAG_COMPRESSED;
    if compressed {
        let original_size = Some(spec_u32_from_le_bytes(bytes.subrange(5, 9)));
        let payload = bytes.subrange(9, bytes.len() as int);
        assert(spec_u32_to_le_bytes(spec_u32_from_le_bytes(bytes.subrange(5, 9)))
            == bytes.subrange(5, 9));
        assert(spec_encode(payload, compressed, original_size) =~= bytes);
    } else {
        let payload = bytes.subrange(5, bytes.len() as int);
        assert(spec_encode(payload, compressed, None::<u32>) =~= bytes);
    }
}

} // verus!
