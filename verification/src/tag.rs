//! Metadata tags around the audio data: finding where the frames start
//! and end.
use crate::error::Mp3Error;
use vstd::prelude::*;
use vstd::slice::slice_subrange;

verus! {

/// Length of the header of a leading tag.
pub const ID3V2_HEADER_LEN: usize = 10;

/// Length of a trailing tag.
pub const ID3V1_LEN: usize = 128;

/// `data` starts with the marker `"ID3"` of a leading tag.
pub open spec fn has_leading_tag(data: Seq<u8>) -> bool {
    data.len() >= 3 && data[0] == 0x49 && data[1] == 0x44 && data[2] == 0x33
}

/// The last 128 bytes of `data` start with the marker `"TAG"` of a
/// trailing tag.
pub open spec fn has_trailing_tag(data: Seq<u8>) -> bool {
    let start = data.len() - ID3V1_LEN;
    start >= 0 && data[start] == 0x54 && data[start + 1] == 0x41 && data[start + 2] == 0x47
}

/// The number that four bytes hold in base 128, most significant byte
/// first.
pub open spec fn synchsafe(b0: u8, b1: u8, b2: u8, b3: u8) -> int {
    b0 * 128 * 128 * 128 + b1 * 128 * 128 + b2 * 128 + b3
}

/// Length of the body of the leading tag of `data`, which its bytes 6 to 9
/// hold.
pub open spec fn leading_tag_size(data: Seq<u8>) -> int
    recommends
        data.len() >= ID3V2_HEADER_LEN,
{
    synchsafe(data[6], data[7], data[8], data[9])
}

/// The frame data of `data`.
///
/// A leading tag is looked for first; if its marker is there, the frames
/// start behind the tag, and a buffer that ends before the tag does is
/// truncated. Otherwise the frames end where a trailing tag starts. A
/// buffer with neither marker has no tag to take off.
pub open spec fn trim_spec(data: Seq<u8>) -> Result<Seq<u8>, Mp3Error> {
    if has_leading_tag(data) {
        if data.len() < ID3V2_HEADER_LEN || data.len() < ID3V2_HEADER_LEN + leading_tag_size(data) {
            Err(Mp3Error::Truncated)
        } else {
            Ok(data.skip(ID3V2_HEADER_LEN + leading_tag_size(data)))
        }
    } else if has_trailing_tag(data) {
        Ok(data.take(data.len() - ID3V1_LEN))
    } else {
        Err(Mp3Error::TagNotFound)
    }
}

/// Takes the metadata tag off `data` and returns the part that holds the
/// frames, as a view into `data`.
pub fn trim_data(data: &[u8]) -> (r: Result<&[u8], Mp3Error>)
    ensures
        match r {
            Ok(frames) => trim_spec(data@) == Ok::<Seq<u8>, Mp3Error>(frames@),
            Err(e) => trim_spec(data@) == Err::<Seq<u8>, Mp3Error>(e),
        },
{
    let len = data.len();
    if len >= 3 && data[0] == 0x49 && data[1] == 0x44 && data[2] == 0x33 {
        if len < ID3V2_HEADER_LEN {
            return Err(Mp3Error::Truncated);
        }
        let size: u64 = data[6] as u64 * 128 * 128 * 128 + data[7] as u64 * 128 * 128 + data[8] as u64
            * 128 + data[9] as u64;
        if size > (len - ID3V2_HEADER_LEN) as u64 {
            return Err(Mp3Error::Truncated);
        }
        Ok(slice_subrange(data, ID3V2_HEADER_LEN + size as usize, len))
    } else if len >= ID3V1_LEN && data[len - ID3V1_LEN] == 0x54 && data[len - ID3V1_LEN + 1] == 0x41
        && data[len - ID3V1_LEN + 2] == 0x47 {
        Ok(slice_subrange(data, 0, len - ID3V1_LEN))
    } else {
        Err(Mp3Error::TagNotFound)
    }
}

} // verus!
