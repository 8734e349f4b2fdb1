//! The lookup tables of MPEG audio headers: bitrates in kbps and sampling
//! rates in Hz.
use vstd::prelude::*;

verus! {

/// Number of bitrate tables.
pub const BITRATE_ROWS: usize = 5;

/// Entries per bitrate table; entry 0 stands for the free-format index.
pub const BITRATE_COLUMNS: usize = 15;

/// Number of sampling-rate tables.
pub const SAMPLING_ROWS: usize = 3;

/// Entries per sampling-rate table.
pub const SAMPLING_COLUMNS: usize = 3;

/// Bitrates in kbps by bitrate index.
///
/// | row | version    | layer     |
/// |-----|------------|-----------|
/// | 0   | MPEG 1     | I         |
/// | 1   | MPEG 1     | II        |
/// | 2   | MPEG 1     | III       |
/// | 3   | MPEG 2/2.5 | I         |
/// | 4   | MPEG 2/2.5 | II or III |
#[verifier::opaque]
pub open spec fn bitrate_table(row: int) -> Seq<u16> {
    if row == 0 {
        seq![0u16, 32, 64, 96, 128, 160, 192, 224, 256, 288, 320, 352, 384, 416, 448]
    } else if row == 1 {
        seq![0u16, 32, 48, 56, 64, 80, 96, 112, 128, 160, 192, 224, 256, 320, 384]
    } else if row == 2 {
        seq![0u16, 32, 40, 48, 56, 64, 80, 96, 112, 128, 160, 192, 224, 256, 320]
    } else if row == 3 {
        seq![0u16, 32, 48, 56, 64, 80, 96, 112, 128, 144, 160, 176, 192, 224, 256]
    } else if row == 4 {
        seq![0u16, 8, 16, 24, 32, 40, 48, 56, 64, 80, 96, 112, 128, 144, 160]
    } else {
        Seq::empty()
    }
}

/// Sampling rates in Hz by sampling-rate index; row 0 is MPEG 1, row 1
/// MPEG 2, row 2 MPEG 2.5.
#[verifier::opaque]
pub open spec fn sampling_table(row: int) -> Seq<u16> {
    if row == 0 {
        seq![44100u16, 48000, 32000]
    } else if row == 1 {
        seq![22050u16, 24000, 16000]
    } else if row == 2 {
        seq![11025u16, 12000, 8000]
    } else {
        Seq::empty()
    }
}

/// The cell of the bitrate tables at `row` and `index`, if there is one.
pub fn bitrate_kbps(row: usize, index: usize) -> (kbps: Option<u16>)
    ensures
        kbps == if row < BITRATE_ROWS && index < BITRATE_COLUMNS {
            Some(bitrate_table(row as int)[index as int])
        } else {
            None
        },
{
    reveal(bitrate_table);
    if index >= BITRATE_COLUMNS {
        return None;
    }
    let cells: [u16; 15] = match row {
        0 => [0, 32, 64, 96, 128, 160, 192, 224, 256, 288, 320, 352, 384, 416, 448],
        1 => [0, 32, 48, 56, 64, 80, 96, 112, 128, 160, 192, 224, 256, 320, 384],
        2 => [0, 32, 40, 48, 56, 64, 80, 96, 112, 128, 160, 192, 224, 256, 320],
        3 => [0, 32, 48, 56, 64, 80, 96, 112, 128, 144, 160, 176, 192, 224, 256],
        4 => [0, 8, 16, 24, 32, 40, 48, 56, 64, 80, 96, 112, 128, 144, 160],
        _ => { return None; },
    };
    Some(cells[index])
}

/// The cell of the sampling-rate tables at `row` and `index`, if there is
/// one.
pub fn sampling_hz(row: usize, index: usize) -> (hz: Option<u16>)
    ensures
        hz == if row < SAMPLING_ROWS && index < SAMPLING_COLUMNS {
            Some(sampling_table(row as int)[index as int])
        } else {
            None
        },
{
    reveal(sampling_table);
    if index >= SAMPLING_COLUMNS {
        return None;
    }
    let cells: [u16; 3] = match row {
        0 => [44100, 48000, 32000],
        1 => [22050, 24000, 16000],
        2 => [11025, 12000, 8000],
        _ => { return None; },
    };
    Some(cells[index])
}

/// Every bitrate table has fifteen entries, starts with the free-format
/// placeholder 0 and then rises strictly, from at least 8 to at most 448
/// kbps.
pub proof fn lemma_bitrate_table_shape(row: int)
    requires
        0 <= row < BITRATE_ROWS,
    ensures
        bitrate_table(row).len() == BITRATE_COLUMNS,
        bitrate_table(row)[0] == 0,
        forall|i: int| 1 <= i < BITRATE_COLUMNS ==> 8 <= #[trigger] bitrate_table(row)[i] <= 448,
        forall|i: int, j: int|
            0 <= i < j < BITRATE_COLUMNS ==> #[trigger] bitrate_table(row)[i] < #[trigger] bitrate_table(
                row,
            )[j],
{
    reveal(bitrate_table);
}

/// Every sampling-rate table has three distinct entries between 8000 and
/// 48000 Hz.
pub proof fn lemma_sampling_table_shape(row: int)
    requires
        0 <= row < SAMPLING_ROWS,
    ensures
        sampling_table(row).len() == SAMPLING_COLUMNS,
        forall|i: int| 0 <= i < SAMPLING_COLUMNS ==> 8000 <= #[trigger] sampling_table(row)[i] <= 48000,
        forall|i: int, j: int|
            0 <= i < j < SAMPLING_COLUMNS ==> #[trigger] sampling_table(row)[i] != #[trigger] sampling_table(
                row,
            )[j],
{
    reveal(sampling_table);
}

} // verus!
