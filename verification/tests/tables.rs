use mp3::tables::{bitrate_kbps, sampling_hz};

const BITRATES: [[u16; 15]; 5] = [
    [0, 32, 64, 96, 128, 160, 192, 224, 256, 288, 320, 352, 384, 416, 448],
    [0, 32, 48, 56, 64, 80, 96, 112, 128, 160, 192, 224, 256, 320, 384],
    [0, 32, 40, 48, 56, 64, 80, 96, 112, 128, 160, 192, 224, 256, 320],
    [0, 32, 48, 56, 64, 80, 96, 112, 128, 144, 160, 176, 192, 224, 256],
    [0, 8, 16, 24, 32, 40, 48, 56, 64, 80, 96, 112, 128, 144, 160],
];

const RATES: [[u16; 3]; 3] = [[44100, 48000, 32000], [22050, 24000, 16000], [11025, 12000, 8000]];

#[test]
fn bitrate_cells_match_the_standard() {
    for row in 0..5 {
        for index in 0..15 {
            assert_eq!(bitrate_kbps(row, index), Some(BITRATES[row][index]));
        }
    }
}

#[test]
fn bitrate_lookup_outside_the_tables_is_none() {
    for row in 0..5 {
        assert_eq!(bitrate_kbps(row, 15), None);
        assert_eq!(bitrate_kbps(row, 16), None);
        assert_eq!(bitrate_kbps(row, usize::MAX), None);
    }
    for index in 0..15 {
        assert_eq!(bitrate_kbps(5, index), None);
        assert_eq!(bitrate_kbps(usize::MAX, index), None);
    }
}

#[test]
fn sampling_cells_match_the_standard() {
    for row in 0..3 {
        for index in 0..3 {
            assert_eq!(sampling_hz(row, index), Some(RATES[row][index]));
        }
    }
}

#[test]
fn sampling_lookup_outside_the_tables_is_none() {
    for row in 0..3 {
        assert_eq!(sampling_hz(row, 3), None);
        assert_eq!(sampling_hz(row, usize::MAX), None);
    }
    for index in 0..3 {
        assert_eq!(sampling_hz(3, index), None);
    }
}

#[test]
fn bitrate_rows_rise_strictly() {
    for row in 0..5 {
        for index in 1..15 {
            assert!(bitrate_kbps(row, index - 1).unwrap() < bitrate_kbps(row, index).unwrap());
        }
    }
}
