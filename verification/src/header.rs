//! The four-byte frame header: its fields, how they are laid out in bits,
//! and the length of the frame that follows from them.
use crate::error::{HeaderError, Mp3Error};
use crate::tables::{bitrate_kbps, bitrate_table, sampling_hz, sampling_table};
use vstd::prelude::*;

verus! {

/// MPEG audio version.
#[allow(non_camel_case_types)]
#[derive(Debug, Clone, Copy, PartialEq, Eq, Structural)]
pub enum Version {
    Mpeg2_5,
    Reserved,
    Mpeg2,
    Mpeg1,
}

/// MPEG layer.
#[derive(Debug, Clone, Copy, PartialEq, Eq, Structural)]
pub enum Layer {
    LayerI,
    LayerII,
    LayerIII,
}

/// Bitrate of a frame.
#[derive(Debug, Clone, Copy, PartialEq, Eq, Structural)]
pub enum Bitrate {
    /// A bitrate from the tables, in kbps.
    Indexed(u16),
    /// A bitrate that the encoder chose and the header does not give.
    FreeFormat,
}

/// Channel mode.
#[derive(Debug, Clone, Copy, PartialEq, Eq, Structural)]
pub enum Mode {
    Stereo,
    JointStereo,
    DualChannel,
    Mono,
}

/// How joint stereo is coded. Which variant a header carries follows from
/// its layer.
///
/// | bits | layer I and II | layer III: intensity | layer III: MS |
/// |------|----------------|----------------------|---------------|
/// | 00   | bands 4 to 31  | off                  | off           |
/// | 01   | bands 8 to 31  | on                   | off           |
/// | 10   | bands 12 to 31 | off                  | on            |
/// | 11   | bands 16 to 31 | on                   | on            |
#[derive(Debug, Clone, Copy, PartialEq, Eq, Structural)]
pub enum ModeExtension {
    /// Layers I and II: the first band coded in intensity stereo.
    Bands(u8),
    /// Layer III: intensity stereo on, MS stereo on.
    Stereo(bool, bool),
}

/// De-emphasis that the decoder has to apply.
#[allow(non_camel_case_types)]
#[derive(Debug, Clone, Copy, PartialEq, Eq, Structural)]
pub enum Emphasis {
    NoEmphasis,
    Ms50_15,
    Reserved,
    CcittJ17,
}

/// The fields of a frame header as plain data.
#[derive(Debug, Clone, Copy, PartialEq, Eq, Structural)]
pub struct HeaderFields {
    pub version: Version,
    pub layer: Layer,
    /// A 16-bit CRC follows the header.
    pub protection: bool,
    pub bitrate: Bitrate,
    /// Sampling rate in Hz.
    pub sampling_rate: u16,
    /// The frame holds one extra slot.
    pub padding: bool,
    /// Free for the application.
    pub private: bool,
    pub mode: Mode,
    pub mode_extension: ModeExtension,
    pub copyright: bool,
    pub original: bool,
    pub emphasis: Emphasis,
}

/// The two sync bytes carry all eleven sync bits.
pub open spec fn sync_set(b0: u8, b1: u8) -> bool {
    b0 == 0xff && b1 & 0xe0 == 0xe0
}

/// Bits 4 and 3 of byte 1.
pub open spec fn version_bits(b1: u8) -> u8 {
    (b1 >> 3) & 3
}

/// Bits 2 and 1 of byte 1.
pub open spec fn layer_bits(b1: u8) -> u8 {
    (b1 >> 1) & 3
}

/// The top nibble of byte 2.
pub open spec fn bitrate_bits(b2: u8) -> u8 {
    b2 >> 4
}

/// Bits 3 and 2 of byte 2.
pub open spec fn sampling_bits(b2: u8) -> u8 {
    (b2 >> 2) & 3
}

/// The top two bits of byte 3.
pub open spec fn mode_bits(b3: u8) -> u8 {
    b3 >> 6
}

/// Bits 5 and 4 of byte 3.
pub open spec fn extension_bits(b3: u8) -> u8 {
    (b3 >> 4) & 3
}

/// The bottom two bits of byte 3.
pub open spec fn emphasis_bits(b3: u8) -> u8 {
    b3 & 3
}

/// The version that a two-bit code stands for.
pub open spec fn version_of(code: u8) -> Version {
    match code {
        0 => Version::Mpeg2_5,
        1 => Version::Reserved,
        2 => Version::Mpeg2,
        _ => Version::Mpeg1,
    }
}

/// The layer that a two-bit code stands for; `00` stands for none.
pub open spec fn layer_of(code: u8) -> Option<Layer> {
    match code {
        0 => None,
        1 => Some(Layer::LayerIII),
        2 => Some(Layer::LayerII),
        _ => Some(Layer::LayerI),
    }
}

/// The channel mode that a two-bit code stands for.
pub open spec fn mode_of(code: u8) -> Mode {
    match code {
        0 => Mode::Stereo,
        1 => Mode::JointStereo,
        2 => Mode::DualChannel,
        _ => Mode::Mono,
    }
}

/// The mode extension that a two-bit code stands for in a frame of `layer`.
pub open spec fn extension_of(layer: Layer, code: u8) -> ModeExtension {
    match layer {
        Layer::LayerIII => ModeExtension::Stereo(code & 1 != 0, code & 2 != 0),
        _ => ModeExtension::Bands(
            match code {
                0 => 4u8,
                1 => 8u8,
                2 => 12u8,
                _ => 16u8,
            },
        ),
    }
}

/// The emphasis that a two-bit code stands for.
pub open spec fn emphasis_of(code: u8) -> Emphasis {
    match code {
        0 => Emphasis::NoEmphasis,
        1 => Emphasis::Ms50_15,
        2 => Emphasis::Reserved,
        _ => Emphasis::CcittJ17,
    }
}

/// The row of the bitrate tables that holds the bitrates of `version` and
/// `layer`.
pub open spec fn bitrate_row(version: Version, layer: Layer) -> int {
    match (version, layer) {
        (Version::Mpeg1, Layer::LayerI) => 0,
        (Version::Mpeg1, Layer::LayerII) => 1,
        (Version::Mpeg1, Layer::LayerIII) => 2,
        (_, Layer::LayerI) => 3,
        (_, _) => 4,
    }
}

/// The row of the sampling-rate tables that holds the rates of `version`;
/// the reserved version has none.
pub open spec fn sampling_row(version: Version) -> Option<int> {
    match version {
        Version::Mpeg1 => Some(0),
        Version::Mpeg2 => Some(1),
        Version::Mpeg2_5 => Some(2),
        Version::Reserved => None,
    }
}

/// The bitrate that index `index` (0 to 14) stands for.
pub open spec fn bitrate_of(version: Version, layer: Layer, index: u8) -> Bitrate {
    if index == 0 {
        Bitrate::FreeFormat
    } else {
        Bitrate::Indexed(bitrate_table(bitrate_row(version, layer))[index as int])
    }
}

/// What the four bytes of a header decode to: the fields, or the first
/// field that is out of range, going through them in the order sync,
/// layer, bitrate, sampling rate.
pub open spec fn decode_header(b0: u8, b1: u8, b2: u8, b3: u8) -> Result<HeaderFields, HeaderError> {
    let version = version_of(version_bits(b1));
    if !sync_set(b0, b1) {
        Err(HeaderError::BadSync)
    } else if layer_of(layer_bits(b1)) is None {
        Err(HeaderError::BadLayer)
    } else if bitrate_bits(b2) == 15 {
        Err(HeaderError::BadBitrate)
    } else if sampling_bits(b2) == 3 || sampling_row(version) is None {
        Err(HeaderError::BadSamplingRate)
    } else {
        let layer = layer_of(layer_bits(b1))->0;
        Ok(
            HeaderFields {
                version,
                layer,
                protection: b1 & 0x01 != 0,
                bitrate: bitrate_of(version, layer, bitrate_bits(b2)),
                sampling_rate: sampling_table(sampling_row(version)->0)[sampling_bits(b2) as int],
                padding: b2 & 0x02 != 0,
                private: b2 & 0x01 != 0,
                mode: mode_of(mode_bits(b3)),
                mode_extension: extension_of(layer, extension_bits(b3)),
                copyright: b3 & 0x08 != 0,
                original: b3 & 0x04 != 0,
                emphasis: emphasis_of(emphasis_bits(b3)),
            },
        )
    }
}

/// What `parse_frame_header` makes of `data`: a slice under four bytes is
/// truncated; otherwise the first four bytes are decoded.
pub open spec fn parse_spec(data: Seq<u8>) -> Result<HeaderFields, Mp3Error> {
    if data.len() < 4 {
        Err(Mp3Error::Truncated)
    } else {
        match decode_header(data[0], data[1], data[2], data[3]) {
            Ok(fields) => Ok(fields),
            Err(e) => Err(Mp3Error::InvalidHeader(e)),
        }
    }
}

/// What holds of the fields of every decoded header: the sampling rate is
/// one of its version's table, an indexed bitrate is one of the table of
/// its version and layer, and the layer determines the variant of the mode
/// extension.
pub open spec fn well_formed(f: HeaderFields) -> bool {
    &&& sampling_row(f.version) matches Some(row) && exists|j: int|
        0 <= j < 3 && #[trigger] sampling_table(row)[j] == f.sampling_rate
    &&& f.bitrate matches Bitrate::Indexed(kbps) ==> exists|i: int|
        1 <= i <= 14 && #[trigger] bitrate_table(bitrate_row(f.version, f.layer))[i] == kbps
    &&& match f.layer {
        Layer::LayerIII => f.mode_extension is Stereo,
        _ => f.mode_extension matches ModeExtension::Bands(n) && (n == 4 || n == 8 || n == 12 || n
            == 16),
    }
}

/// Samples that a frame of `layer` holds.
pub open spec fn samples_per_frame(layer: Layer) -> int {
    match layer {
        Layer::LayerI => 384,
        _ => 1152,
    }
}

/// Bytes per second at `kbps` kilobits per second.
pub open spec fn byte_rate(kbps: int) -> int {
    kbps * 1000 / 8
}

/// Bytes that the padding slot adds: a slot is four bytes in layer I and
/// one byte otherwise.
pub open spec fn padding_bytes(layer: Layer, padding: bool) -> int {
    if !padding {
        0
    } else if layer is LayerI {
        4
    } else {
        1
    }
}

/// Length in bytes, header included, of a frame of `layer` at `kbps` and
/// `hz` Hz.
pub open spec fn frame_len(layer: Layer, kbps: int, hz: int, padding: bool) -> int {
    samples_per_frame(layer) * byte_rate(kbps) / hz + padding_bytes(layer, padding)
}

/// Length in bytes of the frame that `f` heads, header included; a
/// free-format header does not give it.
pub open spec fn frame_size_spec(f: HeaderFields) -> Option<int> {
    match f.bitrate {
        Bitrate::FreeFormat => None,
        Bitrate::Indexed(kbps) => Some(
            frame_len(f.layer, kbps as int, f.sampling_rate as int, f.padding),
        ),
    }
}

/// A two-bit field is below four, and the bitrate index below sixteen.
proof fn lemma_field_ranges(b: u8)
    ensures
        (b >> 1) & 3 <= 3,
        (b >> 2) & 3 <= 3,
        (b >> 3) & 3 <= 3,
        (b >> 4) & 3 <= 3,
        b & 3 <= 3,
        b >> 4 <= 15,
        b >> 6 <= 3,
{
    assert((b >> 1) & 3 <= 3 && (b >> 2) & 3 <= 3 && (b >> 3) & 3 <= 3 && (b >> 4) & 3 <= 3 && b
        & 3 <= 3 && b >> 4 <= 15 && b >> 6 <= 3) by (bit_vector);
}

/// Whatever four bytes decode to is well formed.
pub proof fn lemma_decoded_is_well_formed(b0: u8, b1: u8, b2: u8, b3: u8)
    ensures
        decode_header(b0, b1, b2, b3) matches Ok(f) ==> well_formed(f),
{
    if let Ok(f) = decode_header(b0, b1, b2, b3) {
        lemma_field_ranges(b2);
        let row = sampling_row(f.version)->0;
        let j = sampling_bits(b2) as int;
        assert(0 <= j < 3 && sampling_table(row)[j] == f.sampling_rate);
        if let Bitrate::Indexed(kbps) = f.bitrate {
            let i = bitrate_bits(b2) as int;
            assert(1 <= i <= 14 && bitrate_table(bitrate_row(f.version, f.layer))[i] == kbps);
        }
    }
}

/// The rates of a well-formed header lie within the tables' range.
pub proof fn lemma_well_formed_rates(f: HeaderFields)
    requires
        well_formed(f),
    ensures
        8000 <= f.sampling_rate <= 48000,
        f.bitrate matches Bitrate::Indexed(kbps) ==> 8 <= kbps <= 448,
{
    let row = sampling_row(f.version)->0;
    crate::tables::lemma_sampling_table_shape(row);
    crate::tables::lemma_bitrate_table_shape(bitrate_row(f.version, f.layer));
}

/// A decoded frame header. It is made by `parse_frame_header` only, so its
/// fields always fit together: see `well_formed`.
#[derive(Debug, Clone, Copy, PartialEq, Eq, Structural)]
pub struct FrameHeader {
    fields: HeaderFields,
}

impl View for FrameHeader {
    type V = HeaderFields;

    closed spec fn view(&self) -> HeaderFields {
        self.fields
    }
}

impl FrameHeader {
    #[verifier::type_invariant]
    spec fn fits_together(self) -> bool {
        well_formed(self.fields)
    }

    /// All fields at once.
    pub fn fields(&self) -> (f: HeaderFields)
        ensures
            f == self@,
            well_formed(f),
    {
        proof {
            use_type_invariant(self);
        }
        self.fields
    }

    /// MPEG audio version; never the reserved one.
    pub fn version(&self) -> (version: Version)
        ensures
            version == self@.version,
    {
        self.fields.version
    }

    /// MPEG layer.
    pub fn layer(&self) -> (layer: Layer)
        ensures
            layer == self@.layer,
    {
        self.fields.layer
    }

    /// Whether a 16-bit CRC follows the header.
    pub fn protection(&self) -> (protection: bool)
        ensures
            protection == self@.protection,
    {
        self.fields.protection
    }

    /// Bitrate.
    pub fn bitrate(&self) -> (bitrate: Bitrate)
        ensures
            bitrate == self@.bitrate,
    {
        self.fields.bitrate
    }

    /// Sampling rate in Hz.
    pub fn sampling_rate(&self) -> (hz: u16)
        ensures
            hz == self@.sampling_rate,
    {
        self.fields.sampling_rate
    }

    /// Whether the frame holds one extra slot.
    pub fn padding(&self) -> (padding: bool)
        ensures
            padding == self@.padding,
    {
        self.fields.padding
    }

    /// The bit that is free for the application.
    pub fn private(&self) -> (private: bool)
        ensures
            private == self@.private,
    {
        self.fields.private
    }

    /// Channel mode.
    pub fn mode(&self) -> (mode: Mode)
        ensures
            mode == self@.mode,
    {
        self.fields.mode
    }

    /// Mode extension, of the variant that goes with the layer.
    pub fn mode_extension(&self) -> (extension: ModeExtension)
        ensures
            extension == self@.mode_extension,
    {
        self.fields.mode_extension
    }

    /// Whether the audio is copyrighted.
    pub fn copyright(&self) -> (copyright: bool)
        ensures
            copyright == self@.copyright,
    {
        self.fields.copyright
    }

    /// Whether the frame is on its original media.
    pub fn original(&self) -> (original: bool)
        ensures
            original == self@.original,
    {
        self.fields.original
    }

    /// Emphasis.
    pub fn emphasis(&self) -> (emphasis: Emphasis)
        ensures
            emphasis == self@.emphasis,
    {
        self.fields.emphasis
    }

    /// Length in bytes of the frame that this header starts, the four
    /// bytes of the header included; `None` for a free-format bitrate.
    pub fn frame_size(&self) -> (size: Option<usize>)
        ensures
            match size {
                Some(n) => frame_size_spec(self@) == Some(n as int) && n > 4,
                None => frame_size_spec(self@) == None::<int>,
            },
    {
        match self.fields.bitrate {
            Bitrate::FreeFormat => None,
            Bitrate::Indexed(kbps) => {
                proof {
                    use_type_invariant(self);
                    lemma_well_formed_rates(self.fields);
                    lemma_frame_size_positive(self.fields);
                }
                let samples: u32 = match self.fields.layer {
                    Layer::LayerI => 384,
                    _ => 1152,
                };
                let rate: u32 = kbps as u32 * 1000 / 8;
                let base: u32 = samples * rate / self.fields.sampling_rate as u32;
                let slot: u32 = if !self.fields.padding {
                    0
                } else {
                    match self.fields.layer {
                        Layer::LayerI => 4,
                        _ => 1,
                    }
                };
                Some((base + slot) as usize)
            },
        }
    }
}

/// The version that a two-bit code stands for.
fn decode_version(code: u8) -> (version: Version)
    ensures
        version == version_of(code),
{
    match code {
        0 => Version::Mpeg2_5,
        1 => Version::Reserved,
        2 => Version::Mpeg2,
        _ => Version::Mpeg1,
    }
}

/// The layer that a two-bit code stands for, if any.
fn decode_layer(code: u8) -> (layer: Option<Layer>)
    ensures
        layer == layer_of(code),
{
    match code {
        0 => None,
        1 => Some(Layer::LayerIII),
        2 => Some(Layer::LayerII),
        _ => Some(Layer::LayerI),
    }
}

/// The bitrate that `index` stands for; an index beyond the tables stands
/// for none.
fn decode_bitrate(version: Version, layer: Layer, index: u8) -> (bitrate: Option<Bitrate>)
    ensures
        bitrate == if index < 15 {
            Some(bitrate_of(version, layer, index))
        } else {
            None
        },
{
    if index == 0 {
        return Some(Bitrate::FreeFormat);
    }
    let row: usize = match (version, layer) {
        (Version::Mpeg1, Layer::LayerI) => 0,
        (Version::Mpeg1, Layer::LayerII) => 1,
        (Version::Mpeg1, Layer::LayerIII) => 2,
        (_, Layer::LayerI) => 3,
        (_, _) => 4,
    };
    match bitrate_kbps(row, index as usize) {
        Some(kbps) => Some(Bitrate::Indexed(kbps)),
        None => None,
    }
}

/// The sampling rate in Hz that `index` stands for; the reserved version
/// has no rates, and an index beyond the tables stands for none.
fn decode_sampling_rate(version: Version, index: u8) -> (hz: Option<u16>)
    ensures
        hz == match sampling_row(version) {
            Some(row) if index < 3 => Some(sampling_table(row)[index as int]),
            _ => None,
        },
{
    match version {
        Version::Mpeg1 => sampling_hz(0, index as usize),
        Version::Mpeg2 => sampling_hz(1, index as usize),
        Version::Mpeg2_5 => sampling_hz(2, index as usize),
        Version::Reserved => None,
    }
}

/// The channel mode that a two-bit code stands for.
fn decode_mode(code: u8) -> (mode: Mode)
    ensures
        mode == mode_of(code),
{
    match code {
        0 => Mode::Stereo,
        1 => Mode::JointStereo,
        2 => Mode::DualChannel,
        _ => Mode::Mono,
    }
}

/// The mode extension that a two-bit code stands for in a frame of `layer`.
fn decode_extension(layer: Layer, code: u8) -> (extension: ModeExtension)
    ensures
        extension == extension_of(layer, code),
{
    match layer {
        Layer::LayerIII => ModeExtension::Stereo(code & 1 != 0, code & 2 != 0),
        _ => ModeExtension::Bands(
            match code {
                0 => 4,
                1 => 8,
                2 => 12,
                _ => 16,
            },
        ),
    }
}

/// The emphasis that a two-bit code stands for.
fn decode_emphasis(code: u8) -> (emphasis: Emphasis)
    ensures
        emphasis == emphasis_of(code),
{
    match code {
        0 => Emphasis::NoEmphasis,
        1 => Emphasis::Ms50_15,
        2 => Emphasis::Reserved,
        _ => Emphasis::CcittJ17,
    }
}

/// Decodes the frame header that `data` starts with.
///
/// The fields are checked in the order sync, layer, bitrate, sampling
/// rate, and the first one out of range is reported. Bytes after the
/// fourth are not looked at.
pub fn parse_frame_header(data: &[u8]) -> (r: Result<FrameHeader, Mp3Error>)
    ensures
        match r {
            Ok(h) => parse_spec(data@) == Ok::<HeaderFields, Mp3Error>(h@),
            Err(e) => parse_spec(data@) == Err::<HeaderFields, Mp3Error>(e),
        },
{
    if data.len() < 4 {
        return Err(Mp3Error::Truncated);
    }
    let b1 = data[1];
    let b2 = data[2];
    let b3 = data[3];
    proof {
        lemma_field_ranges(b2);
        lemma_decoded_is_well_formed(data[0], b1, b2, b3);
    }

    if data[0] != 0xff || b1 & 0xe0 != 0xe0 {
        return Err(Mp3Error::InvalidHeader(HeaderError::BadSync));
    }
    let version = decode_version((b1 >> 3) & 3);
    let layer = match decode_layer((b1 >> 1) & 3) {
        Some(layer) => layer,
        None => { return Err(Mp3Error::InvalidHeader(HeaderError::BadLayer)); },
    };
    let bitrate = match decode_bitrate(version, layer, b2 >> 4) {
        Some(bitrate) => bitrate,
        None => { return Err(Mp3Error::InvalidHeader(HeaderError::BadBitrate)); },
    };
    let sampling_rate = match decode_sampling_rate(version, (b2 >> 2) & 3) {
        Some(hz) => hz,
        None => { return Err(Mp3Error::InvalidHeader(HeaderError::BadSamplingRate)); },
    };
    Ok(
        FrameHeader {
            fields: HeaderFields {
                version,
                layer,
                protection: b1 & 0x01 != 0,
                bitrate,
                sampling_rate,
                padding: b2 & 0x02 != 0,
                private: b2 & 0x01 != 0,
                mode: decode_mode(b3 >> 6),
                mode_extension: decode_extension(layer, (b3 >> 4) & 3),
                copyright: b3 & 0x08 != 0,
                original: b3 & 0x04 != 0,
                emphasis: decode_emphasis(b3 & 3),
            },
        },
    )
}

/// The two-bit code of a version.
pub open spec fn version_code(version: Version) -> u8 {
    match version {
        Version::Mpeg2_5 => 0,
        Version::Reserved => 1,
        Version::Mpeg2 => 2,
        Version::Mpeg1 => 3,
    }
}

/// The two-bit code of a layer.
pub open spec fn layer_code(layer: Layer) -> u8 {
    match layer {
        Layer::LayerIII => 1,
        Layer::LayerII => 2,
        Layer::LayerI => 3,
    }
}

/// The index of a bitrate: 0 for free format, else the column of the table
/// of `version` and `layer` that holds it.
pub open spec fn bitrate_code(version: Version, layer: Layer, bitrate: Bitrate) -> u8 {
    match bitrate {
        Bitrate::FreeFormat => 0,
        Bitrate::Indexed(kbps) => choose|i: u8|
            1 <= i <= 14 && #[trigger] bitrate_table(bitrate_row(version, layer))[i as int] == kbps,
    }
}

/// The index of a sampling rate: the column of the table of `version` that
/// holds it.
pub open spec fn sampling_code(version: Version, hz: u16) -> u8 {
    choose|j: u8| j < 3 && #[trigger] sampling_table(sampling_row(version)->0)[j as int] == hz
}

/// The two-bit code of a channel mode.
pub open spec fn mode_code(mode: Mode) -> u8 {
    match mode {
        Mode::Stereo => 0,
        Mode::JointStereo => 1,
        Mode::DualChannel => 2,
        Mode::Mono => 3,
    }
}

/// The two-bit code of a mode extension.
pub open spec fn extension_code(extension: ModeExtension) -> u8 {
    match extension {
        ModeExtension::Bands(n) => match n {
            4 => 0,
            8 => 1,
            12 => 2,
            _ => 3,
        },
        ModeExtension::Stereo(intensity, ms) => flag(ms) << 1 | flag(intensity),
    }
}

/// The two-bit code of an emphasis.
pub open spec fn emphasis_code(emphasis: Emphasis) -> u8 {
    match emphasis {
        Emphasis::NoEmphasis => 0,
        Emphasis::Ms50_15 => 1,
        Emphasis::Reserved => 2,
        Emphasis::CcittJ17 => 3,
    }
}

/// A flag as a bit.
pub open spec fn flag(set: bool) -> u8 {
    if set {
        1
    } else {
        0
    }
}

/// The four bytes that carry the fields `f`.
pub open spec fn encode_header(f: HeaderFields) -> (u8, u8, u8, u8) {
    (
        0xff,
        0xe0 | version_code(f.version) << 3 | layer_code(f.layer) << 1 | flag(f.protection),
        bitrate_code(f.version, f.layer, f.bitrate) << 4 | sampling_code(
            f.version,
            f.sampling_rate,
        ) << 2 | flag(f.padding) << 1 | flag(f.private),
        mode_code(f.mode) << 6 | extension_code(f.mode_extension) << 4 | flag(f.copyright) << 3
            | flag(f.original) << 2 | emphasis_code(f.emphasis),
    )
}

/// Sync bits set and every other field in range: the version is not the
/// reserved one, the layer bits are not `00`, the bitrate index is not 15
/// and the sampling-rate index is not 3.
pub open spec fn fields_in_range(b0: u8, b1: u8, b2: u8, b3: u8) -> bool {
    &&& sync_set(b0, b1)
    &&& version_bits(b1) != 1
    &&& layer_bits(b1) != 0
    &&& bitrate_bits(b2) != 15
    &&& sampling_bits(b2) != 3
}

/// The index of the bitrate at column `index` is `index`.
proof fn lemma_bitrate_code_of_cell(version: Version, layer: Layer, index: u8)
    requires
        index <= 14,
    ensures
        bitrate_code(version, layer, bitrate_of(version, layer, index)) == index,
{
    if index != 0 {
        let table = bitrate_table(bitrate_row(version, layer));
        let kbps = table[index as int];
        let found = bitrate_code(version, layer, Bitrate::Indexed(kbps));
        assert(1 <= index <= 14 && table[index as int] == kbps);
        assert(1 <= found <= 14 && table[found as int] == kbps);
        crate::tables::lemma_bitrate_table_shape(bitrate_row(version, layer));
    }
}

/// The index of the sampling rate at column `index` is `index`.
proof fn lemma_sampling_code_of_cell(version: Version, index: u8)
    requires
        index < 3,
        sampling_row(version) is Some,
    ensures
        sampling_code(version, sampling_table(sampling_row(version)->0)[index as int]) == index,
{
    let table = sampling_table(sampling_row(version)->0);
    let hz = table[index as int];
    let found = sampling_code(version, hz);
    assert(index < 3 && table[index as int] == hz);
    assert(found < 3 && table[found as int] == hz);
    crate::tables::lemma_sampling_table_shape(sampling_row(version)->0);
}

/// A header decodes if and only if its sync bits are set and its other
/// fields are in range, and then every decoded field goes back to the bits
/// it came from: encoding the fields gives the four bytes again.
pub proof fn lemma_header_round_trip(b0: u8, b1: u8, b2: u8, b3: u8)
    ensures
        fields_in_range(b0, b1, b2, b3) <==> decode_header(b0, b1, b2, b3) is Ok,
        decode_header(b0, b1, b2, b3) matches Ok(f) ==> encode_header(f) == (b0, b1, b2, b3),
{
    lemma_field_ranges(b1);
    lemma_field_ranges(b2);
    lemma_field_ranges(b3);
    if let Ok(f) = decode_header(b0, b1, b2, b3) {
        let v = version_bits(b1);
        let l = layer_bits(b1);
        let p = flag(f.protection);
        assert(version_code(f.version) == v);
        assert(layer_code(f.layer) == l);
        assert(0xe0 | v << 3 | l << 1 | p == b1) by (bit_vector)
            requires
                b1 & 0xe0 == 0xe0,
                v == (b1 >> 3) & 3,
                l == (b1 >> 1) & 3,
                p == (if b1 & 0x01 != 0 { 1u8 } else { 0u8 }),
        ;

        let r = bitrate_bits(b2);
        let s = sampling_bits(b2);
        let pad = flag(f.padding);
        let prv = flag(f.private);
        lemma_bitrate_code_of_cell(f.version, f.layer, r);
        lemma_sampling_code_of_cell(f.version, s);
        assert(r << 4 | s << 2 | pad << 1 | prv == b2) by (bit_vector)
            requires
                r == b2 >> 4,
                s == (b2 >> 2) & 3,
                pad == (if b2 & 0x02 != 0 { 1u8 } else { 0u8 }),
                prv == (if b2 & 0x01 != 0 { 1u8 } else { 0u8 }),
        ;

        let m = mode_bits(b3);
        let x = extension_bits(b3);
        let c = flag(f.copyright);
        let o = flag(f.original);
        let e = emphasis_bits(b3);
        assert(mode_code(f.mode) == m);
        assert(emphasis_code(f.emphasis) == e);
        assert(extension_code(f.mode_extension) == x) by {
            let hi = flag(x & 2 != 0);
            let lo = flag(x & 1 != 0);
            assert(hi << 1 | lo == x) by (bit_vector)
                requires
                    x <= 3,
                    hi == (if x & 2 != 0 { 1u8 } else { 0u8 }),
                    lo == (if x & 1 != 0 { 1u8 } else { 0u8 }),
            ;
        }
        assert(m << 6 | x << 4 | c << 3 | o << 2 | e == b3) by (bit_vector)
            requires
                m == b3 >> 6,
                x == (b3 >> 4) & 3,
                c == (if b3 & 0x08 != 0 { 1u8 } else { 0u8 }),
                o == (if b3 & 0x04 != 0 { 1u8 } else { 0u8 }),
                e == b3 & 3,
        ;
    }
}

/// Every well-formed record of fields is what its encoding decodes to: the
/// well-formed records are exactly the headers that decode.
pub proof fn lemma_encode_then_decode(f: HeaderFields)
    requires
        well_formed(f),
    ensures
        decode_header(encode_header(f).0, encode_header(f).1, encode_header(f).2, encode_header(f).3)
            == Ok::<HeaderFields, HeaderError>(f),
{
    let (b0, b1, b2, b3) = encode_header(f);

    let v = version_code(f.version);
    let l = layer_code(f.layer);
    let p = flag(f.protection);
    assert(b1 & 0xe0 == 0xe0 && (b1 >> 3) & 3 == v && (b1 >> 1) & 3 == l && b1 & 0x01 == p)
        by (bit_vector)
        requires
            b1 == 0xe0 | v << 3 | l << 1 | p,
            v <= 3,
            l <= 3,
            p <= 1,
    ;

    let row = sampling_row(f.version)->0;
    let rates = sampling_table(row);
    let j = choose|j: int| 0 <= j < 3 && #[trigger] rates[j] == f.sampling_rate;
    assert((j as u8) < 3 && rates[j as u8 as int] == f.sampling_rate);
    let s = sampling_code(f.version, f.sampling_rate);
    let r = bitrate_code(f.version, f.layer, f.bitrate);
    if let Bitrate::Indexed(kbps) = f.bitrate {
        let cells = bitrate_table(bitrate_row(f.version, f.layer));
        let i = choose|i: int| 1 <= i <= 14 && #[trigger] cells[i] == kbps;
        assert(1 <= (i as u8) <= 14 && cells[i as u8 as int] == kbps);
    }
    let pad = flag(f.padding);
    let prv = flag(f.private);
    assert(b2 >> 4 == r && (b2 >> 2) & 3 == s && b2 & 0x02 == pad << 1 && b2 & 0x01 == prv)
        by (bit_vector)
        requires
            b2 == r << 4 | s << 2 | pad << 1 | prv,
            r <= 14,
            s <= 2,
            pad <= 1,
            prv <= 1,
    ;
    assert(pad << 1 != 0 <==> pad != 0) by (bit_vector)
        requires
            pad <= 1,
    ;

    let m = mode_code(f.mode);
    let x = extension_code(f.mode_extension);
    let c = flag(f.copyright);
    let o = flag(f.original);
    let e = emphasis_code(f.emphasis);
    if let ModeExtension::Stereo(intensity, ms) = f.mode_extension {
        let hi = flag(ms);
        let lo = flag(intensity);
        assert(x <= 3 && x & 1 == lo && x & 2 == hi << 1 && (hi << 1 != 0 <==> hi != 0))
            by (bit_vector)
            requires
                x == hi << 1 | lo,
                hi <= 1,
                lo <= 1,
        ;
    }
    assert(b3 >> 6 == m && (b3 >> 4) & 3 == x && b3 & 3 == e && b3 & 0x08 == c << 3 && b3 & 0x04
        == o << 2 && (c << 3 != 0 <==> c != 0) && (o << 2 != 0 <==> o != 0)) by (bit_vector)
        requires
            b3 == m << 6 | x << 4 | c << 3 | o << 2 | e,
            m <= 3,
            x <= 3,
            c <= 1,
            o <= 1,
            e <= 3,
    ;
}

/// Unless the top three bits of byte 1 are all set, decoding fails on the
/// sync check, whatever the other bytes hold.
pub proof fn lemma_sync_bits_decide(b0: u8, b1: u8, b2: u8, b3: u8)
    requires
        b1 & 0xe0 != 0xe0,
    ensures
        decode_header(b0, b1, b2, b3) == Err::<HeaderFields, HeaderError>(HeaderError::BadSync),
{
}

/// Bitrate index 15 never decodes, index 0 decodes to free format, and
/// every index between decodes to its cell in the table of the header's
/// version and layer.
pub proof fn lemma_bitrate_is_table_cell(b0: u8, b1: u8, b2: u8, b3: u8)
    ensures
        bitrate_bits(b2) == 15 ==> decode_header(b0, b1, b2, b3) is Err,
        decode_header(b0, b1, b2, b3) matches Ok(f) ==> {
            &&& bitrate_bits(b2) == 0 ==> f.bitrate == Bitrate::FreeFormat
            &&& 1 <= bitrate_bits(b2) <= 14 ==> f.bitrate == Bitrate::Indexed(
                bitrate_table(bitrate_row(f.version, f.layer))[bitrate_bits(b2) as int],
            )
        },
{
    lemma_field_ranges(b2);
}

/// Sampling-rate index 3 never decodes, nor does the reserved version;
/// every other index decodes to its cell in the table of the header's
/// version.
pub proof fn lemma_sampling_rate_is_table_cell(b0: u8, b1: u8, b2: u8, b3: u8)
    ensures
        sampling_bits(b2) == 3 ==> decode_header(b0, b1, b2, b3) is Err,
        version_of(version_bits(b1)) == Version::Reserved ==> decode_header(b0, b1, b2, b3) is Err,
        decode_header(b0, b1, b2, b3) matches Ok(f) ==> {
            &&& sampling_bits(b2) < 3
            &&& sampling_row(f.version) matches Some(row)
            &&& f.sampling_rate == sampling_table(row)[sampling_bits(b2) as int]
        },
{
    lemma_field_ranges(b2);
}

/// The frame size is undefined exactly for a free-format bitrate, and
/// otherwise positive: a frame is longer than its header.
pub proof fn lemma_frame_size_positive(f: HeaderFields)
    requires
        well_formed(f),
    ensures
        frame_size_spec(f) is None <==> f.bitrate is FreeFormat,
        frame_size_spec(f) matches Some(n) ==> n > 4,
{
    if let Bitrate::Indexed(kbps) = f.bitrate {
        lemma_well_formed_rates(f);
        let bytes = samples_per_frame(f.layer) * byte_rate(kbps as int);
        let hz = f.sampling_rate as int;
        assert(bytes / hz >= 8) by (nonlinear_arith)
            requires
                bytes >= 384000,
                0 < hz <= 48000,
        ;
    }
}

/// At a fixed sampling rate, a higher bitrate never gives a shorter frame.
pub proof fn lemma_frame_size_grows_with_bitrate(f: HeaderFields, g: HeaderFields)
    requires
        f.layer == g.layer,
        f.padding == g.padding,
        f.sampling_rate == g.sampling_rate,
        f.sampling_rate > 0,
        f.bitrate matches Bitrate::Indexed(low) && g.bitrate matches Bitrate::Indexed(high) && low
            <= high,
    ensures
        frame_size_spec(f)->0 <= frame_size_spec(g)->0,
{
    let low = f.bitrate->Indexed_0 as int;
    let high = g.bitrate->Indexed_0 as int;
    let samples = samples_per_frame(f.layer);
    vstd::arithmetic::div_mod::lemma_div_is_ordered(
        samples * byte_rate(low),
        samples * byte_rate(high),
        f.sampling_rate as int,
    );
}

/// At a fixed bitrate, a higher sampling rate never gives a longer frame.
pub proof fn lemma_frame_size_shrinks_with_sampling_rate(f: HeaderFields, g: HeaderFields)
    requires
        f.layer == g.layer,
        f.padding == g.padding,
        f.bitrate == g.bitrate,
        f.bitrate is Indexed,
        0 < f.sampling_rate <= g.sampling_rate,
    ensures
        frame_size_spec(f)->0 >= frame_size_spec(g)->0,
{
    let kbps = f.bitrate->Indexed_0 as int;
    vstd::arithmetic::div_mod::lemma_div_is_ordered_by_denominator(
        samples_per_frame(f.layer) * byte_rate(kbps),
        f.sampling_rate as int,
        g.sampling_rate as int,
    );
}

} // verus!
