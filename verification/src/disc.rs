//! What is known of a disc, as plain values. Texts that the disc library
//! renders (names of codecs, sizes, durations) are held as it renders them.

use vstd::prelude::*;

verus! {

/// The codecs that are shown under a name of their own.
#[derive(Clone, Copy, Debug, PartialEq, Eq, Structural)]
pub enum CodecKind {
    Ac3,
    Ac3Plus,
    DvdSub,
    Unknown(u8),
    Other,
}

/// The coding of a stream.
#[derive(Clone, Debug)]
pub struct Codec {
    pub kind: CodecKind,
    /// The name that the disc library gives it.
    pub name: String,
}

/// What an audio track is for.
#[derive(Clone, Copy, Debug, PartialEq, Eq, Structural)]
pub enum LabelPurpose {
    Normal,
    Commentary,
    Descriptive,
    Score,
    Ime,
}

/// What a subtitle track adds.
#[derive(Clone, Copy, Debug, PartialEq, Eq, Structural)]
pub enum LabelQualifier {
    Plain,
    Sdh,
    DescriptiveService,
    Forced,
}

/// The dynamic ranges that are told apart.
#[derive(Clone, Copy, Debug, PartialEq, Eq, Structural)]
pub enum HdrKind {
    Sdr,
    DolbyVision,
    Other,
}

/// A video stream.
#[derive(Clone, Debug)]
pub struct VideoStream {
    pub pid: u16,
    pub codec: Codec,
    pub resolution: String,
    pub frame_rate: String,
    pub frame_rate_known: bool,
    pub hdr: HdrKind,
    pub hdr_name: String,
    pub color_space: String,
    pub bt2020: bool,
    pub secondary: bool,
    pub label: String,
}

/// An audio stream.
#[derive(Clone, Debug)]
pub struct AudioStream {
    pub pid: u16,
    pub codec: Codec,
    pub channels: String,
    pub language: String,
    pub sample_rate: String,
    pub secondary: bool,
    pub purpose: LabelPurpose,
    pub label: String,
}

/// A subtitle stream.
#[derive(Clone, Debug)]
pub struct SubtitleStream {
    pub pid: u16,
    pub codec: Codec,
    pub language: String,
    pub forced: bool,
    pub qualifier: LabelQualifier,
}

/// One stream of a title.
#[derive(Clone, Debug)]
pub enum Stream {
    Video(VideoStream),
    Audio(AudioStream),
    Subtitle(SubtitleStream),
}

/// One title of a disc.
#[derive(Clone, Debug)]
pub struct Title {
    pub playlist: String,
    pub playlist_id: u16,
    /// Whole seconds.
    pub duration_secs: u64,
    /// The duration in seconds, with one decimal.
    pub duration_tenths: String,
    /// The duration in seconds, rounded.
    pub duration_rounded: String,
    pub size_bytes: u64,
    /// The size in billions of bytes, with one decimal.
    pub size_gb: String,
    /// The size as the title list of a window shows it.
    pub size_text: String,
    pub clips: Vec<String>,
    pub streams: Vec<Stream>,
    pub chapters: u64,
    /// The runs of sectors that the title is read from: first sector, count.
    pub extents: Vec<(u32, u32)>,
    pub has_video: bool,
    pub has_probable_video: bool,
}

/// The kinds of disc.
#[derive(Clone, Copy, Debug, PartialEq, Eq, Structural)]
pub enum DiscFormat {
    Uhd,
    Fmts,
    BluRay,
    HdDvd,
    Dvd,
    Unknown,
}

/// The regions of a Blu-ray disc.
#[derive(Clone, Copy, Debug, PartialEq, Eq, Structural)]
pub enum BdRegion {
    A,
    B,
    C,
}

/// Where a disc may be played.
#[derive(Clone, Debug)]
pub enum DiscRegion {
    Free,
    BluRay(Vec<BdRegion>),
    Dvd(Vec<u8>),
}

/// Where the keys of a disc came from.
#[derive(Clone, Copy, Debug, PartialEq, Eq, Structural)]
pub enum KeyOrigin {
    DeviceKey,
    ProcessingKey,
    KeyDbDerived,
    KeyDb,
    KeyDbUnitKeys,
    ExternalUk,
}

/// What a disc with AACS protection carries and what was found out about it.
#[derive(Clone, Debug)]
pub struct AacsState {
    pub version: u8,
    pub bus_encryption: bool,
    pub mkb_version: Option<u32>,
    pub disc_hash: String,
    pub key_source: KeyOrigin,
    pub vuk: Option<Vec<u8>>,
    pub unit_keys: Vec<(u32, Vec<u8>)>,
    pub volume_id: Vec<u8>,
}

/// A scanned disc.
#[derive(Clone, Debug)]
pub struct Disc {
    pub volume_id: String,
    pub meta_title: Option<String>,
    pub format: DiscFormat,
    pub capacity_bytes: u64,
    /// The capacity in billions of bytes, with one decimal.
    pub capacity_gb: String,
    pub layers: u8,
    pub titles: Vec<Title>,
    pub region: DiscRegion,
    pub aacs: Option<AacsState>,
    /// The disc has CSS protection whose keys were found.
    pub css: bool,
    /// The search for the CSS keys failed.
    pub css_error: bool,
    pub encrypted: bool,
}

impl DiscFormat {
    /// The name of the format, as a word of the program.
    pub open spec fn word(self) -> Seq<char> {
        match self {
            DiscFormat::Uhd => "Uhd"@,
            DiscFormat::Fmts => "Fmts"@,
            DiscFormat::BluRay => "BluRay"@,
            DiscFormat::HdDvd => "HdDvd"@,
            DiscFormat::Dvd => "Dvd"@,
            DiscFormat::Unknown => "Unknown"@,
        }
    }

    /// The name of the format, as a word of the program.
    pub fn to_word(self) -> (r: &'static str)
        ensures
            r@ == self.word(),
    {
        match self {
            DiscFormat::Uhd => "Uhd",
            DiscFormat::Fmts => "Fmts",
            DiscFormat::BluRay => "BluRay",
            DiscFormat::HdDvd => "HdDvd",
            DiscFormat::Dvd => "Dvd",
            DiscFormat::Unknown => "Unknown",
        }
    }
}

/// Some byte is not zero.
pub open spec fn any_nonzero(bytes: Seq<u8>) -> bool {
    exists|i: int| 0 <= i < bytes.len() && #[trigger] bytes[i] != 0
}

/// Whether some byte is not zero.
pub fn has_nonzero(bytes: &Vec<u8>) -> (r: bool)
    ensures
        r == any_nonzero(bytes@),
{
    for i in 0..bytes.len()
        invariant
            forall|j: int| 0 <= j < i ==> #[trigger] bytes@[j] == 0,
    {
        if bytes[i] != 0 {
            return true;
        }
    }
    false
}

} // verus!
