//! The decoded record tree: a closed sum type of every known record shape,
//! plus its mathematical view. Values whose wire encoding is an IEEE-754
//! 32-bit float are carried as their raw big-endian bit pattern; turning the
//! bits into a float is the caller's concern, outside the decoder.

use vstd::prelude::*;

verus! {

broadcast use vstd::std_specs::vec::axiom_vec_index_decreases;

/// A record header: the 4-byte type key packed big-endian into one integer,
/// the element type tag, the element size and the element count.
#[derive(Clone, Copy, Debug, PartialEq, Eq, Structural)]
pub struct RecordHeader {
    pub key: u32,
    pub tag: u8,
    pub size: u8,
    pub count: u16,
}

/// One decoded record, tagged by its type key.
#[derive(Debug, PartialEq)]
pub enum Block {
    /// A device-level grouping record: its payload is a nested record list.
    DeviceSource(Vec<Block>),
    DeviceID([u8; 4]),
    DeviceName(String),
    /// A stream-level grouping record: its payload is a nested record list.
    Stream(Vec<Block>),
    StartTimestamp(u64),
    TotalSamples(u32),
    StreamName(String),
    InputOrientation(String),
    UnitsSI(String),
    /// A single signed scaling factor.
    ScalingFactorS(i16),
    /// A vector of signed scaling factors, used for location scale vectors.
    ScalingFactorL(Vec<i32>),
    /// Degrees Celsius as raw 32-bit float bits.
    Temperature(u32),
    Acceleration(Vec<(i16, i16, i16)>),
    Gyroscope(Vec<(i16, i16, i16)>),
    /// Shutter speeds as raw 32-bit float bits.
    ShutterSpeed(Vec<u32>),
    WhiteBalance(Vec<u16>),
    /// Red/green/blue gain triplets as raw 32-bit float bits.
    WhiteBalanceRGBGains(Vec<(u32, u32, u32)>),
    ISO(Vec<u16>),
    /// Uniformity measures as raw 32-bit float bits.
    ImageUniformity(Vec<u32>),
    Type(String),
    /// A record of an unknown type key: its label and its raw payload.
    Custom(String, Vec<u8>),
    GPSF(u32),
    GPSTimestamp(String),
    GPSP(u16),
    GPSA([u8; 4]),
    GPS5(Vec<u8>),
    CameraOrientation(Vec<(i16, i16, i16, i16)>),
    ImageOrientation(Vec<(i16, i16, i16, i16)>),
    GravityVector(Vec<(i16, i16, i16)>),
    WindProcessing(Vec<(u8, u8)>),
    MicrophoneWet(Vec<(u8, u8, u8)>),
    AGCAudioLevel(Vec<(i8, i8)>),
    MRVFrameSkip(Vec<i16>),
    LRVO(i8),
    LRVS(i8),
    LRVFrameSkip(Vec<i16>),
}

/// The mathematical value of a decoded record.
pub enum BlockView {
    DeviceSource(Seq<BlockView>),
    DeviceID(Seq<u8>),
    DeviceName(Seq<char>),
    Stream(Seq<BlockView>),
    StartTimestamp(u64),
    TotalSamples(u32),
    StreamName(Seq<char>),
    InputOrientation(Seq<char>),
    UnitsSI(Seq<char>),
    ScalingFactorS(i16),
    ScalingFactorL(Seq<i32>),
    Temperature(u32),
    Acceleration(Seq<(i16, i16, i16)>),
    Gyroscope(Seq<(i16, i16, i16)>),
    ShutterSpeed(Seq<u32>),
    WhiteBalance(Seq<u16>),
    WhiteBalanceRGBGains(Seq<(u32, u32, u32)>),
    ISO(Seq<u16>),
    ImageUniformity(Seq<u32>),
    Type(Seq<char>),
    Custom(Seq<char>, Seq<u8>),
    GPSF(u32),
    GPSTimestamp(Seq<char>),
    GPSP(u16),
    GPSA(Seq<u8>),
    GPS5(Seq<u8>),
    CameraOrientation(Seq<(i16, i16, i16, i16)>),
    ImageOrientation(Seq<(i16, i16, i16, i16)>),
    GravityVector(Seq<(i16, i16, i16)>),
    WindProcessing(Seq<(u8, u8)>),
    MicrophoneWet(Seq<(u8, u8, u8)>),
    AGCAudioLevel(Seq<(i8, i8)>),
    MRVFrameSkip(Seq<i16>),
    LRVO(i8),
    LRVS(i8),
    LRVFrameSkip(Seq<i16>),
}

/// The mathematical value of a record, children viewed recursively.
pub open spec fn block_view(b: Block) -> BlockView
    decreases b,
{
    match b {
        Block::DeviceSource(v) => BlockView::DeviceSource(
            Seq::new(v@.len(), |i: int| if 0 <= i < v@.len() {
                block_view(v[i])
            } else {
                arbitrary()
            }),
        ),
        Block::Stream(v) => BlockView::Stream(
            Seq::new(v@.len(), |i: int| if 0 <= i < v@.len() {
                block_view(v[i])
            } else {
                arbitrary()
            }),
        ),
        Block::DeviceID(a) => BlockView::DeviceID(a@),
        Block::DeviceName(t) => BlockView::DeviceName(t@),
        Block::StartTimestamp(x) => BlockView::StartTimestamp(x),
        Block::TotalSamples(x) => BlockView::TotalSamples(x),
        Block::StreamName(t) => BlockView::StreamName(t@),
        Block::InputOrientation(t) => BlockView::InputOrientation(t@),
        Block::UnitsSI(t) => BlockView::UnitsSI(t@),
        Block::ScalingFactorS(x) => BlockView::ScalingFactorS(x),
        Block::ScalingFactorL(v) => BlockView::ScalingFactorL(v@),
        Block::Temperature(x) => BlockView::Temperature(x),
        Block::Acceleration(v) => BlockView::Acceleration(v@),
        Block::Gyroscope(v) => BlockView::Gyroscope(v@),
        Block::ShutterSpeed(v) => BlockView::ShutterSpeed(v@),
        Block::WhiteBalance(v) => BlockView::WhiteBalance(v@),
        Block::WhiteBalanceRGBGains(v) => BlockView::WhiteBalanceRGBGains(v@),
        Block::ISO(v) => BlockView::ISO(v@),
        Block::ImageUniformity(v) => BlockView::ImageUniformity(v@),
        Block::Type(t) => BlockView::Type(t@),
        Block::Custom(t, v) => BlockView::Custom(t@, v@),
        Block::GPSF(x) => BlockView::GPSF(x),
        Block::GPSTimestamp(t) => BlockView::GPSTimestamp(t@),
        Block::GPSP(x) => BlockView::GPSP(x),
        Block::GPSA(a) => BlockView::GPSA(a@),
        Block::GPS5(v) => BlockView::GPS5(v@),
        Block::CameraOrientation(v) => BlockView::CameraOrientation(v@),
        Block::ImageOrientation(v) => BlockView::ImageOrientation(v@),
        Block::GravityVector(v) => BlockView::GravityVector(v@),
        Block::WindProcessing(v) => BlockView::WindProcessing(v@),
        Block::MicrophoneWet(v) => BlockView::MicrophoneWet(v@),
        Block::AGCAudioLevel(v) => BlockView::AGCAudioLevel(v@),
        Block::MRVFrameSkip(v) => BlockView::MRVFrameSkip(v@),
        Block::LRVO(x) => BlockView::LRVO(x),
        Block::LRVS(x) => BlockView::LRVS(x),
        Block::LRVFrameSkip(v) => BlockView::LRVFrameSkip(v@),
    }
}

/// The views of a list of records, in order.
pub open spec fn blocks_view(v: Seq<Block>) -> Seq<BlockView> {
    v.map_values(|b: Block| block_view(b))
}

/// The view of a device grouping is the grouping of its children's views.
pub proof fn lemma_view_device_source(v: Vec<Block>)
    ensures
        block_view(Block::DeviceSource(v)) == BlockView::DeviceSource(blocks_view(v@)),
{
    let bv = block_view(Block::DeviceSource(v));
    let s = bv->DeviceSource_0;
    assert(s =~= blocks_view(v@));
}

/// The view of a stream grouping is the grouping of its children's views.
pub proof fn lemma_view_stream(v: Vec<Block>)
    ensures
        block_view(Block::Stream(v)) == BlockView::Stream(blocks_view(v@)),
{
    let bv = block_view(Block::Stream(v));
    let s = bv->Stream_0;
    assert(s =~= blocks_view(v@));
}

/// Appending one record appends its view.
pub proof fn lemma_blocks_view_push(s: Seq<Block>, b: Block)
    ensures
        blocks_view(s.push(b)) == blocks_view(s) + seq![block_view(b)],
{
    assert(blocks_view(s.push(b)) =~= blocks_view(s) + seq![block_view(b)]);
}

} // verus!
