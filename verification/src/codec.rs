//! Codecs a stream output can be encoded with, and the hardware encoder
//! classes a worker can expose.

use vstd::prelude::*;

verus! {

/// A video codec supported by the fleet.
#[derive(Debug, Clone, Copy, PartialEq, Eq, Structural)]
pub enum Codec {
    H264,
    H265,
    AV1,
}

/// The name ffmpeg uses for a codec.
pub open spec fn codec_name(c: Codec) -> Seq<char> {
    match c {
        Codec::H264 => "h264"@,
        Codec::H265 => "hevc"@,
        Codec::AV1 => "av1"@,
    }
}

impl Codec {
    /// The codec's name as ffmpeg spells it.
    pub fn ffmpeg_name(&self) -> (r: &'static str)
        ensures
            r@ == codec_name(*self),
    {
        match self {
            Codec::H264 => "h264",
            Codec::H265 => "hevc",
            Codec::AV1 => "av1",
        }
    }

    /// Every codec, in a fixed order.
    pub fn all() -> (r: Vec<Codec>)
        ensures
            r@ == seq![Codec::H264, Codec::H265, Codec::AV1],
    {
        let mut v: Vec<Codec> = Vec::new();
        v.push(Codec::H264);
        v.push(Codec::H265);
        v.push(Codec::AV1);
        proof {
            assert(v@ =~= seq![Codec::H264, Codec::H265, Codec::AV1]);
        }
        v
    }
}

/// A hardware encoder class a worker can report.
#[derive(Debug, Clone, Copy, PartialEq, Eq, Structural)]
pub enum Encoder {
    NVENC,
    VideoToolbox,
    U30,
    NIT2A,
}

/// The name ffmpeg uses for an encoder class.
pub open spec fn encoder_name(e: Encoder) -> Seq<char> {
    match e {
        Encoder::NVENC => "nvenc"@,
        Encoder::VideoToolbox => "videotoolbox"@,
        Encoder::U30 => "mpsoc_vcu"@,
        Encoder::NIT2A => "ni_quadra"@,
    }
}

impl Encoder {
    /// Every encoder class, in a fixed order.
    pub fn all() -> (r: Vec<Encoder>)
        ensures
            r@ == seq![
                Encoder::NVENC,
                Encoder::VideoToolbox,
                Encoder::U30,
                Encoder::NIT2A,
            ],
    {
        let mut v: Vec<Encoder> = Vec::new();
        v.push(Encoder::NVENC);
        v.push(Encoder::VideoToolbox);
        v.push(Encoder::U30);
        v.push(Encoder::NIT2A);
        proof {
            assert(v@ =~= seq![
                Encoder::NVENC,
                Encoder::VideoToolbox,
                Encoder::U30,
                Encoder::NIT2A,
            ]);
        }
        v
    }

    /// The encoder class's name as it appears in ffmpeg encoder names.
    pub fn ffmpeg_name(&self) -> (r: &'static str)
        ensures
            r@ == encoder_name(*self),
    {
        match self {
            Encoder::NVENC => "nvenc",
            Encoder::VideoToolbox => "videotoolbox",
            Encoder::U30 => "mpsoc_vcu",
            Encoder::NIT2A => "ni_quadra",
        }
    }
}

} // verus!
