use vstd::prelude::*;

verus! {

/// The kind of a media stream.
#[derive(Debug, Clone, Copy, PartialEq, Eq, Structural)]
pub enum MediaType {
    Audio,
    Video,
}

/// The codecs that the bridge can send and receive.
#[derive(Debug, Clone, Copy, PartialEq, Eq, Structural)]
pub enum Codec {
    G711PCMA,
    G711PCMU,
    G722,
    H264,
}

pub open spec fn spec_media_type(codec: Codec) -> MediaType {
    match codec {
        Codec::H264 => MediaType::Video,
        _ => MediaType::Audio,
    }
}

pub open spec fn spec_encoding_name(codec: Codec) -> Seq<char> {
    match codec {
        Codec::G711PCMA => seq!['P', 'C', 'M', 'A'],
        Codec::G711PCMU => seq!['P', 'C', 'M', 'U'],
        Codec::G722 => seq!['G', '7', '2', '2'],
        Codec::H264 => seq!['H', '2', '6', '4'],
    }
}

pub open spec fn spec_clock_rate(codec: Codec) -> u32 {
    match codec {
        Codec::H264 => 90_000,
        _ => 8000,
    }
}

impl Codec {
    /// Audio for the G.711 and G.722 codecs, video for H.264.
    pub fn media_type(self) -> (r: MediaType)
        ensures
            r == spec_media_type(self),
    {
        match self {
            Codec::G711PCMA | Codec::G711PCMU | Codec::G722 => MediaType::Audio,
            Codec::H264 => MediaType::Video,
        }
    }

    /// The encoding name used in SDP `rtpmap` attributes.
    pub fn encoding_name(self) -> (r: &'static str)
        ensures
            r@ == spec_encoding_name(self),
    {
        proof {
            reveal_strlit("PCMA");
            reveal_strlit("PCMU");
            reveal_strlit("G722");
            reveal_strlit("H264");
        }
        match self {
            Codec::G711PCMA => "PCMA",
            Codec::G711PCMU => "PCMU",
            Codec::G722 => "G722",
            Codec::H264 => "H264",
        }
    }

    /// RTP clock rate: 8000 Hz for the audio codecs, 90000 Hz for H.264.
    pub fn clock_rate(self) -> (r: u32)
        ensures
            r == spec_clock_rate(self),
    {
        match self {
            Codec::G711PCMA | Codec::G711PCMU | Codec::G722 => 8000,
            Codec::H264 => 90_000,
        }
    }
}

} // verus!
