//! What the compositor hands its encoders and receives from them.
use vstd::prelude::*;
use std::sync::Arc;

verus! {

/// A bitstream a compositor-resident encoder produced for exactly one
/// client. It is never shared between subscribers: each viewer has its own
/// encoder, and so its own GOP and quantizer.
pub struct EncodedFrame {
    pub surface_id: u16,
    pub client_id: u64,
    pub width: u32,
    pub height: u32,
    pub data: Arc<Vec<u8>>,
    pub is_keyframe: bool,
    /// The codec of `data`, as the viewer protocol numbers codecs.
    pub codec_flag: u8,
}

/// Offset and pitch of one plane of a multi-plane DMA-BUF import.
#[derive(Clone, Copy, Debug, PartialEq, Eq, Structural)]
pub struct ExternalOutputPlane {
    pub offset: u32,
    pub pitch: u32,
}

impl Default for ExternalOutputPlane {
    fn default() -> (plane: Self)
        ensures
            plane.offset == 0 && plane.pitch == 0,
    {
        ExternalOutputPlane { offset: 0, pitch: 0 }
    }
}

} // verus!
