//! Frame sequences.
//!
//! A video is a sequence of frames already converted to palette-indexed
//! bytes, one byte per pixel.  Finding, decoding and dithering the source
//! images involves the file system and floating-point arithmetic and happens
//! outside the library; this module holds the converted frames and
//! concatenates them into the flat byte block that a build places into the
//! image.

use vstd::prelude::*;

use crate::image::{build_palette, is_bytepusher_palette};

verus! {

/// One converted frame of a sequence.
#[derive(Debug, Clone)]
pub struct ProcessedFrame {
    /// The frame's pixel bytes.
    pub rgb_data: Vec<u8>,
    /// Width of the frame in pixels.
    pub width: u32,
    /// Height of the frame in pixels.
    pub height: u32,
    /// Position of the frame in its sequence.
    pub frame_index: usize,
    /// Name of the file the frame came from.
    pub file_name: String,
}

/// The pixel bytes of all frames, concatenated in sequence order.
pub open spec fn flat_frames(frames: Seq<ProcessedFrame>) -> Seq<u8>
    decreases frames.len(),
{
    if frames.len() == 0 {
        Seq::empty()
    } else {
        flat_frames(frames.drop_last()) + frames.last().rgb_data@
    }
}

/// Concatenate the pixel bytes of the given frames, in order, into one flat
/// block, ready to be placed into the image with `db_arr`.
pub fn process_png_sequence_flat(frames: &Vec<ProcessedFrame>) -> (r: Vec<u8>)
    ensures
        r@ == flat_frames(frames@),
{
    let mut result: Vec<u8> = Vec::new();
    for i in 0..frames.len()
        invariant
            result@ == flat_frames(frames@.subrange(0, i as int)),
    {
        result.extend_from_slice(frames[i].rgb_data.as_slice());
        proof {
            assert(frames@.subrange(0, i + 1).drop_last() =~= frames@.subrange(0, i as int));
            assert(frames@.subrange(0, i + 1).last() == frames@[i as int]);
        }
    }
    proof {
        assert(frames@.subrange(0, frames@.len() as int) =~= frames@);
    }
    result
}

/// Build the fixed 216-color palette of the target machine.
pub fn generate_bytepusher_palette() -> (p: Vec<[u8; 3]>)
    ensures
        is_bytepusher_palette(p@),
{
    build_palette()
}

/// The fixed 216-color palette of the target machine.
pub fn get_bytepusher_palette() -> (p: Vec<[u8; 3]>)
    ensures
        is_bytepusher_palette(p@),
{
    generate_bytepusher_palette()
}

} // verus!
