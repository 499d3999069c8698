//! Checks and layout of TIFF export for camera frames: frame sizes, stack
//! consistency, numbered file names, and 16-bit sample decoding. The image
//! encoding itself is done by the application.

use vstd::prelude::*;
use crate::text::{decimal, push_decimal, push_str, string_of};

verus! {

/// TIFF export of camera frames: 8-bit and 16-bit grayscale.
pub struct TiffWriter;

/// Bytes a frame holds: two per pixel at 16 bits, one otherwise.
pub open spec fn frame_bytes(width: u32, height: u32, bit_depth: u32) -> nat {
    if bit_depth == 16 {
        (width as nat) * (height as nat) * 2
    } else {
        (width as nat) * (height as nat)
    }
}

/// "WxH Nbit".
pub open spec fn dims_text(width: u32, height: u32, bit_depth: u32) -> Seq<char> {
    decimal(width as nat) + "x"@ + decimal(height as nat) + " "@ + decimal(bit_depth as nat) + "bit"@
}

/// The message for a frame whose data has the wrong size.
pub open spec fn size_mismatch_message(width: u32, height: u32, bit_depth: u32, len: nat) -> Seq<char> {
    "Frame data size mismatch: expected "@ + decimal(frame_bytes(width, height, bit_depth)) + " bytes for "@
        + dims_text(width, height, bit_depth) + ", got "@ + decimal(len) + " bytes"@
}

/// The message for frame `i` of a stack that differs from the first frame.
pub open spec fn inconsistent_message(i: nat, f: (u32, u32, u32), first: (u32, u32, u32)) -> Seq<char> {
    "Frame "@ + decimal(i) + " has inconsistent dimensions: "@ + dims_text(f.0, f.1, f.2) + " vs expected "@
        + dims_text(first.0, first.1, first.2)
}

/// `name_NNNN.ext`: the index padded with zeros to at least four digits.
pub open spec fn numbered_name(base: Seq<char>, index: nat, extension: Seq<char>) -> Seq<char> {
    base + "_"@ + padded4(index) + "."@ + extension
}

/// Decimal digits of `n`, padded with zeros on the left to four digits.
pub open spec fn padded4(n: nat) -> Seq<char> {
    let d = decimal(n);
    if d.len() >= 4 {
        d
    } else {
        Seq::new((4 - d.len()) as nat, |i: int| '0') + d
    }
}

fn dims(s: &mut String, width: u32, height: u32, bit_depth: u32)
    ensures
        final(s)@ == old(s)@ + dims_text(width, height, bit_depth),
{
    push_decimal(s, width as u64);
    push_str(s, "x");
    push_decimal(s, height as u64);
    push_str(s, " ");
    push_decimal(s, bit_depth as u64);
    push_str(s, "bit");
}

impl TiffWriter {
    /// Bytes a frame of the given size and depth holds.
    pub fn expected_bytes(width: u32, height: u32, bit_depth: u32) -> (r: usize)
        requires
            frame_bytes(width, height, bit_depth) <= usize::MAX,
        ensures
            r == frame_bytes(width, height, bit_depth),
    {
        let w = width as usize;
        let h = height as usize;
        proof {
            assert((w as nat) * (h as nat) <= frame_bytes(width, height, bit_depth)) by (nonlinear_arith)
                requires
                    frame_bytes(width, height, bit_depth) == if bit_depth == 16 {
                        (width as nat) * (height as nat) * 2
                    } else {
                        (width as nat) * (height as nat)
                    },
                    w == width,
                    h == height,
            ;
        }
        if bit_depth == 16 {
            w * h * 2
        } else {
            w * h
        }
    }

    /// Check that frame data has the size its dimensions and depth call for.
    pub fn check_frame_size(width: u32, height: u32, bit_depth: u32, data_len: usize) -> (r: Result<(), String>)
        requires
            frame_bytes(width, height, bit_depth) <= usize::MAX,
        ensures
            r is Ok <==> data_len == frame_bytes(width, height, bit_depth),
            r matches Err(m) ==> m@ == size_mismatch_message(width, height, bit_depth, data_len as nat),
    {
        let expected = TiffWriter::expected_bytes(width, height, bit_depth);
        if data_len != expected {
            let mut m = string_of("Frame data size mismatch: expected ");
            push_decimal(&mut m, expected as u64);
            push_str(&mut m, " bytes for ");
            dims(&mut m, width, height, bit_depth);
            push_str(&mut m, ", got ");
            push_decimal(&mut m, data_len as u64);
            push_str(&mut m, " bytes");
            return Err(m);
        }
        Ok(())
    }

    /// Check a stack of frames, given as (width, height, bit depth): it must
    /// not be empty, and every frame must match the first.
    pub fn check_stack(frames: &Vec<(u32, u32, u32)>) -> (r: Result<(), String>)
        ensures
            frames@.len() == 0 ==> (r matches Err(m) && m@ == "Cannot write empty frame stack"@),
            frames@.len() > 0 ==> (r is Ok <==> forall|i: int| 0 <= i < frames@.len() ==> #[trigger] frames@[i] == frames@[0]),
            frames@.len() > 0 ==> (r matches Err(m) ==> exists|i: int| #![trigger frames@[i]] {
                &&& 0 <= i < frames@.len()
                &&& (forall|j: int| 0 <= j < i ==> #[trigger] frames@[j] == frames@[0])
                &&& frames@[i] != frames@[0]
                &&& m@ == inconsistent_message(i as nat, frames@[i], frames@[0])
            }),
    {
        if frames.len() == 0 {
            return Err(string_of("Cannot write empty frame stack"));
        }
        let first = frames[0];
        let mut i: usize = 0;
        while i < frames.len()
            invariant
                frames@.len() > 0,
                first == frames@[0],
                i <= frames@.len(),
                forall|j: int| 0 <= j < i ==> #[trigger] frames@[j] == frames@[0],
            decreases frames.len() - i,
        {
            let f = frames[i];
            if f.0 != first.0 || f.1 != first.1 || f.2 != first.2 {
                let mut m = string_of("Frame ");
                push_decimal(&mut m, i as u64);
                push_str(&mut m, " has inconsistent dimensions: ");
                dims(&mut m, f.0, f.1, f.2);
                push_str(&mut m, " vs expected ");
                dims(&mut m, first.0, first.1, first.2);
                return Err(m);
            }
            i = i + 1;
        }
        Ok(())
    }

    /// File name of frame `index` of a stack: `base_NNNN.ext`.
    pub fn stack_file_name(base: &str, index: usize, extension: &str) -> (r: String)
        ensures
            r@ == numbered_name(base@, index as nat, extension@),
    {
        let mut digits = String::new();
        push_decimal(&mut digits, index as u64);
        let mut r = string_of(base);
        push_str(&mut r, "_");
        let n = digits.as_str().unicode_len();
        let mut k = n;
        let ghost start = r@;
        while k < 4
            invariant
                n == decimal(index as nat).len(),
                n <= k <= 4 || (n > 4 && k == n),
                r@ == start + Seq::new((k - n) as nat, |i: int| '0'),
            decreases 4 - k,
        {
            push_str(&mut r, "0");
            proof {
                reveal_strlit("0");
                assert(start + Seq::new((k + 1 - n) as nat, |i: int| '0') =~= start + Seq::new((k - n) as nat, |i: int| '0') + "0"@);
            }
            k = k + 1;
        }
        push_str(&mut r, digits.as_str());
        push_str(&mut r, ".");
        push_str(&mut r, extension);
        proof {
            assert(digits@ =~= decimal(index as nat));
            if n >= 4 {
                assert(Seq::new((k - n) as nat, |i: int| '0') =~= Seq::<char>::empty());
            }
        }
        r
    }

    /// 16-bit samples from little-endian byte pairs; a trailing odd byte is ignored.
    pub fn samples_16bit(bytes: &Vec<u8>) -> (r: Vec<u16>)
        ensures
            r@.len() == bytes@.len() / 2,
            forall|i: int| 0 <= i < r@.len() ==> #[trigger] r@[i] == bytes@[2 * i] + 256 * bytes@[2 * i + 1],
    {
        let mut r: Vec<u16> = Vec::new();
        let mut i: usize = 0;
        while i + 1 < bytes.len()
            invariant
                i == 2 * r@.len(),
                i <= bytes@.len(),
                forall|j: int| 0 <= j < r@.len() ==> #[trigger] r@[j] == bytes@[2 * j] + 256 * bytes@[2 * j + 1],
            decreases bytes.len() - i,
        {
            let lo = bytes[i] as u16;
            let hi = bytes[i + 1] as u16;
            r.push(lo + 256 * hi);
            i = i + 2;
        }
        r
    }
}

} // verus!
