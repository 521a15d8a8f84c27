//! A virtual machine whose memory, registers and instruction stream are all
//! 24-bit words carried by the pixels of a raster image.
//!
//! The crate models a word both as a scalar and as a packed 12-bit/12-bit
//! raster coordinate, keeps the program, input and output grids as
//! bounds-checked two-dimensional word arrays, and runs a fetch-decode-execute
//! loop whose per-cycle behaviour is pinned down by the spec-level transition
//! function [`vm::spec_step`].
//!
//! This file holds the image-facing boundary: decoding a caller's encoded
//! image bytes to an RGB8 pixel grid is the one outside call, and everything
//! around it — packing three samples into a word, running the machine,
//! flattening the grids back to raw samples — is verified.

use vstd::prelude::*;

use crate::error::Error;
use crate::memory::{GridModel, RasterMemory};
use crate::vm::{
    grid_opt_view, init_model, inputs_oversized, run_program, spec_run, StepOutcome, VmModel,
};
use crate::word::word_wf;

pub mod error;
pub mod instruction;
pub mod memory;
pub mod registers;
pub mod vm;
pub mod word;

verus! {

/// The word three consecutive RGB8 samples form, MSB-first.
pub open spec fn word_of_bytes(b0: u8, b1: u8, b2: u8) -> u32 {
    (b0 as int * 0x10000 + b1 as int * 0x100 + b2 as int) as u32
}

/// One of the three bytes of a word, MSB-first.
pub open spec fn byte_of_word(w: u32, k: int) -> u8 {
    if k == 0 {
        (w as int / 0x10000) as u8
    } else if k == 1 {
        ((w as int / 0x100) % 0x100) as u8
    } else {
        (w as int % 0x100) as u8
    }
}

/// The words a raw RGB8 sample buffer carries, three samples per word.
pub open spec fn words_of_bytes(bytes: Seq<u8>) -> Seq<u32> {
    Seq::new(
        bytes.len() / 3,
        |i: int| word_of_bytes(bytes[3 * i], bytes[3 * i + 1], bytes[3 * i + 2]),
    )
}

/// The raw RGB8 sample buffer a word sequence flattens to.
pub open spec fn bytes_of_words(words: Seq<u32>) -> Seq<u8> {
    Seq::new(words.len() * 3, |i: int| byte_of_word(words[i / 3], i % 3))
}

/// What the image-loading boundary yields for a byte buffer: the decoded
/// RGB8 grid's width, height and raw samples, or nothing when the bytes do
/// not decode to an image. The result is a function of the bytes alone.
pub uninterp spec fn rgb8_of(bytes: Seq<u8>) -> Option<(u32, u32, Seq<u8>)>;

/// Relies on `image::load_from_memory` and `image::DynamicImage::to_rgb8`:
/// the decoded RGB8 buffer is a function of the encoded bytes alone, and
/// carries exactly three samples per pixel.
#[verifier::external_body]
fn decode_rgb8(bytes: &Vec<u8>) -> (r: Option<(u32, u32, Vec<u8>)>)
    ensures
        match r {
            Some((w, h, px)) => rgb8_of(bytes@) == Some((w, h, px@)) && px@.len() == 3 * (
            w as int) * (h as int),
            None => rgb8_of(bytes@) is None,
        },
{
    match image::load_from_memory(bytes) {
        Ok(img) => {
            let rgb = img.to_rgb8();
            let (w, h) = (rgb.width(), rgb.height());
            Some((w, h, rgb.into_raw()))
        },
        Err(_) => None,
    }
}

/// Packs a raw RGB8 sample buffer into a word grid, three samples per cell.
fn grid_from_rgb(width: u32, height: u32, bytes: Vec<u8>) -> (r: RasterMemory)
    requires
        bytes@.len() == 3 * (width as int) * (height as int),
    ensures
        r.wf(),
        r@ == (GridModel {
            width: width as nat,
            height: height as nat,
            cells: words_of_bytes(bytes@),
        }),
{
    let n: usize = bytes.len() / 3;
    proof {
        let q = width as int * height as int;
        assert(bytes@.len() == 3 * q) by (nonlinear_arith)
            requires
                bytes@.len() == 3 * (width as int) * (height as int),
                q == width as int * height as int,
        ;
        assert(bytes@.len() / 3 == q);
        assert(3 * (n as int) == bytes@.len());
    }
    let mut cells: Vec<u32> = Vec::new();
    let mut i: usize = 0;
    while i < n
        invariant
            n == bytes@.len() / 3,
            3 * (n as int) == bytes@.len(),
            bytes@.len() <= usize::MAX,
            bytes@.len() == 3 * (width as int) * (height as int),
            i <= n,
            cells@.len() == i,
            forall|j: int| 0 <= j < i ==> #[trigger] cells@[j] == words_of_bytes(bytes@)[j],
            forall|j: int| 0 <= j < i ==> word_wf(#[trigger] cells@[j]),
        decreases n - i,
    {
        proof {
            assert(3 * i + 2 < bytes@.len());
        }
        let b0 = bytes[3 * i];
        let b1 = bytes[3 * i + 1];
        let b2 = bytes[3 * i + 2];
        let w: u32 = (b0 as u32) * 0x10000 + (b1 as u32) * 0x100 + (b2 as u32);
        cells.push(w);
        i += 1;
    }
    proof {
        assert(cells@ =~= words_of_bytes(bytes@));
    }
    RasterMemory::from_words(width, height, cells)
}

/// Flattens a word grid back to its raw RGB8 sample buffer, three samples
/// per cell in raster order.
fn rgb_from_grid(m: &RasterMemory) -> (r: Vec<u8>)
    requires
        m.wf(),
        m@.within_limits(),
    ensures
        r@ == bytes_of_words(m@.cells),
{
    let w = m.width();
    let h = m.height();
    proof {
        assert(w as int * h as int <= 4096 * 4096) by (nonlinear_arith)
            requires
                w <= 4096,
                h <= 4096,
        ;
        assert(m@.cells.len() == w as int * h as int);
    }
    let n: usize = w as usize * h as usize;
    let mut bytes: Vec<u8> = Vec::new();
    let mut i: usize = 0;
    while i < n
        invariant
            n == m@.cells.len(),
            n <= 4096 * 4096,
            m.wf(),
            i <= n,
            bytes@.len() == 3 * i,
            forall|j: int| 0 <= j < 3 * i ==> #[trigger] bytes@[j] == bytes_of_words(m@.cells)[j],
        decreases n - i,
    {
        let c = m.word_at_index(i);
        bytes.push((c / 0x10000) as u8);
        bytes.push(((c / 0x100) % 0x100) as u8);
        bytes.push((c % 0x100) as u8);
        i += 1;
    }
    proof {
        assert(bytes@ =~= bytes_of_words(m@.cells));
    }
    bytes
}

/// What a run hands back: the possibly mutated program image's raw RGB8
/// samples, and the output image's, if any instruction materialised one.
pub struct Output {
    /// The program grid after the run, three samples per word.
    pub program: Vec<u8>,
    /// The output grid, present only if the program allocated into it.
    pub output: Option<Vec<u8>>,
}

/// The byte sequences an optional buffer carries.
pub open spec fn opt_bytes(i: Option<Vec<u8>>) -> Option<Seq<u8>> {
    match i {
        Some(b) => Some(b@),
        None => None,
    }
}

/// The word grid an encoded image decodes to, if it decodes at all.
pub open spec fn decoded_grid(bytes: Seq<u8>) -> Option<GridModel> {
    match rgb8_of(bytes) {
        Some((w, h, px)) => Some(
            GridModel { width: w as nat, height: h as nat, cells: words_of_bytes(px) },
        ),
        None => None,
    }
}

/// The grid an optional encoded image decodes to.
pub open spec fn decoded_opt_grid(bytes: Option<Seq<u8>>) -> Option<GridModel> {
    match bytes {
        Some(b) => decoded_grid(b),
        None => None,
    }
}

/// Whether the program image, and the input image if supplied, decode.
pub open spec fn images_decode(p: Seq<u8>, i: Option<Seq<u8>>) -> bool {
    &&& decoded_grid(p) is Some
    &&& match i {
        Some(b) => decoded_grid(b) is Some,
        None => true,
    }
}

/// The machine state a decoded pair of images starts a run in.
pub open spec fn start_model(p: Seq<u8>, i: Option<Seq<u8>>) -> VmModel {
    init_model(decoded_grid(p)->Some_0, decoded_opt_grid(i))
}

/// Whether either decoded image exceeds 4096 pixels a side.
pub open spec fn images_oversized(p: Seq<u8>, i: Option<Seq<u8>>) -> bool {
    inputs_oversized(decoded_grid(p)->Some_0, decoded_opt_grid(i))
}

/// Whether an `Output` is the flattening of a final machine state: the
/// program samples match its program grid, and the output samples are
/// present exactly when the run materialised an output grid, matching it.
pub open spec fn output_matches(m: VmModel, out: Output) -> bool {
    &&& out.program@ == bytes_of_words(m.program.cells)
    &&& match m.output {
        Some(g) => out.output is Some && out.output->Some_0@ == bytes_of_words(g.cells),
        None => out.output is None,
    }
}

/// Decodes the program image (and the input image, if supplied), runs the
/// machine, and flattens what it leaves behind. Bytes that do not decode
/// are rejected with `MalformedImage`; a decoded image over 4096 pixels a
/// side with `OversizedImage`, before anything executes. The instruction
/// set admits unbounded loops, so the run carries a step budget; a patient
/// caller passes `u64::MAX`.
pub fn process_image(program: Vec<u8>, input: Option<Vec<u8>>, max_steps: u64) -> (r: Result<
    Output,
    Error,
>)
    ensures
        !images_decode(program@, opt_bytes(input)) ==> r == Err::<Output, Error>(
            Error::MalformedImage,
        ),
        images_decode(program@, opt_bytes(input)) && images_oversized(program@, opt_bytes(input))
            ==> r == Err::<Output, Error>(Error::OversizedImage),
        images_decode(program@, opt_bytes(input)) && !images_oversized(
            program@,
            opt_bytes(input),
        ) ==> match r {
            Ok(out) => exists|n: nat|
                {
                    &&& n <= max_steps
                    &&& #[trigger] spec_run(start_model(program@, opt_bytes(input)), n) is Done
                    &&& output_matches(
                        spec_run(start_model(program@, opt_bytes(input)), n)->Done_0,
                        out,
                    )
                },
            Err(e) => {
                ||| {
                    &&& e == Error::StepLimitExceeded
                    &&& spec_run(start_model(program@, opt_bytes(input)), max_steps as nat) is Next
                }
                ||| exists|n: nat|
                    n <= max_steps && #[trigger] spec_run(start_model(program@, opt_bytes(input)), n)
                        == StepOutcome::Fail(e)
            },
        },
{
    let ghost pb = program@;
    let ghost ib = opt_bytes(input);
    let (pw, ph, ppx) = match decode_rgb8(&program) {
        Some(t) => t,
        None => return Err(Error::MalformedImage),
    };
    let pgrid = grid_from_rgb(pw, ph, ppx);
    let igrid: Option<RasterMemory> = match input {
        Some(bytes) => match decode_rgb8(&bytes) {
            Some((w, h, px)) => Some(grid_from_rgb(w, h, px)),
            None => return Err(Error::MalformedImage),
        },
        None => None,
    };
    proof {
        assert(grid_opt_view(igrid) == decoded_opt_grid(ib));
        assert(init_model(pgrid@, grid_opt_view(igrid)) == start_model(pb, ib));
    }
    match run_program(pgrid, igrid, max_steps) {
        Ok((p, out)) => {
            let program_bytes = rgb_from_grid(&p);
            let output_bytes: Option<Vec<u8>> = match &out {
                Some(o) => Some(rgb_from_grid(o)),
                None => None,
            };
            let result = Output { program: program_bytes, output: output_bytes };
            proof {
                let start = start_model(pb, ib);
                let n = choose|n: nat|
                    {
                        &&& n <= max_steps
                        &&& #[trigger] spec_run(start, n) is Done
                        &&& p@ == spec_run(start, n)->Done_0.program
                        &&& grid_opt_view(out) == spec_run(start, n)->Done_0.output
                    };
                assert(output_matches(spec_run(start, n)->Done_0, result));
            }
            Ok(result)
        },
        Err(e) => Err(e),
    }
}

/// `process_image` with the error flattened to its description: the
/// boundary a host language binds to.
pub fn run_image(program: Vec<u8>, input: Option<Vec<u8>>, max_steps: u64) -> (r: Result<
    Output,
    String,
>)
    ensures
        !images_decode(program@, opt_bytes(input)) ==> r is Err && r->Err_0@
            == Error::MalformedImage.message_spec(),
        images_decode(program@, opt_bytes(input)) && images_oversized(program@, opt_bytes(input))
            ==> r is Err && r->Err_0@ == Error::OversizedImage.message_spec(),
        images_decode(program@, opt_bytes(input)) && !images_oversized(
            program@,
            opt_bytes(input),
        ) ==> match r {
            Ok(out) => exists|n: nat|
                {
                    &&& n <= max_steps
                    &&& #[trigger] spec_run(start_model(program@, opt_bytes(input)), n) is Done
                    &&& output_matches(
                        spec_run(start_model(program@, opt_bytes(input)), n)->Done_0,
                        out,
                    )
                },
            Err(s) => exists|e: Error|
                {
                    &&& s@ == #[trigger] e.message_spec()
                    &&& {
                        ||| {
                            &&& e == Error::StepLimitExceeded
                            &&& spec_run(
                                start_model(program@, opt_bytes(input)),
                                max_steps as nat,
                            ) is Next
                        }
                        ||| exists|n: nat|
                            n <= max_steps && #[trigger] spec_run(
                                start_model(program@, opt_bytes(input)),
                                n,
                            ) == StepOutcome::Fail(e)
                    }
                },
        },
{
    match process_image(program, input, max_steps) {
        Ok(out) => Ok(out),
        Err(e) => Err(e.message()),
    }
}

} // verus!
