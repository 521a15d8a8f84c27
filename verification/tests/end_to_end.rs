use std::io::Cursor;

use rastervm::error::Error;
use rastervm::memory::RasterMemory;
use rastervm::vm::{run_program, Status, Vm};
use rastervm::process_image;
use rastervm::run_image;

const HALT: u32 = 26 << 18;

/// Encodes raw RGB8 samples as a PNG, the way a caller of the image
/// boundary would hand them over.
fn png_bytes(width: u32, height: u32, samples: Vec<u8>) -> Vec<u8> {
    let img: image::RgbImage =
        image::ImageBuffer::from_raw(width, height, samples).unwrap();
    let mut out: Vec<u8> = Vec::new();
    img.write_to(&mut Cursor::new(&mut out), image::ImageFormat::Png)
        .unwrap();
    out
}

/// The three bytes a word is carried by.
fn word_bytes(w: u32) -> [u8; 3] {
    [(w >> 16) as u8, (w >> 8) as u8, w as u8]
}

#[test]
fn halt_program_leaves_program_unchanged_and_no_output() {
    // A 1x1 program whose sole pixel decodes to Halt.
    let program = RasterMemory::new(1, 1, vec![HALT]).unwrap();
    let (p, out) = run_program(program, None, 10).unwrap();
    assert_eq!(p.get(0, 0), Ok(HALT));
    assert!(out.is_none());
}

#[test]
fn halt_program_through_encoded_image() {
    let hb = word_bytes(HALT);
    let png = png_bytes(1, 1, hb.to_vec());
    let out = process_image(png, None, 10).unwrap();
    // The result carries raw samples, not the encoded file.
    assert_eq!(out.program, hb.to_vec());
    assert!(out.output.is_none());
}

#[test]
fn load_low_then_halt_sets_register_zero() {
    // LoadLow(r0, 42) then Halt, on a 2x1 grid.
    let v: u32 = 42;
    let load = (0 << 18) | (0 << 12) | (v << 6);
    let program = RasterMemory::new(2, 1, vec![load, HALT]).unwrap();
    let mut vm = Vm::new(program, None).unwrap();
    assert_eq!(vm.step(), Ok(Status::Running));
    assert_eq!(vm.step(), Ok(Status::Halted));
    assert_eq!(vm.registers.read(0), Ok(v));
}

#[test]
fn oversized_program_image_is_rejected() {
    let png = png_bytes(5000, 10, vec![0u8; 5000 * 10 * 3]);
    assert_eq!(
        process_image(png, None, 10).map(|_| ()),
        Err(Error::OversizedImage)
    );
}

#[test]
fn undecodable_bytes_are_rejected() {
    assert_eq!(
        process_image(vec![1, 2, 3, 4], None, 10).map(|_| ()),
        Err(Error::MalformedImage)
    );
    let png = png_bytes(1, 1, vec![0, 0, 0]);
    assert_eq!(
        process_image(png, Some(vec![9, 9]), 10).map(|_| ()),
        Err(Error::MalformedImage)
    );
}

#[test]
fn decoded_pixels_reach_the_machine() {
    // The pixel (1, 2, 3) forms the word 0x010203, whose raw opcode 0
    // decodes to a LoadLow that touches only a register: the program grid
    // comes back exactly as the image decoded, not as the file bytes.
    let png = png_bytes(1, 1, vec![1, 2, 3]);
    let out = process_image(png.clone(), None, 10).unwrap();
    assert_ne!(out.program, png);
    assert_eq!(out.program, vec![1, 2, 3]);
}

#[test]
fn self_modifying_program_output_reflects_the_write() {
    // Cell (0,0): Move(deref r0, r1) with r0 = (1,0), writing r1's word
    // over the Halt at (1,0). Registers start zeroed, so the write stores
    // word 0 there; the following cell now decodes as LoadLow and the
    // machine walks off the 2x1 raster and halts cleanly.
    let mv = (2 << 18) | ((32 | 0) << 12) | (1 << 6);
    let program = RasterMemory::new(2, 1, vec![mv, HALT]).unwrap();
    let mut vm = Vm::new(program, None).unwrap();
    vm.registers.write(0, rastervm::word::from_address(1, 0)).unwrap();
    assert_eq!(vm.step(), Ok(Status::Running));
    assert_eq!(vm.program.get(1, 0), Ok(0));
    assert_eq!(vm.step(), Ok(Status::Running));
    assert_eq!(vm.step(), Ok(Status::Halted));
}

#[test]
fn run_image_flattens_errors_to_messages() {
    assert_eq!(
        run_image(vec![1, 2, 3], None, 10).map(|_| ()),
        Err("Failed reading image".to_string())
    );
    let png = png_bytes(5000, 10, vec![0u8; 5000 * 10 * 3]);
    assert_eq!(
        run_image(png, None, 10).map(|_| ()),
        Err("Image is too large".to_string())
    );
    let ok = png_bytes(1, 1, word_bytes(HALT).to_vec());
    let out = run_image(ok, None, 10).unwrap();
    assert_eq!(out.program, word_bytes(HALT).to_vec());
}

#[test]
fn alloc_materialises_output_through_process_image() {
    // LoadLow(r0, 2) sets the size; Alloc(r0, r1) reserves two output
    // cells; then Halt. The output image comes back zero-filled with the
    // program's dimensions.
    let load = (0 << 18) | (0 << 12) | (2 << 6);
    let alloc = (16 << 18) | (0 << 12) | (1 << 6);
    let mut samples = Vec::new();
    for w in [load, alloc, HALT] {
        samples.extend_from_slice(&word_bytes(w));
    }
    let png = png_bytes(3, 1, samples.clone());
    let out = process_image(png, None, 10).unwrap();
    assert_eq!(out.program, samples);
    assert_eq!(out.output, Some(vec![0u8; 9]));
}
