use openengine::capture::{
    color_image_to_png, depad, encode_png, encoded, padded_bytes_per_row, readback_to_png,
    unpremultiply, CaptureError,
};

const MAGIC: [u8; 8] = [0x89, b'P', b'N', b'G', 0x0d, 0x0a, 0x1a, 0x0a];

#[test]
fn png_encoder_is_valid() {
    let w = 8u32;
    let h = 8u32;
    let rgba = vec![128u8; (w * h * 4) as usize];
    let png = encode_png(&rgba, w, h).expect("png encode");
    // PNG magic.
    assert_eq!(&png[..8], &MAGIC);
}

#[test]
fn encodes_a_small_opaque_image() {
    let pixels: Vec<[u8; 4]> = vec![
        egui::Color32::from_rgb(255, 0, 0).to_array(),
        egui::Color32::from_rgb(0, 255, 0).to_array(),
        egui::Color32::from_rgb(0, 0, 255).to_array(),
        egui::Color32::from_rgb(255, 255, 255).to_array(),
    ];
    let png = color_image_to_png(2, 2, &pixels).expect("encode");
    assert_eq!(&png[..8], &MAGIC);
}

fn decoded(png_bytes: &[u8]) -> (u32, u32, Vec<u8>) {
    let mut reader = png::Decoder::new(png_bytes).read_info().unwrap();
    let mut buf = vec![0u8; reader.output_buffer_size()];
    let info = reader.next_frame(&mut buf).unwrap();
    buf.truncate(info.buffer_size());
    (info.width, info.height, buf)
}

#[test]
fn an_encoded_image_decodes_to_its_pixels() {
    let rgba: Vec<u8> = (0u8..24u8).collect();
    let png_bytes = encode_png(&rgba, 3, 2).unwrap();
    assert_eq!(decoded(&png_bytes), (3, 2, rgba));
}

#[test]
fn an_image_of_the_wrong_size_is_refused() {
    assert!(matches!(encode_png(&[1, 2, 3], 3, 2), Err(CaptureError::Encode(_))));
    assert!(matches!(
        encoded(Err("boom".to_string())),
        Err(CaptureError::Encode(m)) if m == "boom"
    ));
    assert_eq!(encoded(Ok(vec![1])).unwrap(), vec![1]);
}

#[test]
fn rows_are_padded_to_256_bytes() {
    assert_eq!(padded_bytes_per_row(0), 0);
    assert_eq!(padded_bytes_per_row(1), 256);
    assert_eq!(padded_bytes_per_row(64), 256);
    assert_eq!(padded_bytes_per_row(65), 512);
}

#[test]
fn a_readback_loses_its_padding() {
    let mut data: Vec<u8> = vec![0; 512];
    data[..8].copy_from_slice(&[1, 2, 3, 4, 5, 6, 7, 8]);
    data[256..264].copy_from_slice(&[9, 10, 11, 12, 13, 14, 15, 16]);
    let rgba: Vec<u8> = (1u8..17u8).collect();
    assert_eq!(depad(&data, 2, 2), rgba);
    assert_eq!(decoded(&readback_to_png(&data, 2, 2).unwrap()), (2, 2, rgba));
}

#[test]
fn opaque_pixels_stay_and_others_are_divided_by_alpha() {
    assert_eq!(unpremultiply(&vec![[10, 20, 30, 255]]), vec![10, 20, 30, 255]);
    assert_eq!(unpremultiply(&vec![[64, 32, 200, 128]]), vec![127, 63, 255, 128]);
    assert_eq!(unpremultiply(&vec![[0, 0, 0, 0]]), vec![0, 0, 0, 0]);
}

#[test]
fn capture_error_texts() {
    assert_eq!(CaptureError::NoAdapter("x".to_string()).to_text(), "no gpu adapter: x");
    assert_eq!(CaptureError::Render("x".to_string()).to_text(), "render: x");
    assert_eq!(CaptureError::Encode("x".to_string()).to_text(), "encode: x");
}
