use xmedia_bot::photo::{
    can_decode, decode_budget_bytes, encode_jpeg, encode_png, finish_jpeg, flatten_gray_alpha,
    flatten_rgba_to_rgb, frame_pixels, header_plan, jpeg_dims, memory_units, parse_png_header,
    plan_photo, prepare_photo, resize_pix, settle_jpeg, settle_png, target_dims, PhotoExt,
    PhotoPlan, PhotoPrep, PixBuf, PngColor, PngFault, PngFrame, PngHeader, MAX_DECODE_BYTES,
    MAX_PHOTO_DOWNLOAD_BYTES, MAX_UPLOAD_BYTES, MEMORY_UNITS, MEMORY_UNIT_BYTES,
    PHOTO_MAX_DIMENSION_SUM,
};

fn png_header(w: u32, h: u32, depth: u8, color: u8) -> Vec<u8> {
    let mut bytes = b"\x89PNG\r\n\x1a\n\x00\x00\x00\rIHDR".to_vec();
    bytes.extend(w.to_be_bytes());
    bytes.extend(h.to_be_bytes());
    bytes.extend([depth, color, 0, 0, 0]);
    bytes.extend(crc32(&bytes[12..]).to_be_bytes());
    bytes.extend(0u32.to_be_bytes());
    bytes.extend(b"IDAT");
    bytes
}

/// CRC-32 as PNG chunks use it.
fn crc32(bytes: &[u8]) -> u32 {
    let mut crc = !0u32;
    for &b in bytes {
        crc ^= b as u32;
        for _ in 0..8 {
            crc = (crc >> 1) ^ (0xEDB8_8320 & (crc & 1).wrapping_neg());
        }
    }
    !crc
}

fn png_file(w: u32, h: u32, color: png::ColorType, data: &[u8]) -> Vec<u8> {
    let mut bytes = Vec::new();
    let mut encoder = png::Encoder::new(&mut bytes, w, h);
    encoder.set_color(color);
    encoder.set_depth(png::BitDepth::Eight);
    let mut writer = encoder.write_header().unwrap();
    writer.write_image_data(data).unwrap();
    drop(writer);
    bytes
}

fn jpeg_file(w: u16, h: u16, fill: u8) -> Vec<u8> {
    let rgb = vec![fill; w as usize * h as usize * 3];
    let mut bytes = Vec::new();
    jpeg_encoder::Encoder::new(&mut bytes, 90)
        .encode(&rgb, w, h, jpeg_encoder::ColorType::Rgb)
        .unwrap();
    bytes
}

#[test]
fn memory_units_round_up_and_clamp() {
    assert_eq!(memory_units(1), 1);
    assert_eq!(memory_units(MEMORY_UNIT_BYTES), 1);
    assert_eq!(memory_units(MEMORY_UNIT_BYTES + 1), 2);
    // Never more than exists, or the item waits for itself forever.
    assert_eq!(memory_units(u64::MAX), MEMORY_UNITS);
    // One item's worst case takes the whole budget by itself.
    assert_eq!(
        memory_units(MAX_DECODE_BYTES + MAX_PHOTO_DOWNLOAD_BYTES),
        MEMORY_UNITS
    );
    assert_eq!(memory_units(0), 1);
}

#[test]
fn decode_budget_follows_the_processing_decision() {
    // 9999x2 (sum 10001) is over the dimension cap: processed, so charged.
    let oversized = png_header(9999, 2, 8, 2);
    assert_eq!(decode_budget_bytes(&oversized), 9999 * 2 * 3);
    // Inside the limits: uploaded as it is.
    let small = png_header(100, 100, 8, 2);
    assert_eq!(decode_budget_bytes(&small), 0);
    // A format that is not decoded costs nothing either.
    assert_eq!(decode_budget_bytes(b"GIF89a not a photo"), 0);

    let bytes = jpeg_file(9999, 2, 90);
    assert_eq!(decode_budget_bytes(&bytes), 9999 * 2 * 3);
}

#[test]
fn parses_png_header() {
    let bytes = png_header(8979, 5316, 16, 6);
    let header = parse_png_header(&bytes).unwrap();
    assert_eq!((header.width, header.height), (8979, 5316));
    assert_eq!(header.depth, 16);
    assert_eq!(header.color, PngColor::Rgba);

    let header = parse_png_header(&png_header(10, 10, 8, 0)).unwrap();
    assert_eq!(header.depth, 8);
    assert_eq!(header.color, PngColor::Grayscale);

    assert!(parse_png_header(b"not a png").is_none());
}

#[test]
fn flatten_rgba_to_rgb_composites_over_white() {
    // opaque red stays red
    assert_eq!(flatten_rgba_to_rgb(&[255, 0, 0, 255]), vec![255, 0, 0]);
    // fully transparent becomes white
    assert_eq!(flatten_rgba_to_rgb(&[0, 0, 0, 0]), vec![255, 255, 255]);
    // half alpha red
    let out = flatten_rgba_to_rgb(&[255, 0, 0, 128]);
    assert_eq!(out[0], 255);
    assert_eq!(out[1], 127);
    assert_eq!(out[2], 127);
    // a trailing partial pixel is dropped
    assert_eq!(flatten_rgba_to_rgb(&[1, 2, 3, 255, 9, 9]), vec![1, 2, 3]);
}

#[test]
fn gray_alpha_composites_over_white() {
    assert_eq!(flatten_gray_alpha(&vec![10, 255, 10, 0, 0, 128]), vec![10, 255, 127]);
}

#[test]
fn target_dims_stay_under_the_cap() {
    for (w, h) in [(12000u32, 7000u32), (10000, 10000), (8979, 5316)] {
        let (nw, nh) = target_dims(w, h);
        assert!(nw + nh <= PHOTO_MAX_DIMENSION_SUM, "{w}x{h} -> {nw}x{nh}");
        assert!(nw >= 1 && nh >= 1);
    }
    // Within the limits the caller does not ask, but no side is zero.
    let (nw, nh) = target_dims(500, 400);
    assert!(nw >= 1 && nh >= 1);
}

#[test]
fn target_dims_round_to_the_nearest_pixel() {
    assert_eq!(target_dims(10000, 10000), (4950, 4950));
    assert_eq!(target_dims(12000, 7000), (6253, 3647));
    assert_eq!(target_dims(9999, 2), (9898, 2));
    assert_eq!(target_dims(100000, 1), (9900, 1));
    assert_eq!(target_dims(0, 0), (1, 1));
    assert_eq!(target_dims(u32::MAX, u32::MAX), (4950, 4950));
}

#[test]
fn resize_pix_changes_dimensions() {
    // 300x200 RGB to 100x66
    let buf: Vec<u8> = (0..300 * 200 * 3).map(|i| (i % 251) as u8).collect();
    let resized = resize_pix(PixBuf::Rgb(buf), 300, 200, 100, 66).unwrap();
    match resized {
        PixBuf::Rgb(v) => assert_eq!(v.len(), 100 * 66 * 3),
        other => panic!("expected rgb, got {other:?}"),
    }
}

#[test]
fn resizing_a_short_buffer_is_refused() {
    let e = resize_pix(PixBuf::GrayAlpha(vec![0; 7]), 2, 2, 1, 1).unwrap_err();
    assert_eq!(e, "resize input: Size of buffer is smaller than required");
}

#[test]
fn png_encode_roundtrip_keeps_gray() {
    let gray = vec![128u8; 4 * 4];
    let out = encode_png(&PixBuf::Gray(gray), 4, 4).unwrap();
    assert!(!out.is_empty());
    let header = parse_png_header(&out).unwrap();
    assert_eq!(header.depth, 8);
    assert_eq!(header.color, PngColor::Grayscale);
}

#[test]
fn jpeg_encode_produces_bytes() {
    let rgb = vec![128u8; 8 * 8 * 3];
    let out = encode_jpeg(&PixBuf::Rgb(rgb), 8, 8).unwrap();
    assert!(out.len() > 100);
    assert!(out.starts_with(&[0xFF, 0xD8]));
}

#[test]
fn jpeg_encode_of_a_short_buffer_fails() {
    let e = encode_jpeg(&PixBuf::GrayAlpha(vec![0; 2]), 8, 8).unwrap_err();
    assert!(e.starts_with("jpeg encode: "), "{e}");
}

#[test]
fn pipeline_downscales_oversized_png_keeping_format() {
    let bytes = png_file(9999, 2, png::ColorType::Rgb, &vec![128u8; 9999 * 2 * 3]);
    match prepare_photo(&bytes).unwrap() {
        PhotoPrep::Upload(out, ext) => {
            assert_eq!(ext, PhotoExt::Png);
            assert_eq!(ext.suffix(), "png");
            let header = parse_png_header(&out).unwrap();
            assert!(header.width + header.height <= PHOTO_MAX_DIMENSION_SUM);
            assert_eq!(header.depth, 8);
            assert_eq!(header.color, PngColor::Rgb);
        }
        other => panic!("over-dimension PNG should have been resized: {other:?}"),
    }
}

#[test]
fn pipeline_keeps_gray_png_gray() {
    let bytes = png_file(9999, 2, png::ColorType::Grayscale, &vec![200u8; 9999 * 2]);
    match prepare_photo(&bytes).unwrap() {
        PhotoPrep::Upload(out, _) => {
            let header = parse_png_header(&out).unwrap();
            assert_eq!(header.color, PngColor::Grayscale, "gray must not upconvert");
        }
        other => panic!("over-dimension gray PNG should have been resized: {other:?}"),
    }
}

#[test]
fn pipeline_flattens_rgba_onto_white() {
    let bytes = png_file(9999, 2, png::ColorType::Rgba, &vec![0u8; 9999 * 2 * 4]);
    match prepare_photo(&bytes).unwrap() {
        PhotoPrep::Upload(out, _) => {
            let header = parse_png_header(&out).unwrap();
            assert_eq!(header.color, PngColor::Rgb);
            let mut reader = png::Decoder::new(std::io::Cursor::new(out.as_slice()))
                .read_info()
                .unwrap();
            let mut pixels = vec![0u8; reader.output_buffer_size().unwrap()];
            reader.next_frame(&mut pixels).unwrap();
            assert!(pixels.iter().all(|v| *v == 255), "transparent becomes white");
        }
        other => panic!("expected a processed PNG: {other:?}"),
    }
}

#[test]
fn pipeline_resizes_oversized_jpeg() {
    let bytes = jpeg_file(9999, 2, 90);
    match prepare_photo(&bytes).unwrap() {
        PhotoPrep::Upload(out, ext) => {
            assert_eq!(ext, PhotoExt::Jpg);
            assert_eq!(ext.suffix(), "jpg");
            assert!(out.starts_with(&[0xFF, 0xD8]), "output must stay jpeg");
            let (nw, nh) = jpeg_dims(&out).unwrap();
            assert!(nw + nh <= PHOTO_MAX_DIMENSION_SUM, "still over the cap: {nw}x{nh}");
            assert_ne!((nw, nh), (9999, 2), "output was not resized");
        }
        other => panic!("over-dimension JPEG should have been resized: {other:?}"),
    }
}

#[test]
fn a_processed_jpeg_shows_the_photo() {
    let fill = 90;
    let out = match prepare_photo(&jpeg_file(9999, 2, fill)).unwrap() {
        PhotoPrep::Upload(out, _) => out,
        other => panic!("expected a processed JPEG: {other:?}"),
    };
    let pixels = zune_jpeg::JpegDecoder::new(std::io::Cursor::new(&out)).decode().unwrap();
    assert!(!pixels.is_empty());
    assert!(pixels.iter().all(|p| p.abs_diff(fill) <= 3));
}

#[test]
fn a_palette_that_is_cut_is_refused() {
    let file = |palette: &[u8]| {
        let mut bytes = Vec::new();
        let mut encoder = png::Encoder::new(&mut bytes, 10001, 1);
        encoder.set_color(png::ColorType::Indexed);
        encoder.set_depth(png::BitDepth::Eight);
        encoder.set_palette(palette.to_vec());
        let mut writer = encoder.write_header().unwrap();
        writer.write_image_data(&[0; 10001]).unwrap();
        drop(writer);
        bytes
    };
    let cut = file(&[1, 2, 3, 4]);
    assert_eq!(parse_png_header(&cut).unwrap().palette, 4);
    assert_eq!(prepare_photo(&cut).unwrap_err(), "invalid PNG palette");
    assert!(matches!(prepare_photo(&file(&[1, 2, 3])), Ok(PhotoPrep::Upload(_, PhotoExt::Png))));
}

/// A JPEG of 8 by 10000 pixels without any image data.
fn bare_jpeg(frame: u8, sampling: &[u8]) -> Vec<u8> {
    let n = sampling.len() as u8;
    let mut bytes = vec![0xff, 0xd8, 0xff, 0xdb, 0, 67, 0];
    bytes.extend([1; 64]);
    bytes.extend([0xff, frame, 0, 8 + 3 * n, 8, 0x27, 0x10, 0, 8, n]);
    for (id, factors) in sampling.iter().enumerate() {
        bytes.extend([id as u8 + 1, *factors, 0]);
    }
    bytes.extend([0xff, 0xda, 0, 6 + 2 * n, n]);
    for id in 0..n {
        bytes.extend([id + 1, 0]);
    }
    bytes.extend([0, 0, 0, 0xff, 0xd9]);
    bytes
}

#[test]
fn sampling_factors_that_outgrow_the_first_are_refused() {
    let odd = bare_jpeg(0xc2, &[0x11, 0x22, 0x11]);
    assert_eq!(jpeg_dims(&odd), Some((8, 10000)));
    assert_eq!(prepare_photo(&odd).unwrap_err(), "unsupported JPEG sampling factors");
    for usual in [&[0x11][..], &[0x22, 0x11, 0x11], &[0x21, 0x11, 0x11], &[0x22, 0x21, 0x21]] {
        assert!(matches!(prepare_photo(&bare_jpeg(0xc2, usual)), Ok(PhotoPrep::Upload(_, _))));
    }
    // Four components may only be sampled down alike where the frame is progressive.
    assert!(!can_decode(&bare_jpeg(0xc2, &[0x22, 0x11, 0x11, 0x22]), false));
    assert!(can_decode(&bare_jpeg(0xc2, &[0x21, 0x11, 0x11, 0x21]), false));
    assert!(can_decode(&bare_jpeg(0xc0, &[0x22, 0x11, 0x11, 0x22]), false));
    assert!(!can_decode(&bare_jpeg(0xc2, &[0x11]), true));
    assert!(can_decode(&bare_jpeg(0xc0, &[0x11]), true));
    assert!(can_decode(b"", true));
}

#[test]
fn small_photos_go_out_untouched() {
    let png = png_file(4, 4, png::ColorType::Rgb, &[7u8; 48]);
    assert!(matches!(prepare_photo(&png), Ok(PhotoPrep::Original)));
    let jpeg = jpeg_file(8, 8, 3);
    assert!(matches!(prepare_photo(&jpeg), Ok(PhotoPrep::Original)));
}

#[test]
fn other_formats_fall_back() {
    assert!(matches!(prepare_photo(b"GIF89a"), Ok(PhotoPrep::UseFallback)));
    assert!(matches!(prepare_photo(b""), Ok(PhotoPrep::UseFallback)));
}

#[test]
fn broken_files_are_reported() {
    assert_eq!(
        prepare_photo(b"\x89PNG\r\n\x1a\nrubbish").unwrap_err(),
        "invalid PNG header"
    );
    let e = prepare_photo(&[0xff, 0xd8, 0xff, 0x00]).unwrap_err();
    assert!(e.starts_with("jpeg headers: "), "{e}");
    // A header that asks for processing, with no pixels behind it.
    let e = prepare_photo(&png_header(9999, 2, 8, 2)).unwrap_err();
    assert!(e.starts_with("png "), "{e}");
    // A JPEG cut off in its pixel data decodes or fails, but never passes as is.
    let mut jpeg = jpeg_file(9999, 2, 90);
    jpeg.truncate(jpeg.len() / 2);
    assert!(!matches!(prepare_photo(&jpeg), Ok(PhotoPrep::Original)));
}

#[test]
fn huge_photos_fall_back() {
    // 30000 x 20000 RGB is 1.8 GB of pixels.
    assert!(matches!(
        prepare_photo(&png_header(30000, 20000, 8, 2)),
        Ok(PhotoPrep::UseFallback)
    ));
}

#[test]
fn plans_are_exact_at_their_edges() {
    let cap = MAX_UPLOAD_BYTES as usize;
    assert_eq!(plan_photo(6100, 3900, cap, 3), PhotoPlan::AsIs);
    assert_eq!(plan_photo(6100, 3900, cap + 1, 3), PhotoPlan::Decode(6100 * 3900 * 3));
    assert_eq!(plan_photo(6100, 3901, 1, 3), PhotoPlan::Decode(6100 * 3901 * 3));
    // 16384 * 8192 * 4 is the budget to the byte.
    assert_eq!(plan_photo(16384, 8192, 1, 4), PhotoPlan::Decode(MAX_DECODE_BYTES));
    assert_eq!(plan_photo(16385, 8192, 1, 4), PhotoPlan::TooLarge);
    assert_eq!(plan_photo(u32::MAX, u32::MAX, 1, 4), PhotoPlan::TooLarge);
    let header = PngHeader {
        width: 9999,
        height: 2,
        depth: 8,
        color: PngColor::Indexed,
        palette: 3,
    };
    assert_eq!(header_plan(Some(header), None, 10), PhotoPlan::Decode(9999 * 2 * 3));
    assert_eq!(header_plan(None, Some((9999, 2)), 10), PhotoPlan::Decode(9999 * 2 * 3));
    assert_eq!(header_plan(None, None, 10), PhotoPlan::AsIs);
}

#[test]
fn frames_keep_their_channels() {
    let frame = |pixels: Vec<u8>| PngFrame { width: 1, height: 1, pixels };
    assert!(matches!(
        frame_pixels(PngColor::Grayscale, frame(vec![1])),
        PixBuf::Gray(v) if v == vec![1]
    ));
    assert!(matches!(
        frame_pixels(PngColor::Rgba, frame(vec![1, 2, 3, 0])),
        PixBuf::Rgb(v) if v == vec![255, 255, 255]
    ));
    // A palette comes out as RGB, or as RGBA where it has transparency.
    assert!(matches!(
        frame_pixels(PngColor::Indexed, frame(vec![1, 2, 3])),
        PixBuf::Rgb(v) if v == vec![1, 2, 3]
    ));
    assert!(matches!(
        frame_pixels(PngColor::Indexed, frame(vec![1, 2, 3, 0])),
        PixBuf::Rgb(v) if v == vec![255, 255, 255]
    ));
}

#[test]
fn encoded_results_are_settled_by_size() {
    let small = vec![1u8; 10];
    let large = vec![1u8; MAX_UPLOAD_BYTES as usize + 1];
    let pix = PixBuf::Rgb(vec![128u8; 8 * 8 * 3]);
    assert!(matches!(settle_jpeg(Ok(small.clone())), Ok(PhotoPrep::Upload(_, PhotoExt::Jpg))));
    assert!(matches!(settle_jpeg(Ok(large.clone())), Ok(PhotoPrep::UseFallback)));
    assert!(matches!(
        settle_png(Ok(small), &pix, 8, 8),
        Ok(PhotoPrep::Upload(_, PhotoExt::Png))
    ));
    // A PNG over the cap is sent as a JPEG.
    assert!(matches!(
        settle_png(Ok(large), &pix, 8, 8),
        Ok(PhotoPrep::Upload(_, PhotoExt::Jpg))
    ));
    assert_eq!(
        settle_png(Err("boom".to_string()), &pix, 8, 8).unwrap_err(),
        "png encode: boom"
    );
    assert_eq!(
        finish_jpeg(Err("boom".to_string()), 8, 8).unwrap_err(),
        "jpeg decode: boom"
    );
    assert_eq!(PngFault::BufferSize.message(), "png output buffer size");
    assert_eq!(PngFault::Frame("x".to_string()).message(), "png frame: x");
    assert_eq!(PngFault::Info("x".to_string()).message(), "png decode: x");
}
