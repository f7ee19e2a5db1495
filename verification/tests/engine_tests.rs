use image::GenericImageView;
use thumbor::codec::DecodeError;
use thumbor::engine::{OutputFormat, Photon, ProcessError, TransformError, process_image};
use thumbor::pb::{Filter, ImageSpec, SampleFilter, Spec};

/// A small gradient image, PNG-encoded, built with the image crate.
fn sample_png(w: u32, h: u32) -> Vec<u8> {
    let mut img = image::RgbaImage::new(w, h);
    for (x, y, p) in img.enumerate_pixels_mut() {
        *p = image::Rgba([
            ((x * 7) % 256) as u8,
            ((y * 5) % 256) as u8,
            ((x + y) % 256) as u8,
            255,
        ]);
    }
    let mut buf = std::io::Cursor::new(Vec::new());
    img.write_to(&mut buf, image::ImageFormat::Png).unwrap();
    buf.into_inner()
}

#[test]
fn empty_chain_preserves_dimensions() {
    let src = sample_png(64, 48);
    let out = process_image(&src, &ImageSpec::new(vec![]), OutputFormat::Jpeg(85)).unwrap();
    let reread = image::load_from_memory(&out).unwrap();
    assert_eq!(reread.dimensions(), (64, 48));
}

#[test]
fn resize_reaches_target_dimensions() {
    let src = sample_png(64, 48);
    let chain = ImageSpec::new(vec![Spec::new_resize(30, 20, SampleFilter::Triangle)]);
    let out = process_image(&src, &chain, OutputFormat::Png).unwrap();
    let reread = image::load_from_memory(&out).unwrap();
    assert_eq!(reread.dimensions(), (30, 20));
}

#[test]
fn seam_carve_shrinks_to_the_smaller_extent() {
    let src = sample_png(32, 24);
    // The width target shrinks; the height target is larger than the image,
    // so the height stays.
    let chain = ImageSpec::new(vec![Spec::new_resize_seam_carve(28, 100)]);
    let out = process_image(&src, &chain, OutputFormat::Png).unwrap();
    let reread = image::load_from_memory(&out).unwrap();
    assert_eq!(reread.dimensions(), (28, 24));
}

#[test]
fn pipeline_order_matters() {
    // A high-contrast checkerboard: cubic resampling overshoots and clamps,
    // so resampling and the colour mix do not commute.
    let mut img = image::RgbaImage::new(120, 90);
    for (x, y, p) in img.enumerate_pixels_mut() {
        let v = if (x / 3 + y / 3) % 2 == 0 { 255 } else { 0 };
        *p = image::Rgba([v, v, v, 255]);
    }
    let mut buf = std::io::Cursor::new(Vec::new());
    img.write_to(&mut buf, image::ImageFormat::Png).unwrap();
    let src = buf.into_inner();
    let resize_then_filter = ImageSpec::new(vec![
        Spec::new_resize(100, 100, SampleFilter::CatmullRom),
        Spec::new_filter(Filter::Marine),
    ]);
    let filter_then_resize = ImageSpec::new(vec![
        Spec::new_filter(Filter::Marine),
        Spec::new_resize(100, 100, SampleFilter::CatmullRom),
    ]);
    let out1 = process_image(&src, &resize_then_filter, OutputFormat::Png).unwrap();
    let out2 = process_image(&src, &filter_then_resize, OutputFormat::Png).unwrap();
    assert_ne!(out1, out2);
}

#[test]
fn watermark_changes_pixels_not_dimensions() {
    let src = sample_png(40, 40);
    let plain = process_image(&src, &ImageSpec::new(vec![]), OutputFormat::Png).unwrap();
    let marked = process_image(
        &src,
        &ImageSpec::new(vec![Spec::new_watermark(4, 4)]),
        OutputFormat::Png,
    )
    .unwrap();
    assert_ne!(plain, marked);
    let reread = image::load_from_memory(&marked).unwrap();
    assert_eq!(reread.dimensions(), (40, 40));
}

#[test]
fn watermark_outside_the_image_clips_away() {
    let src = sample_png(24, 24);
    let plain = process_image(&src, &ImageSpec::new(vec![]), OutputFormat::Png).unwrap();
    let marked = process_image(
        &src,
        &ImageSpec::new(vec![Spec::new_watermark(u32::MAX, u32::MAX)]),
        OutputFormat::Png,
    )
    .unwrap();
    assert_eq!(plain, marked);
}

#[test]
fn unspecified_filter_is_identity() {
    let src = sample_png(24, 24);
    let plain = process_image(&src, &ImageSpec::new(vec![]), OutputFormat::Png).unwrap();
    let filtered = process_image(
        &src,
        &ImageSpec::new(vec![Spec::new_filter(Filter::Unspecified)]),
        OutputFormat::Png,
    )
    .unwrap();
    assert_eq!(plain, filtered);
}

#[test]
fn zero_dimension_resize_rejected() {
    let src = sample_png(16, 16);
    let chain = ImageSpec::new(vec![Spec::new_resize(0, 10, SampleFilter::Nearest)]);
    let r = process_image(&src, &chain, OutputFormat::Png);
    assert_eq!(
        r,
        Err(ProcessError::Transform(TransformError::DimensionOutOfRange))
    );
}

#[test]
fn oversized_resize_rejected() {
    let src = sample_png(16, 16);
    let chain = ImageSpec::new(vec![Spec::new_resize(65536, 10, SampleFilter::Nearest)]);
    let r = process_image(&src, &chain, OutputFormat::Png);
    assert_eq!(
        r,
        Err(ProcessError::Transform(TransformError::DimensionOutOfRange))
    );
}

#[test]
fn unsupported_bytes_rejected() {
    let garbage = vec![1, 2, 3, 4, 5];
    let r = process_image(&garbage, &ImageSpec::new(vec![]), OutputFormat::Png);
    assert_eq!(r, Err(ProcessError::Decode(DecodeError::UnsupportedImage)));
    assert!(matches!(
        Photon::from_bytes(&garbage),
        Err(DecodeError::UnsupportedImage)
    ));
}

#[test]
fn pipeline_is_deterministic() {
    let src = sample_png(48, 36);
    let chain = ImageSpec::new(vec![
        Spec::new_resize(40, 30, SampleFilter::Triangle),
        Spec::new_watermark(2, 2),
        Spec::new_filter(Filter::Oceanic),
    ]);
    let once = process_image(&src, &chain, OutputFormat::Jpeg(85)).unwrap();
    let again = process_image(&src, &chain, OutputFormat::Jpeg(85)).unwrap();
    assert_eq!(once, again);
}

#[test]
fn engine_reports_source_dimensions() {
    let src = sample_png(21, 13);
    let engine = Photon::from_bytes(&src).unwrap();
    assert_eq!(engine.width(), 21);
    assert_eq!(engine.height(), 13);
}
