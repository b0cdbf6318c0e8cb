use std::io::Cursor;
use std::sync::Arc;

use image::{DynamicImage, ImageFormat, Rgba, Rgba32FImage, RgbaImage};
use optra::image_cache::{
    decode_bytes, decode_file_bytes, from_dynamic, from_raw, raw_image, DecodedImage, ImageCache, RawImage,
    SampleLayout, TexelFormat,
};
use optra::loading::{decode_read, fetch_local, keep_decoded, preload_local, Fetch};

fn encoded(img: DynamicImage, format: ImageFormat) -> Vec<u8> {
    let mut bytes: Vec<u8> = Vec::new();
    img.write_to(&mut Cursor::new(&mut bytes), format).unwrap();
    bytes
}

fn tiny(tag: u8) -> Arc<DecodedImage> {
    Arc::new(DecodedImage { size: [1, 1], bytes: vec![tag, tag, tag, 255], is_hdr: false })
}

#[test]
fn exr_decodes_as_linear_float_and_keeps_values_above_one() {
    let mut img = Rgba32FImage::new(4, 3);
    img.put_pixel(0, 0, Rgba([8.0, 0.5, 0.25, 1.0])); // deliberately > 1.0
    let bytes = encoded(DynamicImage::ImageRgba32F(img), ImageFormat::OpenExr);

    let decoded = decode_bytes(&bytes).expect("EXR must decode");
    assert!(decoded.is_hdr, "expected a float variant");
    assert_eq!(decoded.texture_format(), TexelFormat::Rgba32Float);
    assert_eq!(decoded.size, [4, 3]);
    assert_eq!(
        decoded.bytes.len(),
        4 * 3 * 16,
        "byte length must match bytes_per_pixel = 16"
    );
    let first: f32 = *bytemuck::from_bytes(&decoded.bytes[0..4]);
    assert!(first > 7.0, "highlight above 1.0 was clipped");

    // The decoder's own view of the same bytes, and the 8-bit path for contrast.
    let dynamic = image::load_from_memory(&bytes).unwrap();
    assert!(
        matches!(dynamic, DynamicImage::ImageRgba32F(_) | DynamicImage::ImageRgb32F(_)),
        "expected a float variant, got {:?}",
        dynamic.color()
    );
    let f = dynamic.to_rgba32f();
    assert_eq!(f.as_raw().len(), 4 * 3 * 4, "rgba32f element count");
    assert!(f.get_pixel(0, 0)[0] > 7.0, "highlight above 1.0 was clipped");
    assert_eq!(dynamic.to_rgba8().get_pixel(0, 0)[0], 255, "clipped to white");
}

#[test]
fn png_decodes_as_eight_bit() {
    let mut img = RgbaImage::new(2, 2);
    img.put_pixel(1, 1, Rgba([10, 20, 30, 40]));
    let bytes = encoded(DynamicImage::ImageRgba8(img), ImageFormat::Png);
    let decoded = decode_bytes(&bytes).expect("PNG must decode");
    assert!(!decoded.is_hdr);
    assert_eq!(decoded.texture_format(), TexelFormat::Rgba8Unorm);
    assert_eq!(decoded.size, [2, 2]);
    assert_eq!(decoded.bytes.len(), 2 * 2 * 4);
    assert_eq!(&decoded.bytes[12..16], &[10, 20, 30, 40]);
}

#[test]
fn garbage_does_not_decode() {
    assert!(decode_bytes(b"not an image").is_err());
    assert!(decode_bytes(&[]).is_err());
}

#[test]
fn bytes_per_pixel_of_each_format() {
    assert_eq!(TexelFormat::Rgba8Unorm.bytes_per_pixel(), 4);
    assert_eq!(TexelFormat::Rgba32Float.bytes_per_pixel(), 16);
}

#[test]
fn cache_reads_back_what_was_stored() {
    let mut cache = ImageCache::new();
    assert!(cache.is_empty());
    assert!(cache.get("/a").is_none());
    let a = tiny(1);
    cache.insert("/a".to_string(), Arc::clone(&a));
    assert!(Arc::ptr_eq(&cache.get("/a").unwrap(), &a));
    assert!(cache.get("/b").is_none());
    // Replacing keeps one entry.
    let a2 = tiny(2);
    cache.insert("/a".to_string(), Arc::clone(&a2));
    assert_eq!(cache.len(), 1);
    assert!(Arc::ptr_eq(&cache.get("/a").unwrap(), &a2));
    assert!(!cache.is_empty());
}

#[test]
fn retain_keeps_exactly_the_window() {
    let mut cache = ImageCache::new();
    for p in ["/s/1", "/s/2", "/s/3", "/s/4"] {
        cache.insert(p.to_string(), tiny(0));
    }
    cache.retain(&vec!["/s/2".to_string(), "/s/3".to_string(), "/s/9".to_string()]);
    assert_eq!(cache.len(), 2);
    assert!(cache.get("/s/1").is_none());
    assert!(cache.get("/s/2").is_some());
    assert!(cache.get("/s/3").is_some());
    assert!(cache.get("/s/9").is_none());
    cache.retain(&Vec::new());
    assert!(cache.is_empty());
}

#[test]
fn a_decode_is_claimed_once() {
    let mut cache = ImageCache::new();
    assert!(cache.request("/f/1"));
    assert!(!cache.request("/f/1"), "already being decoded");
    cache.complete("/f/1", Some(DecodedImage { size: [1, 1], bytes: vec![0; 4], is_hdr: false }));
    assert!(cache.get("/f/1").is_some());
    assert!(!cache.request("/f/1"), "already held");

    // A failed decode releases the claim without holding anything.
    assert!(cache.request("/f/2"));
    cache.complete("/f/2", None);
    assert!(cache.get("/f/2").is_none());
    assert!(cache.request("/f/2"));
}

#[test]
fn preloading_locally_bounds_memory_and_claims_the_window() {
    let seq: Vec<String> = (0..6).map(|i| format!("/s/f{i}.exr")).collect();
    let mut cache = ImageCache::new();
    cache.insert(seq[0].clone(), tiny(0));
    cache.insert(seq[2].clone(), tiny(2));
    assert!(cache.request(&seq[3]));

    // Window around frame 2 with radius 1: frames 1, 2, 3.
    let started = preload_local(&mut cache, &seq, 2, true, 1);
    assert_eq!(started, vec![seq[1].clone()], "2 is held and 3 is being decoded");
    assert!(cache.get(&seq[0]).is_none(), "outside the window");
    assert!(cache.get(&seq[2]).is_some());
    assert!(!cache.request(&seq[1]), "now claimed");

    // With preloading off only the current frame stays, and nothing starts.
    let started = preload_local(&mut cache, &seq, 5, false, 1);
    assert!(started.is_empty());
    assert_eq!(cache.len(), 0);

    // An empty sequence leaves the cache alone.
    cache.insert("/other".to_string(), tiny(9));
    assert!(preload_local(&mut cache, &Vec::new(), 0, true, 2).is_empty());
    assert_eq!(cache.len(), 1);
}

#[test]
fn a_file_decodes_as_its_extension_names() {
    let mut img = Rgba32FImage::new(4, 3);
    img.put_pixel(0, 0, Rgba([8.0, 0.5, 0.25, 1.0]));
    let exr = encoded(DynamicImage::ImageRgba32F(img), ImageFormat::OpenExr);
    let decoded = decode_file_bytes(&exr, "/shots/frame_0001.EXR").expect("EXR must decode");
    assert!(decoded.is_hdr);
    assert_eq!(decoded.size, [4, 3]);
    assert_eq!(decoded.bytes.len(), 4 * 3 * 16);
    let first: f32 = *bytemuck::from_bytes(&decoded.bytes[0..4]);
    assert_eq!(first, 8.0);

    // The extension decides, not the content.
    assert!(decode_file_bytes(&exr, "/shots/frame_0001.png").is_err());
    assert!(decode_file_bytes(&exr, "/shots/frame_0001").is_err());
}

#[test]
fn the_plain_image_is_laid_out_unchanged() {
    let raw = RawImage { layout: SampleLayout::Rgba32F, size: [1, 1], texels: vec![7; 16] };
    let d = from_raw(raw);
    assert!(d.is_hdr);
    assert_eq!(d.size, [1, 1]);
    assert_eq!(d.bytes, vec![7; 16]);
    let d = from_raw(RawImage { layout: SampleLayout::Rgb16, size: [2, 1], texels: vec![1; 8] });
    assert!(!d.is_hdr);
    assert_eq!(d.texture_format(), TexelFormat::Rgba8Unorm);
    assert_eq!(d.bytes, vec![1; 8]);
}

#[test]
fn float_variants_keep_their_range_and_others_become_eight_bit() {
    let mut f = Rgba32FImage::new(2, 1);
    f.put_pixel(1, 0, Rgba([3.0, 0.0, 0.0, 1.0]));
    let raw = raw_image(&DynamicImage::ImageRgba32F(f));
    assert_eq!(raw.layout, SampleLayout::Rgba32F);
    assert_eq!(raw.texels.len(), 2 * 16);
    let red: f32 = *bytemuck::from_bytes(&raw.texels[16..20]);
    assert_eq!(red, 3.0);

    let gray = image::GrayImage::from_pixel(3, 2, image::Luma([9]));
    let raw = raw_image(&DynamicImage::ImageLuma8(gray));
    assert_eq!(raw.layout, SampleLayout::Luma8);
    assert_eq!(raw.size, [3, 2]);
    assert_eq!(raw.texels.len(), 3 * 2 * 4);
    assert_eq!(&raw.texels[0..4], &[9, 9, 9, 255]);

    let d = from_dynamic(DynamicImage::ImageRgb32F(image::Rgb32FImage::new(1, 1)));
    assert!(d.is_hdr);
    assert_eq!(d.bytes.len(), 16);
}

#[test]
fn a_decode_is_kept_in_the_cache() {
    let mut cache = ImageCache::new();
    let d = DecodedImage { size: [1, 1], bytes: vec![1, 2, 3, 4], is_hdr: false };
    match keep_decoded(&mut cache, "/k", Ok(d)) {
        Fetch::Ready(img) => {
            assert_eq!(img.bytes, vec![1, 2, 3, 4]);
            assert!(Arc::ptr_eq(&cache.get("/k").unwrap(), &img));
        }
        _ => panic!("a decoded image is ready"),
    }
    assert!(matches!(keep_decoded(&mut cache, "/bad", Err("broken".to_string())), Fetch::Failed(e) if e == "broken"));
    assert!(cache.get("/bad").is_none());
    assert_eq!(cache.len(), 1);
}

#[test]
fn local_files_are_read_only_when_not_cached() {
    let mut img = RgbaImage::new(2, 2);
    img.put_pixel(0, 0, Rgba([5, 6, 7, 8]));
    let png = encoded(DynamicImage::ImageRgba8(img), ImageFormat::Png);
    let mut cache = ImageCache::new();
    match fetch_local(&mut cache, "/l/a.png", || Ok(png.clone())) {
        Fetch::Ready(d) => assert_eq!(&d.bytes[0..4], &[5, 6, 7, 8]),
        _ => panic!("the file decodes"),
    }
    // Cached now: the reader is not called again.
    assert!(matches!(fetch_local(&mut cache, "/l/a.png", || panic!("read again")), Fetch::Ready(_)));
    assert!(matches!(
        fetch_local(&mut cache, "/l/missing.png", || Err("not found".to_string())),
        Fetch::Failed(e) if e == "not found"
    ));
    assert!(matches!(decode_read(Err("denied".to_string()), "/x.png"), Err(e) if e == "denied"));
}

#[test]
fn the_cache_counts_what_it_holds() {
    let mut cache = ImageCache::new();
    cache.insert("/a".to_string(), tiny(1));
    cache.insert("/b".to_string(), tiny(2));
    cache.insert("/a".to_string(), tiny(3));
    assert_eq!(cache.len(), 2);
    cache.retain(&vec!["/b".to_string()]);
    assert_eq!(cache.len(), 1);
    cache.retain(&vec!["/b".to_string()]);
    assert_eq!(cache.len(), 1);
}
