use icon_gen::compose::{composite_over, BackgroundColor};
use icon_gen::errors::IconError;
use icon_gen::img::CanonicalImage;
use icon_gen::plan::{choose_root, generate_custom, generate_full, Options};

fn gradient_image(edge: u32) -> CanonicalImage {
    let mut pixels = Vec::new();
    for y in 0..edge {
        for x in 0..edge {
            pixels.push((x * 17 % 256) as u8);
            pixels.push((y * 31 % 256) as u8);
            pixels.push(((x + y) * 7 % 256) as u8);
            pixels.push(((x * y) % 200 + 55) as u8);
        }
    }
    CanonicalImage { width: edge, height: edge, pixels }
}

#[test]
fn resize_is_idempotent() {
    let source = gradient_image(7);
    for n in [1u32, 2, 3, 5, 16, 64] {
        let once = source.resize(n);
        let twice = once.resize(n);
        assert_eq!(once.width, n);
        assert_eq!(once.height, n);
        assert_eq!(once.pixels, twice.pixels);
    }
}

#[test]
fn resample_produces_the_requested_shape() {
    // A genuine resampling: the 2x2 source shrinks to a single pixel.
    let source = gradient_image(2);
    let small = source.resize(1);
    assert_eq!(small.pixels.len(), 4);
    assert_ne!(small.pixels, source.pixels);
}

#[test]
fn transparent_source_composites_to_the_background() {
    // A fully transparent source over #FF0000: every output pixel must be
    // (255, 0, 0) with alpha 255.
    let edge = 3u32;
    let mut pixels = Vec::new();
    for _ in 0..edge * edge {
        pixels.extend_from_slice(&[90, 120, 33, 0]);
    }
    let source = CanonicalImage { width: edge, height: edge, pixels };
    let bg = BackgroundColor { r: 255, g: 0, b: 0, a: 255 };
    let out = composite_over(&source, bg);
    assert_eq!(out.width, edge);
    assert_eq!(out.height, edge);
    for px in out.pixels.chunks(4) {
        assert_eq!(px, &[255, 0, 0, 255]);
    }
}

#[test]
fn opaque_source_wins_over_the_background() {
    let source = CanonicalImage { width: 1, height: 1, pixels: vec![10, 20, 30, 255] };
    let bg = BackgroundColor { r: 255, g: 255, b: 255, a: 255 };
    let out = composite_over(&source, bg);
    assert_eq!(out.pixels, vec![10, 20, 30, 255]);
}

#[test]
fn custom_mode_produces_exactly_the_requested_files() {
    let source = gradient_image(8);
    let artifacts = generate_custom(&source, "out", &vec![16, 64]).expect("custom run succeeds");
    assert_eq!(artifacts.len(), 2);
    assert_eq!(artifacts[0].path, "out/16x16.png");
    assert_eq!(artifacts[1].path, "out/64x64.png");
    for a in &artifacts {
        assert_eq!(&a.bytes[0..8], &[0x89, b'P', b'N', b'G', 0x0D, 0x0A, 0x1A, 0x0A]);
        assert!(!a.path.ends_with(".ico"));
        assert!(!a.path.ends_with(".icns"));
        assert!(!a.path.contains("mipmap"));
        assert!(!a.path.contains("AppIcon"));
    }
}

#[test]
fn non_square_source_is_rejected_before_any_work() {
    let r = CanonicalImage::load_source(4, 2, vec![0; 32]);
    assert!(matches!(r, Err(IconError::Precondition)));
    let r2 = CanonicalImage::load_source(0, 0, Vec::new());
    assert!(matches!(r2, Err(IconError::Precondition)));
    let ok = CanonicalImage::load_source(2, 2, vec![0; 16]);
    assert!(ok.is_ok());
}

#[test]
fn full_mode_produces_the_complete_artifact_set() {
    let source = gradient_image(4);
    let bg = BackgroundColor { r: 255, g: 255, b: 255, a: 255 };
    let artifacts =
        generate_full(&source, "icons", "android-root", "ios-root", bg).expect("full run succeeds");
    assert_eq!(artifacts.len(), 49);
    assert_eq!(artifacts[0].path, "icons/StoreLogo.png");
    assert_eq!(artifacts[9].path, "icons/Square310x310Logo.png");
    assert_eq!(artifacts[10].path, "icons/icon.icns");
    assert_eq!(artifacts[11].path, "icons/icon.ico");
    assert_eq!(artifacts[12].path, "icons/32x32.png");
    assert_eq!(artifacts[14].path, "icons/128x128@2x.png");
    assert_eq!(artifacts[15].path, "icons/icon.png");
    assert_eq!(artifacts[16].path, "android-root/mipmap-hdpi/ic_launcher_foreground.png");
    assert_eq!(artifacts[30].path, "android-root/mipmap-xxxhdpi/ic_launcher.png");
    assert_eq!(artifacts[31].path, "ios-root/AppIcon-20x20@2x-1.png");
    assert_eq!(artifacts[47].path, "ios-root/AppIcon-83.5x83.5@2x.png");
    assert_eq!(artifacts[48].path, "ios-root/AppIcon-512@2x.png");
    assert_eq!(&artifacts[10].bytes[0..4], b"icns");
    assert_eq!(&artifacts[11].bytes[0..4], &[0, 0, 1, 0]);
    for a in &artifacts {
        assert!(!a.bytes.is_empty());
    }
}

#[test]
fn full_mode_ios_artifacts_are_composited() {
    // With a fully transparent source and background #FF0000, every iOS
    // output pixel must decode to RGB (255, 0, 0) with alpha 255: the iOS
    // family alone is derived from the composited buffer.
    let edge = 4u32;
    let mut pixels = Vec::new();
    for _ in 0..edge * edge {
        pixels.extend_from_slice(&[90, 120, 33, 0]);
    }
    let source = CanonicalImage { width: edge, height: edge, pixels };
    let bg = BackgroundColor { r: 255, g: 0, b: 0, a: 255 };
    let artifacts = generate_full(&source, "o", "a", "i", bg).expect("full run succeeds");
    let ios_20_1x = &artifacts[32];
    assert_eq!(ios_20_1x.path, "i/AppIcon-20x20@1x.png");
    let decoded = image::load_from_memory(&ios_20_1x.bytes)
        .expect("the artifact is a decodable PNG")
        .into_rgba8();
    assert_eq!(decoded.dimensions(), (20, 20));
    for px in decoded.pixels() {
        assert_eq!(px.0, [255, 0, 0, 255]);
    }
    // The non-iOS families keep transparency: the desktop 32x32 PNG decodes
    // back to fully transparent pixels.
    let desktop_32 = &artifacts[12];
    assert_eq!(desktop_32.path, "o/32x32.png");
    let decoded = image::load_from_memory(&desktop_32.bytes)
        .expect("the artifact is a decodable PNG")
        .into_rgba8();
    for px in decoded.pixels() {
        assert_eq!(px.0[3], 0);
    }
}

#[test]
fn equal_inputs_yield_identical_artifacts() {
    // Reproducible builds: two runs over the same source and options must
    // agree byte for byte, in success and in content.
    let source = gradient_image(5);
    let bg = BackgroundColor { r: 1, g: 2, b: 3, a: 255 };
    let a = generate_full(&source, "o", "a", "i", bg).expect("first run succeeds");
    let b = generate_full(&source, "o", "a", "i", bg).expect("second run succeeds");
    assert_eq!(a.len(), b.len());
    for (x, y) in a.iter().zip(b.iter()) {
        assert_eq!(x.path, y.path);
        assert_eq!(x.bytes, y.bytes);
    }
    let c = generate_custom(&source, "o", &vec![16, 64]).expect("custom run succeeds");
    let d = generate_custom(&source, "o", &vec![16, 64]).expect("custom run succeeds");
    for (x, y) in c.iter().zip(d.iter()) {
        assert_eq!(x.path, y.path);
        assert_eq!(x.bytes, y.bytes);
    }
}

#[test]
fn root_choice_prefers_the_scaffolded_project() {
    let r = choose_root(true, "gen/android/res".to_string(), "icons/android".to_string());
    assert_eq!(r, "gen/android/res");
    let r2 = choose_root(false, "gen/android/res".to_string(), "icons/android".to_string());
    assert_eq!(r2, "icons/android");
}

#[test]
fn options_switch_to_custom_mode_only_with_sizes() {
    let base = Options {
        input: "app-icon.png".to_string(),
        output: None,
        png: None,
        ios_color: "#fff".to_string(),
    };
    assert!(!base.is_custom());
    let empty = Options { png: Some(Vec::new()), ..base };
    assert!(!empty.is_custom());
    let custom = Options { png: Some(vec![16, 64]), ..empty };
    assert!(custom.is_custom());
}
