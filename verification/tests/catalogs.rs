use icon_gen::catalog::{android_entries, appx_entries, custom_targets, desktop_entries, ios_entries};
use icon_gen::numfmt::{png_file_name_str, u32_to_string};

#[test]
fn decimal_rendering_is_exact() {
    assert_eq!(u32_to_string(0), "0");
    assert_eq!(u32_to_string(7), "7");
    assert_eq!(u32_to_string(10), "10");
    assert_eq!(u32_to_string(167), "167");
    assert_eq!(u32_to_string(1024), "1024");
    assert_eq!(u32_to_string(4294967295), "4294967295");
    assert_eq!(png_file_name_str(512), "512x512.png");
}

#[test]
fn desktop_catalog_has_the_special_cased_names() {
    let entries = desktop_entries("icons");
    let got: Vec<(String, String, u32)> =
        entries.into_iter().map(|t| (t.name, t.out_path, t.size)).collect();
    assert_eq!(
        got,
        vec![
            ("32x32.png".to_string(), "icons/32x32.png".to_string(), 32),
            ("128x128.png".to_string(), "icons/128x128.png".to_string(), 128),
            ("128x128@2x.png".to_string(), "icons/128x128@2x.png".to_string(), 256),
            ("icon.png".to_string(), "icons/icon.png".to_string(), 512),
        ]
    );
}

#[test]
fn appx_catalog_lists_the_store_and_square_logos() {
    let entries = appx_entries("icons");
    assert_eq!(entries.len(), 10);
    assert_eq!(entries[0].name, "StoreLogo.png");
    assert_eq!(entries[0].size, 50);
    let square_sizes: Vec<u32> = entries[1..].iter().map(|t| t.size).collect();
    assert_eq!(square_sizes, vec![30, 44, 71, 89, 107, 142, 150, 284, 310]);
    for t in &entries[1..] {
        assert_eq!(t.name, format!("Square{0}x{0}Logo.png", t.size));
        assert_eq!(t.out_path, format!("icons/{}", t.name));
    }
}

#[test]
fn android_catalog_has_five_buckets_of_three_files() {
    let entries = android_entries("res");
    assert_eq!(entries.len(), 15);
    let buckets = ["hdpi", "mdpi", "xhdpi", "xxhdpi", "xxxhdpi"];
    let launcher = [49u32, 48, 96, 144, 192];
    let foreground = [162u32, 108, 216, 324, 432];
    for (b, dir) in buckets.iter().enumerate() {
        let fg = &entries[3 * b];
        let round = &entries[3 * b + 1];
        let plain = &entries[3 * b + 2];
        assert_eq!(fg.name, format!("mipmap-{dir}/ic_launcher_foreground.png"));
        assert_eq!(round.name, format!("mipmap-{dir}/ic_launcher_round.png"));
        assert_eq!(plain.name, format!("mipmap-{dir}/ic_launcher.png"));
        assert_eq!(fg.out_path, format!("res/mipmap-{dir}/ic_launcher_foreground.png"));
        assert_eq!(fg.size, foreground[b]);
        assert_eq!(round.size, launcher[b]);
        assert_eq!(plain.size, launcher[b]);
        // The foreground layer strictly exceeds the launcher size.
        assert!(fg.size > plain.size);
    }
    // Five distinct directories, three files each.
    let mut dirs: Vec<String> = entries
        .iter()
        .map(|t| t.name.split('/').next().unwrap().to_string())
        .collect();
    dirs.dedup();
    assert_eq!(dirs.len(), 5);
    dirs.sort();
    dirs.dedup();
    assert_eq!(dirs.len(), 5);
}

#[test]
fn ios_catalog_matches_the_point_size_table() {
    let entries = ios_entries("assets");
    let got: Vec<(String, u32)> = entries.into_iter().map(|t| (t.name, t.size)).collect();
    let expected: Vec<(&str, u32)> = vec![
        ("AppIcon-20x20@2x-1.png", 40),
        ("AppIcon-20x20@1x.png", 20),
        ("AppIcon-20x20@2x.png", 40),
        ("AppIcon-20x20@3x.png", 60),
        ("AppIcon-29x29@2x-1.png", 58),
        ("AppIcon-29x29@1x.png", 29),
        ("AppIcon-29x29@2x.png", 58),
        ("AppIcon-29x29@3x.png", 87),
        ("AppIcon-40x40@2x-1.png", 80),
        ("AppIcon-40x40@1x.png", 40),
        ("AppIcon-40x40@2x.png", 80),
        ("AppIcon-40x40@3x.png", 120),
        ("AppIcon-60x60@2x.png", 120),
        ("AppIcon-60x60@3x.png", 180),
        ("AppIcon-76x76@1x.png", 76),
        ("AppIcon-76x76@2x.png", 152),
        ("AppIcon-83.5x83.5@2x.png", 167),
        ("AppIcon-512@2x.png", 1024),
    ];
    assert_eq!(got.len(), expected.len());
    for ((name, size), (en, es)) in got.iter().zip(expected.iter()) {
        assert_eq!(name, en);
        assert_eq!(size, es);
    }
}

#[test]
fn custom_targets_follow_the_requested_order() {
    let targets = custom_targets("out", &vec![512, 16, 512]);
    assert_eq!(targets.len(), 3);
    assert_eq!(targets[0].name, "512x512.png");
    assert_eq!(targets[1].name, "16x16.png");
    assert_eq!(targets[2].name, "512x512.png");
    assert_eq!(targets[1].out_path, "out/16x16.png");
    assert_eq!(targets[1].size, 16);
}
