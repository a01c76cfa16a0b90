use vstd::prelude::*;
use vstd::string::StringExecFns;

use crate::numfmt::{png_file_name, png_file_name_str};

verus! {

// The per-platform target catalogs: deterministic ordered lists mapping each
// semantic icon slot to an output file name and a pixel size. They are const
// data plus lookups; nothing here does I/O.

/// One planned PNG output: a display name (the file name, possibly with its
/// subdirectory), the resolved output path, and the pixel edge length.
pub struct PngTarget {
    pub name: String,
    pub out_path: String,
    pub size: u32,
}

/// Whether a target carries exactly the given name, path and size.
pub open spec fn target_matches(t: PngTarget, name: Seq<char>, path: Seq<char>, size: int) -> bool {
    &&& t.name@ == name
    &&& t.out_path@ == path
    &&& t.size as int == size
}

/// A directory path joined with a file name by one separator.
pub open spec fn joined(dir: Seq<char>, name: Seq<char>) -> Seq<char> {
    dir + seq!['/'] + name
}

/// Joins a directory path and a file name with one separator.
pub fn join_path(dir: &str, name: &str) -> (r: String)
    ensures
        r@ == joined(dir@, name@),
{
    let mut s = dir.to_owned();
    s.append("/");
    s.append(name);
    proof {
        reveal_strlit("/");
        assert(s@ =~= joined(dir@, name@));
    }
    s
}

/// Builds one target under the given root directory.
fn make_target(root: &str, name: String, size: u32) -> (t: PngTarget)
    ensures
        target_matches(t, name@, joined(root@, name@), size as int),
{
    let out_path = join_path(root, name.as_str());
    PngTarget { name, out_path, size }
}

// ---------------------------------------------------------------------------
// Desktop (Linux): fixed sizes 32, 128, 256 and 512 with special-cased names.

/// The pixel size of desktop entry `i`.
pub open spec fn desktop_size_spec(i: int) -> int {
    if i == 0 { 32 } else if i == 1 { 128 } else if i == 2 { 256 } else { 512 }
}

/// The file name of desktop entry `i`: the 256 size is the 128 name at
/// doubled scale, and the 512 size is the plain icon name.
pub open spec fn desktop_name_spec(i: int) -> Seq<char> {
    if i == 0 { png_file_name(32) }
    else if i == 1 { png_file_name(128) }
    else if i == 2 { "128x128@2x.png"@ }
    else { "icon.png"@ }
}

/// The desktop catalog: four flat PNG targets under the output root.
pub fn desktop_entries(out_dir: &str) -> (r: Vec<PngTarget>)
    ensures
        r@.len() == 4,
        forall|i: int| 0 <= i < 4 ==> target_matches(
            #[trigger] r@[i],
            desktop_name_spec(i),
            joined(out_dir@, desktop_name_spec(i)),
            desktop_size_spec(i),
        ),
{
    let mut r: Vec<PngTarget> = Vec::new();
    r.push(make_target(out_dir, png_file_name_str(32), 32));
    r.push(make_target(out_dir, png_file_name_str(128), 128));
    r.push(make_target(out_dir, "128x128@2x.png".to_owned(), 256));
    r.push(make_target(out_dir, "icon.png".to_owned(), 512));
    r
}

// ---------------------------------------------------------------------------
// Windows Store (Appx): one store logo and nine square logos.

/// The pixel size of Appx entry `i`.
pub open spec fn appx_size_spec(i: int) -> int {
    if i == 0 { 50 }
    else if i == 1 { 30 }
    else if i == 2 { 44 }
    else if i == 3 { 71 }
    else if i == 4 { 89 }
    else if i == 5 { 107 }
    else if i == 6 { 142 }
    else if i == 7 { 150 }
    else if i == 8 { 284 }
    else { 310 }
}

/// The file name of Appx entry `i`.
pub open spec fn appx_name_spec(i: int) -> Seq<char> {
    if i == 0 { "StoreLogo.png"@ }
    else if i == 1 { "Square30x30Logo.png"@ }
    else if i == 2 { "Square44x44Logo.png"@ }
    else if i == 3 { "Square71x71Logo.png"@ }
    else if i == 4 { "Square89x89Logo.png"@ }
    else if i == 5 { "Square107x107Logo.png"@ }
    else if i == 6 { "Square142x142Logo.png"@ }
    else if i == 7 { "Square150x150Logo.png"@ }
    else if i == 8 { "Square284x284Logo.png"@ }
    else { "Square310x310Logo.png"@ }
}

/// The Appx catalog: the store logo and the nine square logos, in order.
pub fn appx_entries(out_dir: &str) -> (r: Vec<PngTarget>)
    ensures
        r@.len() == 10,
        forall|i: int| 0 <= i < 10 ==> target_matches(
            #[trigger] r@[i],
            appx_name_spec(i),
            joined(out_dir@, appx_name_spec(i)),
            appx_size_spec(i),
        ),
{
    let mut r: Vec<PngTarget> = Vec::new();
    r.push(make_target(out_dir, "StoreLogo.png".to_owned(), 50));
    r.push(make_target(out_dir, "Square30x30Logo.png".to_owned(), 30));
    r.push(make_target(out_dir, "Square44x44Logo.png".to_owned(), 44));
    r.push(make_target(out_dir, "Square71x71Logo.png".to_owned(), 71));
    r.push(make_target(out_dir, "Square89x89Logo.png".to_owned(), 89));
    r.push(make_target(out_dir, "Square107x107Logo.png".to_owned(), 107));
    r.push(make_target(out_dir, "Square142x142Logo.png".to_owned(), 142));
    r.push(make_target(out_dir, "Square150x150Logo.png".to_owned(), 150));
    r.push(make_target(out_dir, "Square284x284Logo.png".to_owned(), 284));
    r.push(make_target(out_dir, "Square310x310Logo.png".to_owned(), 310));
    r
}

// ---------------------------------------------------------------------------
// Android: five density buckets, each with a launcher icon, a round launcher
// icon, and a larger adaptive-icon foreground layer, in its own mipmap
// directory.

/// The mipmap directory of density bucket `b`.
pub open spec fn android_dir_spec(b: int) -> Seq<char> {
    if b == 0 { "mipmap-hdpi"@ }
    else if b == 1 { "mipmap-mdpi"@ }
    else if b == 2 { "mipmap-xhdpi"@ }
    else if b == 3 { "mipmap-xxhdpi"@ }
    else { "mipmap-xxxhdpi"@ }
}

/// The launcher (and round launcher) pixel size of bucket `b`.
pub open spec fn android_launcher_size_spec(b: int) -> int {
    if b == 0 { 49 } else if b == 1 { 48 } else if b == 2 { 96 } else if b == 3 { 144 } else { 192 }
}

/// The adaptive-icon foreground pixel size of bucket `b`: rendered larger
/// than the launcher icon to tolerate system-applied masking.
pub open spec fn android_foreground_size_spec(b: int) -> int {
    if b == 0 { 162 } else if b == 1 { 108 } else if b == 2 { 216 } else if b == 3 { 324 } else { 432 }
}

/// The file within a bucket: foreground layer first, then the round
/// launcher, then the launcher.
pub open spec fn android_file_spec(j: int) -> Seq<char> {
    if j == 0 { "ic_launcher_foreground.png"@ }
    else if j == 1 { "ic_launcher_round.png"@ }
    else { "ic_launcher.png"@ }
}

/// The name of Android entry `i` (bucket `i / 3`, file `i % 3`).
pub open spec fn android_name_spec(i: int) -> Seq<char> {
    android_dir_spec(i / 3) + seq!['/'] + android_file_spec(i % 3)
}

/// The pixel size of Android entry `i`.
pub open spec fn android_size_spec(i: int) -> int {
    if i % 3 == 0 {
        android_foreground_size_spec(i / 3)
    } else {
        android_launcher_size_spec(i / 3)
    }
}

/// The Android catalog: fifteen targets, three per density bucket, each under
/// its bucket's mipmap directory below the given root.
pub fn android_entries(root: &str) -> (r: Vec<PngTarget>)
    ensures
        r@.len() == 15,
        forall|i: int| 0 <= i < 15 ==> target_matches(
            #[trigger] r@[i],
            android_name_spec(i),
            joined(root@, android_name_spec(i)),
            android_size_spec(i),
        ),
{
    let mut r: Vec<PngTarget> = Vec::new();
    r.push(make_target(root, join_path("mipmap-hdpi", "ic_launcher_foreground.png"), 162));
    r.push(make_target(root, join_path("mipmap-hdpi", "ic_launcher_round.png"), 49));
    r.push(make_target(root, join_path("mipmap-hdpi", "ic_launcher.png"), 49));
    r.push(make_target(root, join_path("mipmap-mdpi", "ic_launcher_foreground.png"), 108));
    r.push(make_target(root, join_path("mipmap-mdpi", "ic_launcher_round.png"), 48));
    r.push(make_target(root, join_path("mipmap-mdpi", "ic_launcher.png"), 48));
    r.push(make_target(root, join_path("mipmap-xhdpi", "ic_launcher_foreground.png"), 216));
    r.push(make_target(root, join_path("mipmap-xhdpi", "ic_launcher_round.png"), 96));
    r.push(make_target(root, join_path("mipmap-xhdpi", "ic_launcher.png"), 96));
    r.push(make_target(root, join_path("mipmap-xxhdpi", "ic_launcher_foreground.png"), 324));
    r.push(make_target(root, join_path("mipmap-xxhdpi", "ic_launcher_round.png"), 144));
    r.push(make_target(root, join_path("mipmap-xxhdpi", "ic_launcher.png"), 144));
    r.push(make_target(root, join_path("mipmap-xxxhdpi", "ic_launcher_foreground.png"), 432));
    r.push(make_target(root, join_path("mipmap-xxxhdpi", "ic_launcher_round.png"), 192));
    r.push(make_target(root, join_path("mipmap-xxxhdpi", "ic_launcher.png"), 192));
    r
}

/// The shape the Android catalog is required to have: in every density
/// bucket the foreground layer is strictly larger than the launcher and round
/// launcher (which share a size), and the five bucket directories are
/// pairwise distinct.
pub proof fn lemma_android_catalog_shape()
    ensures
        forall|b: int| 0 <= b < 5 ==> #[trigger] android_foreground_size_spec(b)
            > android_launcher_size_spec(b),
        forall|i: int| 0 <= i < 15 && i % 3 != 0 ==> #[trigger] android_size_spec(i)
            == android_launcher_size_spec(i / 3),
        forall|i: int| 0 <= i < 15 && i % 3 == 0 ==> #[trigger] android_size_spec(i)
            == android_foreground_size_spec(i / 3),
        forall|b1: int, b2: int|
            0 <= b1 < 5 && 0 <= b2 < 5 && b1 != b2 ==> (#[trigger] android_dir_spec(b1))
                != (#[trigger] android_dir_spec(b2)),
{
    assert forall|b1: int, b2: int|
        0 <= b1 < 5 && 0 <= b2 < 5 && b1 != b2 implies (#[trigger] android_dir_spec(b1))
        != (#[trigger] android_dir_spec(b2)) by {
        reveal_strlit("mipmap-hdpi");
        reveal_strlit("mipmap-mdpi");
        reveal_strlit("mipmap-xhdpi");
        reveal_strlit("mipmap-xxhdpi");
        reveal_strlit("mipmap-xxxhdpi");
        assert(android_dir_spec(0).len() == 11);
        assert(android_dir_spec(1).len() == 11);
        assert(android_dir_spec(2).len() == 12);
        assert(android_dir_spec(3).len() == 13);
        assert(android_dir_spec(4).len() == 14);
        assert(android_dir_spec(0)[7] == 'h');
        assert(android_dir_spec(1)[7] == 'm');
    }
}

// ---------------------------------------------------------------------------
// iOS: nominal point sizes with integer scale multipliers; three sizes also
// carry an extra doubled-scale variant. Pixel size is the point size times
// the multiplier, truncated.

/// The file name of iOS entry `i`.
pub open spec fn ios_name_spec(i: int) -> Seq<char> {
    if i == 0 { "AppIcon-20x20@2x-1.png"@ }
    else if i == 1 { "AppIcon-20x20@1x.png"@ }
    else if i == 2 { "AppIcon-20x20@2x.png"@ }
    else if i == 3 { "AppIcon-20x20@3x.png"@ }
    else if i == 4 { "AppIcon-29x29@2x-1.png"@ }
    else if i == 5 { "AppIcon-29x29@1x.png"@ }
    else if i == 6 { "AppIcon-29x29@2x.png"@ }
    else if i == 7 { "AppIcon-29x29@3x.png"@ }
    else if i == 8 { "AppIcon-40x40@2x-1.png"@ }
    else if i == 9 { "AppIcon-40x40@1x.png"@ }
    else if i == 10 { "AppIcon-40x40@2x.png"@ }
    else if i == 11 { "AppIcon-40x40@3x.png"@ }
    else if i == 12 { "AppIcon-60x60@2x.png"@ }
    else if i == 13 { "AppIcon-60x60@3x.png"@ }
    else if i == 14 { "AppIcon-76x76@1x.png"@ }
    else if i == 15 { "AppIcon-76x76@2x.png"@ }
    else if i == 16 { "AppIcon-83.5x83.5@2x.png"@ }
    else { "AppIcon-512@2x.png"@ }
}

/// The pixel size of iOS entry `i`: point size times multiplier, truncated
/// (so the 83.5-point entry at doubled scale is 167 pixels).
pub open spec fn ios_size_spec(i: int) -> int {
    if i == 0 { 40 }
    else if i == 1 { 20 }
    else if i == 2 { 40 }
    else if i == 3 { 60 }
    else if i == 4 { 58 }
    else if i == 5 { 29 }
    else if i == 6 { 58 }
    else if i == 7 { 87 }
    else if i == 8 { 80 }
    else if i == 9 { 40 }
    else if i == 10 { 80 }
    else if i == 11 { 120 }
    else if i == 12 { 120 }
    else if i == 13 { 180 }
    else if i == 14 { 76 }
    else if i == 15 { 152 }
    else if i == 16 { 167 }
    else { 1024 }
}

/// The iOS catalog: eighteen app-icon targets under the given root, extras
/// first within each point size, then the multiplier variants in order.
pub fn ios_entries(root: &str) -> (r: Vec<PngTarget>)
    ensures
        r@.len() == 18,
        forall|i: int| 0 <= i < 18 ==> target_matches(
            #[trigger] r@[i],
            ios_name_spec(i),
            joined(root@, ios_name_spec(i)),
            ios_size_spec(i),
        ),
{
    let mut r: Vec<PngTarget> = Vec::new();
    r.push(make_target(root, "AppIcon-20x20@2x-1.png".to_owned(), 40));
    r.push(make_target(root, "AppIcon-20x20@1x.png".to_owned(), 20));
    r.push(make_target(root, "AppIcon-20x20@2x.png".to_owned(), 40));
    r.push(make_target(root, "AppIcon-20x20@3x.png".to_owned(), 60));
    r.push(make_target(root, "AppIcon-29x29@2x-1.png".to_owned(), 58));
    r.push(make_target(root, "AppIcon-29x29@1x.png".to_owned(), 29));
    r.push(make_target(root, "AppIcon-29x29@2x.png".to_owned(), 58));
    r.push(make_target(root, "AppIcon-29x29@3x.png".to_owned(), 87));
    r.push(make_target(root, "AppIcon-40x40@2x-1.png".to_owned(), 80));
    r.push(make_target(root, "AppIcon-40x40@1x.png".to_owned(), 40));
    r.push(make_target(root, "AppIcon-40x40@2x.png".to_owned(), 80));
    r.push(make_target(root, "AppIcon-40x40@3x.png".to_owned(), 120));
    r.push(make_target(root, "AppIcon-60x60@2x.png".to_owned(), 120));
    r.push(make_target(root, "AppIcon-60x60@3x.png".to_owned(), 180));
    r.push(make_target(root, "AppIcon-76x76@1x.png".to_owned(), 76));
    r.push(make_target(root, "AppIcon-76x76@2x.png".to_owned(), 152));
    r.push(make_target(root, "AppIcon-83.5x83.5@2x.png".to_owned(), 167));
    r.push(make_target(root, "AppIcon-512@2x.png".to_owned(), 1024));
    r
}

// ---------------------------------------------------------------------------
// Custom mode: flat PNG targets for an explicit list of sizes.

/// The custom-mode catalog: one flat `{N}x{N}.png` target per requested
/// size, at the output root, in the requested order, and nothing else.
pub fn custom_targets(out_dir: &str, sizes: &Vec<u32>) -> (r: Vec<PngTarget>)
    ensures
        r@.len() == sizes@.len(),
        forall|i: int| 0 <= i < sizes@.len() ==> target_matches(
            #[trigger] r@[i],
            png_file_name(sizes@[i] as int),
            joined(out_dir@, png_file_name(sizes@[i] as int)),
            sizes@[i] as int,
        ),
{
    let mut r: Vec<PngTarget> = Vec::new();
    let mut k: usize = 0;
    while k < sizes.len()
        invariant
            k <= sizes@.len(),
            r@.len() == k,
            forall|i: int| 0 <= i < k ==> target_matches(
                #[trigger] r@[i],
                png_file_name(sizes@[i] as int),
                joined(out_dir@, png_file_name(sizes@[i] as int)),
                sizes@[i] as int,
            ),
        decreases sizes@.len() - k,
    {
        let size = sizes[k];
        r.push(make_target(out_dir, png_file_name_str(size), size));
        k = k + 1;
    }
    r
}

} // verus!
