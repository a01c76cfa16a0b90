use vstd::prelude::*;

use crate::catalog::{
    android_entries, android_name_spec, android_size_spec, appx_entries, appx_name_spec,
    appx_size_spec, custom_targets, desktop_entries, desktop_name_spec, desktop_size_spec,
    ios_entries, ios_name_spec, ios_size_spec, join_path, joined,
};
use crate::compose::{composite_over, composite_spec, BackgroundColor};
use crate::errors::{IconError, Stage, StageError};
use crate::icns::{encode_icns, icns_bytes, icns_fits, icns_pngs};
use crate::ico::{encode_ico, ico_file_spec, ico_fits};
use crate::img::{resample_spec, CanonicalImage};
use crate::numfmt::png_file_name;
use crate::png::{encode_png, png_bytes_of};

verus! {

/// The run's inputs: the source image path, an optional output root, an
/// optional explicit list of PNG edge lengths (which switches the run to
/// custom mode), and the CSS color string for the iOS background.
pub struct Options {
    pub input: String,
    pub output: Option<String>,
    pub png: Option<Vec<u32>>,
    pub ios_color: String,
}

impl Options {
    /// Whether the run is in custom mode: an explicit, non-empty size list.
    pub fn is_custom(&self) -> (r: bool)
        ensures
            r == (self.png matches Some(v) && v@.len() > 0),
    {
        match &self.png {
            Some(v) => v.len() > 0,
            None => false,
        }
    }
}

/// One planned output artifact: where it goes and the bytes to write.
pub struct Artifact {
    pub path: String,
    pub bytes: Vec<u8>,
}

/// The PNG stream of the source resampled to a square of the given size.
pub open spec fn png_artifact_spec(p: Seq<u8>, w: int, h: int, size: int) -> Seq<u8> {
    png_bytes_of(resample_spec(p, w, h, size), size, size)
}

/// Chooses the output root for a platform: the already-scaffolded native
/// project directory when it exists, else the fallback under the icon root.
pub fn choose_root(preferred_exists: bool, preferred: String, fallback: String) -> (r: String)
    ensures
        r@ == if preferred_exists { preferred@ } else { fallback@ },
{
    if preferred_exists {
        preferred
    } else {
        fallback
    }
}

/// Resizes the source to a square of the given size and PNG-encodes it.
/// Resampling and PNG encoding do not fault, so success is owed.
fn render_png(source: &CanonicalImage, size: u32) -> (r: Result<Vec<u8>, IconError>)
    requires
        source.wf(),
        size >= 1,
        4 * size * size <= usize::MAX,
        4 * source.width * size <= usize::MAX,
    ensures
        r is Ok,
        r matches Ok(v) ==> v@ == png_artifact_spec(
            source.pixels@,
            source.width as int,
            source.height as int,
            size as int,
        ),
{
    let resized = source.resize(size);
    encode_png(&resized)
}

/// Custom mode: produces exactly one flat `{N}x{N}.png` artifact per
/// requested size, at the output root, in the requested order — and no
/// container, Android or iOS artifacts. Success is owed: nothing in this
/// mode can fault.
pub fn generate_custom(source: &CanonicalImage, out_dir: &str, sizes: &Vec<u32>) -> (r: Result<
    Vec<Artifact>,
    StageError,
>)
    requires
        source.wf(),
        forall|i: int| 0 <= i < sizes@.len() ==> 1 <= #[trigger] sizes@[i]
            && 4 * (sizes@[i] as int) * (sizes@[i] as int) <= usize::MAX
            && 4 * source.width * sizes@[i] <= usize::MAX,
    ensures
        r is Ok,
        r matches Ok(v) ==> {
            &&& v@.len() == sizes@.len()
            &&& forall|i: int| 0 <= i < sizes@.len() ==> {
                &&& (#[trigger] v@[i]).path@ == joined(
                    out_dir@,
                    png_file_name(sizes@[i] as int),
                )
                &&& v@[i].bytes@ == png_artifact_spec(
                    source.pixels@,
                    source.width as int,
                    source.height as int,
                    sizes@[i] as int,
                )
            }
        },
{
    let targets = custom_targets(out_dir, sizes);
    let mut out: Vec<Artifact> = Vec::new();
    let mut k: usize = 0;
    while k < targets.len()
        invariant
            k <= targets@.len(),
            targets@.len() == sizes@.len(),
            source.wf(),
            forall|i: int| 0 <= i < sizes@.len() ==> 1 <= #[trigger] sizes@[i]
                && 4 * (sizes@[i] as int) * (sizes@[i] as int) <= usize::MAX
                && 4 * source.width * sizes@[i] <= usize::MAX,
            forall|i: int| 0 <= i < sizes@.len() ==> crate::catalog::target_matches(
                #[trigger] targets@[i],
                png_file_name(sizes@[i] as int),
                joined(out_dir@, png_file_name(sizes@[i] as int)),
                sizes@[i] as int,
            ),
            out@.len() == k,
            forall|i: int| 0 <= i < k ==> {
                &&& (#[trigger] out@[i]).path@ == joined(
                    out_dir@,
                    png_file_name(sizes@[i] as int),
                )
                &&& out@[i].bytes@ == png_artifact_spec(
                    source.pixels@,
                    source.width as int,
                    source.height as int,
                    sizes@[i] as int,
                )
            },
        decreases targets@.len() - k,
    {
        let bytes = match render_png(source, targets[k].size) {
            Ok(v) => v,
            Err(e) => {
                proof {
                    assert(false);
                }
                return Err(StageError { stage: Stage::Png, kind: e });
            },
        };
        out.push(Artifact { path: targets[k].out_path.clone(), bytes });
        k = k + 1;
    }
    Ok(out)
}

/// The output path of artifact `i` of a full-mode run.
pub open spec fn full_path_spec(
    out_dir: Seq<char>,
    android_root: Seq<char>,
    ios_root: Seq<char>,
    i: int,
) -> Seq<char> {
    if i < 10 { joined(out_dir, appx_name_spec(i)) }
    else if i == 10 { joined(out_dir, "icon.icns"@) }
    else if i == 11 { joined(out_dir, "icon.ico"@) }
    else if i < 16 { joined(out_dir, desktop_name_spec(i - 12)) }
    else if i < 31 { joined(android_root, android_name_spec(i - 16)) }
    else { joined(ios_root, ios_name_spec(i - 31)) }
}

/// The bytes of artifact `i` of a full-mode run: Appx, desktop and Android
/// artifacts are resampled PNGs of the source; the two containers hold their
/// own layers; iOS artifacts are resampled PNGs of the source composited
/// onto the background color.
pub open spec fn full_bytes_spec(
    p: Seq<u8>,
    w: int,
    h: int,
    bg: BackgroundColor,
    i: int,
) -> Seq<u8> {
    if i < 10 { png_artifact_spec(p, w, h, appx_size_spec(i)) }
    else if i == 10 { icns_bytes(icns_pngs(p, w, h)) }
    else if i == 11 { ico_file_spec(p, w, h) }
    else if i < 16 { png_artifact_spec(p, w, h, desktop_size_spec(i - 12)) }
    else if i < 31 { png_artifact_spec(p, w, h, android_size_spec(i - 16)) }
    else { png_artifact_spec(composite_spec(p, w, h, bg), w, h, ios_size_spec(i - 31)) }
}

/// The number of artifacts of a full-mode run.
pub open spec fn full_artifact_count() -> int {
    49
}

/// Full mode: produces the Appx logos, the `.icns` and `.ico` containers,
/// the desktop PNGs, the Android mipmap sets (under the Android root) and
/// the iOS app icons (under the iOS root, composited onto the background
/// color), in that order. The run succeeds exactly when both containers'
/// PNG streams fit their 32-bit length fields (the PNG stages cannot fault);
/// otherwise it fails as a whole at the first failing stage, whose error
/// names that stage — no partial artifact list is returned.
pub fn generate_full(
    source: &CanonicalImage,
    out_dir: &str,
    android_root: &str,
    ios_root: &str,
    bg: BackgroundColor,
) -> (r: Result<Vec<Artifact>, StageError>)
    requires
        source.wf(),
        4 * source.width * 1024 <= usize::MAX,
    ensures
        r is Ok <==> icns_fits(source.pixels@, source.width as int, source.height as int)
            && ico_fits(source.pixels@, source.width as int, source.height as int),
        r matches Err(e) ==> {
            &&& e.kind == IconError::Encode
            &&& (e.stage == Stage::Icns <==> !icns_fits(
                source.pixels@,
                source.width as int,
                source.height as int,
            ))
            &&& (e.stage == Stage::Ico <==> icns_fits(
                source.pixels@,
                source.width as int,
                source.height as int,
            ) && !ico_fits(source.pixels@, source.width as int, source.height as int))
        },
        r matches Ok(v) ==> {
            &&& v@.len() == full_artifact_count()
            &&& forall|i: int| 0 <= i < full_artifact_count() ==> {
                &&& (#[trigger] v@[i]).path@ == full_path_spec(
                    out_dir@,
                    android_root@,
                    ios_root@,
                    i,
                )
                &&& v@[i].bytes@ == full_bytes_spec(
                    source.pixels@,
                    source.width as int,
                    source.height as int,
                    bg,
                    i,
                )
            }
        },
{
    let ghost p = source.pixels@;
    let ghost w = source.width as int;
    let ghost h = source.height as int;
    let mut out: Vec<Artifact> = Vec::new();

    let appx = appx_entries(out_dir);
    let mut k: usize = 0;
    while k < appx.len()
        invariant
            k <= appx@.len(),
            appx@.len() == 10,
            source.wf(),
            4 * source.width * 1024 <= usize::MAX,
            p == source.pixels@,
            w == source.width as int,
            h == source.height as int,
            forall|i: int| 0 <= i < 10 ==> crate::catalog::target_matches(
                #[trigger] appx@[i],
                appx_name_spec(i),
                joined(out_dir@, appx_name_spec(i)),
                appx_size_spec(i),
            ),
            out@.len() == k,
            forall|i: int| 0 <= i < k ==> {
                &&& (#[trigger] out@[i]).path@ == full_path_spec(
                    out_dir@, android_root@, ios_root@, i,
                )
                &&& out@[i].bytes@ == full_bytes_spec(p, w, h, bg, i)
            },
        decreases appx@.len() - k,
    {
        let size = appx[k].size;
        proof {
            assert(4 * (source.width as int) * (size as int)
                <= 4 * (source.width as int) * 1024
                && 4 * (size as int) * (size as int) <= 4 * 1024 * 1024) by (nonlinear_arith)
                requires size <= 1024, size >= 0, source.width >= 0,
            ;
        }
        let bytes = match render_png(source, size) {
            Ok(v) => v,
            Err(e) => {
                proof {
                    assert(false);
                }
                return Err(StageError { stage: Stage::Appx, kind: e });
            },
        };
        out.push(Artifact { path: appx[k].out_path.clone(), bytes });
        k = k + 1;
    }

    let icns_file = match encode_icns(source) {
        Ok(v) => v,
        Err(e) => {
            return Err(StageError { stage: Stage::Icns, kind: e });
        },
    };
    out.push(Artifact { path: join_path(out_dir, "icon.icns"), bytes: icns_file });

    proof {
        assert(4 * (source.width as int) * 256 <= 4 * (source.width as int) * 1024)
            by (nonlinear_arith)
            requires source.width >= 0,
        ;
    }
    let ico_file = match encode_ico(source) {
        Ok(v) => v,
        Err(e) => {
            return Err(StageError { stage: Stage::Ico, kind: e });
        },
    };
    out.push(Artifact { path: join_path(out_dir, "icon.ico"), bytes: ico_file });

    let ghost out_after_containers = out@;

    let desktop = desktop_entries(out_dir);
    let mut k2: usize = 0;
    while k2 < desktop.len()
        invariant
            k2 <= desktop@.len(),
            desktop@.len() == 4,
            source.wf(),
            4 * source.width * 1024 <= usize::MAX,
            icns_fits(p, w, h),
            ico_fits(p, w, h),
            p == source.pixels@,
            w == source.width as int,
            h == source.height as int,
            forall|i: int| 0 <= i < 4 ==> crate::catalog::target_matches(
                #[trigger] desktop@[i],
                desktop_name_spec(i),
                joined(out_dir@, desktop_name_spec(i)),
                desktop_size_spec(i),
            ),
            out@.len() == 12 + k2,
            forall|i: int| 0 <= i < 12 + k2 ==> {
                &&& (#[trigger] out@[i]).path@ == full_path_spec(
                    out_dir@, android_root@, ios_root@, i,
                )
                &&& out@[i].bytes@ == full_bytes_spec(p, w, h, bg, i)
            },
        decreases desktop@.len() - k2,
    {
        let size = desktop[k2].size;
        proof {
            assert(4 * (source.width as int) * (size as int)
                <= 4 * (source.width as int) * 1024
                && 4 * (size as int) * (size as int) <= 4 * 1024 * 1024) by (nonlinear_arith)
                requires size <= 1024, size >= 0, source.width >= 0,
            ;
        }
        let bytes = match render_png(source, size) {
            Ok(v) => v,
            Err(e) => {
                proof {
                    assert(false);
                }
                return Err(StageError { stage: Stage::Png, kind: e });
            },
        };
        out.push(Artifact { path: desktop[k2].out_path.clone(), bytes });
        k2 = k2 + 1;
    }

    let android = android_entries(android_root);
    let mut k3: usize = 0;
    while k3 < android.len()
        invariant
            k3 <= android@.len(),
            android@.len() == 15,
            source.wf(),
            4 * source.width * 1024 <= usize::MAX,
            icns_fits(p, w, h),
            ico_fits(p, w, h),
            p == source.pixels@,
            w == source.width as int,
            h == source.height as int,
            forall|i: int| 0 <= i < 15 ==> crate::catalog::target_matches(
                #[trigger] android@[i],
                android_name_spec(i),
                joined(android_root@, android_name_spec(i)),
                android_size_spec(i),
            ),
            out@.len() == 16 + k3,
            forall|i: int| 0 <= i < 16 + k3 ==> {
                &&& (#[trigger] out@[i]).path@ == full_path_spec(
                    out_dir@, android_root@, ios_root@, i,
                )
                &&& out@[i].bytes@ == full_bytes_spec(p, w, h, bg, i)
            },
        decreases android@.len() - k3,
    {
        let size = android[k3].size;
        proof {
            assert(4 * (source.width as int) * (size as int)
                <= 4 * (source.width as int) * 1024
                && 4 * (size as int) * (size as int) <= 4 * 1024 * 1024) by (nonlinear_arith)
                requires size <= 1024, size >= 0, source.width >= 0,
            ;
        }
        let bytes = match render_png(source, size) {
            Ok(v) => v,
            Err(e) => {
                proof {
                    assert(false);
                }
                return Err(StageError { stage: Stage::Png, kind: e });
            },
        };
        out.push(Artifact { path: android[k3].out_path.clone(), bytes });
        k3 = k3 + 1;
    }

    let composited = composite_over(source, bg);
    let ios = ios_entries(ios_root);
    let mut k4: usize = 0;
    while k4 < ios.len()
        invariant
            k4 <= ios@.len(),
            ios@.len() == 18,
            composited.wf(),
            composited.width == source.width,
            composited.height == source.height,
            composited.pixels@ == composite_spec(p, w, h, bg),
            source.wf(),
            4 * source.width * 1024 <= usize::MAX,
            icns_fits(p, w, h),
            ico_fits(p, w, h),
            p == source.pixels@,
            w == source.width as int,
            h == source.height as int,
            forall|i: int| 0 <= i < 18 ==> crate::catalog::target_matches(
                #[trigger] ios@[i],
                ios_name_spec(i),
                joined(ios_root@, ios_name_spec(i)),
                ios_size_spec(i),
            ),
            out@.len() == 31 + k4,
            forall|i: int| 0 <= i < 31 + k4 ==> {
                &&& (#[trigger] out@[i]).path@ == full_path_spec(
                    out_dir@, android_root@, ios_root@, i,
                )
                &&& out@[i].bytes@ == full_bytes_spec(p, w, h, bg, i)
            },
        decreases ios@.len() - k4,
    {
        let size = ios[k4].size;
        proof {
            assert(4 * (composited.width as int) * (size as int)
                <= 4 * (composited.width as int) * 1024
                && 4 * (size as int) * (size as int) <= 4 * 1024 * 1024) by (nonlinear_arith)
                requires size <= 1024, size >= 0, composited.width >= 0,
            ;
        }
        let bytes = match render_png(&composited, size) {
            Ok(v) => v,
            Err(e) => {
                proof {
                    assert(false);
                }
                return Err(StageError { stage: Stage::Png, kind: e });
            },
        };
        out.push(Artifact { path: ios[k4].out_path.clone(), bytes });
        k4 = k4 + 1;
    }

    Ok(out)
}

} // verus!
