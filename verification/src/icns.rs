use vstd::prelude::*;

use crate::errors::IconError;
use crate::img::{CanonicalImage, resample_spec};
use crate::png::{encode_png, png_bytes_of};
use crate::wire::{be32, push_be32, push_bytes, read_be32, lemma_be32_roundtrip};

verus! {

// A macOS icon container: the magic bytes `icns`, a big-endian total length,
// then one element per entry of the size table. Each element is a 4-byte
// Apple type code, a big-endian element length (the PNG stream plus the
// 8-byte element header), and the PNG stream itself.

/// One entry of the embedded size table: a symbolic element name, the pixel
/// edge length, and the 4-character Apple type code.
pub struct IcnsEntry {
    pub name: &'static str,
    pub size: u32,
    pub ostype: (u8, u8, u8, u8),
}

/// The number of entries in the size table.
pub open spec fn icns_entry_count() -> int {
    10
}

/// The pixel edge length of table entry `i`.
pub open spec fn icns_size_spec(i: int) -> int {
    if i == 0 { 16 }
    else if i == 1 { 32 }
    else if i == 2 { 32 }
    else if i == 3 { 64 }
    else if i == 4 { 128 }
    else if i == 5 { 256 }
    else if i == 6 { 256 }
    else if i == 7 { 512 }
    else if i == 8 { 512 }
    else { 1024 }
}

/// The Apple type code of table entry `i`.
pub open spec fn icns_ostype_spec(i: int) -> Seq<u8> {
    if i == 0 { seq![105, 99, 112, 52] }
    else if i == 1 { seq![105, 99, 49, 49] }
    else if i == 2 { seq![105, 99, 112, 53] }
    else if i == 3 { seq![105, 99, 49, 50] }
    else if i == 4 { seq![105, 99, 48, 55] }
    else if i == 5 { seq![105, 99, 49, 51] }
    else if i == 6 { seq![105, 99, 48, 56] }
    else if i == 7 { seq![105, 99, 49, 52] }
    else if i == 8 { seq![105, 99, 48, 57] }
    else { seq![105, 99, 49, 48] }
}

/// The bytes of an ostype quadruple.
pub open spec fn ostype_seq(t: (u8, u8, u8, u8)) -> Seq<u8> {
    seq![t.0, t.1, t.2, t.3]
}

/// The embedded size table: one element per macOS icon resolution, standard
/// and doubled-scale variants from 16 up to 1024 pixels.
pub fn icns_table() -> (r: Vec<IcnsEntry>)
    ensures
        r@.len() == icns_entry_count(),
        forall|i: int| 0 <= i < r@.len() ==> {
            &&& #[trigger] r@[i].size as int == icns_size_spec(i)
            &&& ostype_seq(r@[i].ostype) == icns_ostype_spec(i)
        },
{
    let mut r: Vec<IcnsEntry> = Vec::new();
    r.push(IcnsEntry { name: "icon_16x16", size: 16, ostype: (105, 99, 112, 52) });
    r.push(IcnsEntry { name: "icon_16x16@2x", size: 32, ostype: (105, 99, 49, 49) });
    r.push(IcnsEntry { name: "icon_32x32", size: 32, ostype: (105, 99, 112, 53) });
    r.push(IcnsEntry { name: "icon_32x32@2x", size: 64, ostype: (105, 99, 49, 50) });
    r.push(IcnsEntry { name: "icon_128x128", size: 128, ostype: (105, 99, 48, 55) });
    r.push(IcnsEntry { name: "icon_128x128@2x", size: 256, ostype: (105, 99, 49, 51) });
    r.push(IcnsEntry { name: "icon_256x256", size: 256, ostype: (105, 99, 48, 56) });
    r.push(IcnsEntry { name: "icon_256x256@2x", size: 512, ostype: (105, 99, 49, 52) });
    r.push(IcnsEntry { name: "icon_512x512", size: 512, ostype: (105, 99, 48, 57) });
    r.push(IcnsEntry { name: "icon_512x512@2x", size: 1024, ostype: (105, 99, 49, 48) });
    r
}

/// The PNG stream of the source resampled to table entry `i`'s size.
pub open spec fn icns_layer_png(p: Seq<u8>, w: int, h: int, i: int) -> Seq<u8> {
    png_bytes_of(
        resample_spec(p, w, h, icns_size_spec(i)),
        icns_size_spec(i),
        icns_size_spec(i),
    )
}

/// The PNG streams of all table entries, in table order.
pub open spec fn icns_pngs(p: Seq<u8>, w: int, h: int) -> Seq<Seq<u8>> {
    Seq::new(icns_entry_count() as nat, |i: int| icns_layer_png(p, w, h, i))
}

/// One icon element: type code, big-endian length (data plus 8), data.
pub open spec fn icns_elem(i: int, png: Seq<u8>) -> Seq<u8> {
    icns_ostype_spec(i) + be32(png.len() as int + 8) + png
}

/// The first `k` icon elements, concatenated in table order.
pub open spec fn icns_elems(pngs: Seq<Seq<u8>>, k: int) -> Seq<u8>
    decreases k,
{
    if k <= 0 {
        Seq::empty()
    } else {
        icns_elems(pngs, k - 1) + icns_elem(k - 1, pngs[k - 1])
    }
}

/// The whole `.icns` container for the given per-entry PNG streams.
pub open spec fn icns_bytes(pngs: Seq<Seq<u8>>) -> Seq<u8> {
    seq![105, 99, 110, 115] + be32(8 + icns_elems(pngs, icns_entry_count()).len() as int)
        + icns_elems(pngs, icns_entry_count())
}

/// The file offset at which element `i` starts (the first element follows
/// the 8-byte file header).
pub open spec fn icns_elem_off(pngs: Seq<Seq<u8>>, i: int) -> int
    decreases i,
{
    if i <= 0 {
        8
    } else {
        icns_elem_off(pngs, i - 1) + 8 + pngs[i - 1].len()
    }
}

/// Whether every element of the container fits its 32-bit length fields:
/// each PNG stream plus its 8-byte element header, and the file as a whole.
pub open spec fn icns_fits(p: Seq<u8>, w: int, h: int) -> bool {
    let pngs = icns_pngs(p, w, h);
    &&& forall|i: int| 0 <= i < pngs.len() ==> (#[trigger] pngs[i]).len() + 8 <= 0xFFFF_FFFF
    &&& icns_elem_off(pngs, icns_entry_count()) <= 0xFFFF_FFFF
}

pub proof fn lemma_icns_elems_len(pngs: Seq<Seq<u8>>, k: int)
    requires
        k >= 0,
    ensures
        icns_elems(pngs, k).len() == icns_elem_off(pngs, k) - 8,
    decreases k,
{
    if k > 0 {
        lemma_icns_elems_len(pngs, k - 1);
    }
}

/// Element `i` of the concatenation sits at its offset: its type code, its
/// length field and its data can be read back from the bytes.
pub proof fn lemma_icns_elem_at(pngs: Seq<Seq<u8>>, i: int, k: int)
    requires
        0 <= i < k,
        pngs[i].len() as int + 8 <= 0xFFFF_FFFF,
    ensures
        ({
            let elems = icns_elems(pngs, k);
            let off = icns_elem_off(pngs, i) - 8;
            &&& icns_elem_off(pngs, i + 1) - 8 <= elems.len()
            &&& off >= 0
            &&& elems.subrange(off, off + 4) == icns_ostype_spec(i)
            &&& elems.subrange(off + 4, off + 8) == be32(pngs[i].len() as int + 8)
            &&& read_be32(elems, off + 4) == 8 + pngs[i].len()
            &&& elems.subrange(off + 8, off + 8 + pngs[i].len() as int) == pngs[i]
        }),
    decreases k,
{
    lemma_icns_elems_len(pngs, i);
    lemma_icns_elems_len(pngs, i + 1);
    lemma_icns_elems_len(pngs, k);
    lemma_icns_off_monotonic(pngs, i + 1, k);
    let elems = icns_elems(pngs, k);
    let off = icns_elem_off(pngs, i) - 8;
    if k == i + 1 {
        assert(elems == icns_elems(pngs, i) + icns_elem(i, pngs[i]));
        assert(elems.subrange(off, off + 4) =~= icns_ostype_spec(i));
        assert(elems.subrange(off + 4, off + 8) =~= be32(pngs[i].len() as int + 8));
        lemma_be32_roundtrip(elems, off + 4, pngs[i].len() as int + 8);
        assert(elems.subrange(off + 8, off + 8 + pngs[i].len() as int) =~= pngs[i]);
    } else {
        lemma_icns_elem_at(pngs, i, k - 1);
        lemma_icns_elems_len(pngs, k - 1);
        let prev = icns_elems(pngs, k - 1);
        assert(elems == prev + icns_elem(k - 1, pngs[k - 1]));
        assert(elems.subrange(off, off + 4) =~= prev.subrange(off, off + 4));
        assert(elems.subrange(off + 8, off + 8 + pngs[i].len() as int)
            =~= prev.subrange(off + 8, off + 8 + pngs[i].len() as int));
        assert(elems.subrange(off + 4, off + 8) =~= prev.subrange(off + 4, off + 8));
        lemma_be32_roundtrip(elems, off + 4, pngs[i].len() as int + 8);
    }
}

/// Element offsets grow with the index.
pub proof fn lemma_icns_off_monotonic(pngs: Seq<Seq<u8>>, i: int, k: int)
    requires
        0 <= i <= k,
    ensures
        icns_elem_off(pngs, i) <= icns_elem_off(pngs, k),
    decreases k,
{
    if k > i {
        lemma_icns_off_monotonic(pngs, i, k - 1);
    }
}

/// The container holds exactly one element per entry of the size table, each
/// tagged with that entry's type code: walking the file from offset 8 yields
/// the ten elements, and the last one ends exactly at the end of the file.
#[verifier::rlimit(100)]
pub proof fn lemma_icns_container_elements(pngs: Seq<Seq<u8>>)
    requires
        pngs.len() == icns_entry_count(),
        forall|i: int| 0 <= i < pngs.len() ==> (#[trigger] pngs[i].len()) + 8 <= 0xFFFF_FFFF,
        icns_elem_off(pngs, icns_entry_count()) <= 0xFFFF_FFFF,
    ensures
        ({
            let file = icns_bytes(pngs);
            &&& file.len() == icns_elem_off(pngs, icns_entry_count())
            &&& read_be32(file, 4) == file.len()
            &&& forall|i: int| 0 <= i < icns_entry_count() ==> {
                &&& #[trigger] file.subrange(icns_elem_off(pngs, i), icns_elem_off(pngs, i) + 4)
                    == icns_ostype_spec(i)
                &&& read_be32(file, icns_elem_off(pngs, i) + 4) == 8 + pngs[i].len()
                &&& file.subrange(
                    icns_elem_off(pngs, i) + 8,
                    icns_elem_off(pngs, i) + 8 + pngs[i].len() as int,
                ) == pngs[i]
            }
        }),
{
    let file = icns_bytes(pngs);
    let elems = icns_elems(pngs, icns_entry_count());
    lemma_icns_elems_len(pngs, icns_entry_count());
    lemma_icns_off_monotonic(pngs, 0, icns_entry_count());
    assert(file.subrange(4, 8) =~= be32(file.len() as int));
    lemma_be32_roundtrip(file, 4, file.len() as int);
    assert forall|i: int| 0 <= i < icns_entry_count() implies {
        &&& #[trigger] file.subrange(icns_elem_off(pngs, i), icns_elem_off(pngs, i) + 4)
            == icns_ostype_spec(i)
        &&& read_be32(file, icns_elem_off(pngs, i) + 4) == 8 + pngs[i].len()
        &&& file.subrange(
            icns_elem_off(pngs, i) + 8,
            icns_elem_off(pngs, i) + 8 + pngs[i].len() as int,
        ) == pngs[i]
    } by {
        lemma_icns_elem_at(pngs, i, icns_entry_count());
        lemma_icns_elems_len(pngs, i);
        lemma_icns_elems_len(pngs, i + 1);
        lemma_icns_off_monotonic(pngs, i + 1, icns_entry_count());
        let off = icns_elem_off(pngs, i);
        let roff = off - 8;
        assert(file.subrange(off, off + 4) =~= elems.subrange(roff, roff + 4));
        assert(file.subrange(off + 4, off + 8) =~= elems.subrange(roff + 4, roff + 8));
        assert(file.subrange(off + 8, off + 8 + pngs[i].len() as int)
            =~= elems.subrange(roff + 8, roff + 8 + pngs[i].len() as int));
        assert(elems.subrange(roff + 4, roff + 8) =~= be32(pngs[i].len() as int + 8));
        lemma_be32_roundtrip(file, off + 4, pngs[i].len() as int + 8);
    }
}

/// Encodes the source image as one `.icns` container: for each entry of the
/// size table, the source is resampled to the entry's size, PNG-encoded and
/// wrapped as an element tagged with the entry's type code. The run succeeds
/// exactly when every element fits the container's 32-bit length fields;
/// otherwise it fails with `IconError::Encode`.
pub fn encode_icns(source: &CanonicalImage) -> (r: Result<Vec<u8>, IconError>)
    requires
        source.wf(),
        4 * source.width * 1024 <= usize::MAX,
    ensures
        r is Ok <==> icns_fits(source.pixels@, source.width as int, source.height as int),
        r matches Ok(v) ==> v@ == icns_bytes(
            icns_pngs(source.pixels@, source.width as int, source.height as int),
        ),
        r matches Err(e) ==> e == IconError::Encode,
{
    let ghost p = source.pixels@;
    let ghost w = source.width as int;
    let ghost h = source.height as int;
    let table = icns_table();
    let mut elems: Vec<u8> = Vec::new();
    let mut k: usize = 0;
    while k < table.len()
        invariant
            k <= table@.len(),
            table@.len() == icns_entry_count(),
            forall|i: int| 0 <= i < table@.len() ==> {
                &&& #[trigger] table@[i].size as int == icns_size_spec(i)
                &&& ostype_seq(table@[i].ostype) == icns_ostype_spec(i)
            },
            source.wf(),
            4 * source.width * 1024 <= usize::MAX,
            p == source.pixels@,
            w == source.width as int,
            h == source.height as int,
            elems@ == icns_elems(icns_pngs(p, w, h), k as int),
            forall|i: int| 0 <= i < k ==> (#[trigger] icns_pngs(p, w, h)[i]).len() + 8
                <= 0xFFFF_FFFF,
        decreases table@.len() - k,
    {
        let entry_size = table[k].size;
        let ostype = table[k].ostype;
        proof {
            assert(4 * (source.width as int) * (entry_size as int)
                <= 4 * (source.width as int) * 1024) by (nonlinear_arith)
                requires entry_size <= 1024, source.width >= 0,
            ;
        }
        let layer = source.resize(entry_size);
        let png = match encode_png(&layer) {
            Ok(v) => v,
            Err(_) => {
                proof {
                    assert(false);
                }
                return Err(IconError::Encode);
            },
        };
        if (png.len() as u64) > 0xFFFF_FFFFu64 - 8 {
            proof {
                let pngs = icns_pngs(p, w, h);
                assert(png@ == pngs[k as int]);
                assert(!(pngs[k as int].len() + 8 <= 0xFFFF_FFFF));
            }
            return Err(IconError::Encode);
        }
        let elem_len: u32 = (png.len() as u32) + 8;
        elems.push(ostype.0);
        elems.push(ostype.1);
        elems.push(ostype.2);
        elems.push(ostype.3);
        push_be32(&mut elems, elem_len);
        push_bytes(&mut elems, &png);
        k = k + 1;
        proof {
            let pngs = icns_pngs(p, w, h);
            assert(png@ == pngs[k as int - 1]);
            assert(icns_elems(pngs, k as int)
                == icns_elems(pngs, k as int - 1) + icns_elem(k as int - 1, pngs[k as int - 1]));
            assert(elems@ =~= icns_elems(pngs, k as int));
        }
    }
    proof {
        lemma_icns_elems_len(icns_pngs(p, w, h), icns_entry_count());
    }
    if (elems.len() as u64) > 0xFFFF_FFFFu64 - 8 {
        return Err(IconError::Encode);
    }
    let total: u32 = (elems.len() as u32) + 8;
    let mut out: Vec<u8> = Vec::new();
    out.push(105);
    out.push(99);
    out.push(110);
    out.push(115);
    push_be32(&mut out, total);
    push_bytes(&mut out, &elems);
    proof {
        assert(out@ =~= icns_bytes(icns_pngs(p, w, h)));
    }
    Ok(out)
}

} // verus!
