use icon_gen::icns::{encode_icns, icns_table};
use icon_gen::ico::encode_ico;
use icon_gen::img::CanonicalImage;

fn checker_image(edge: u32) -> CanonicalImage {
    let mut pixels = Vec::new();
    for y in 0..edge {
        for x in 0..edge {
            let on = (x + y) % 2 == 0;
            pixels.push(if on { 255 } else { 10 });
            pixels.push(if on { 128 } else { 200 });
            pixels.push(if on { 0 } else { 255 });
            pixels.push(if on { 255 } else { 60 });
        }
    }
    CanonicalImage { width: edge, height: edge, pixels }
}

fn read_le32(bytes: &[u8], pos: usize) -> u32 {
    bytes[pos] as u32
        + 256 * bytes[pos + 1] as u32
        + 65536 * bytes[pos + 2] as u32
        + 16777216 * bytes[pos + 3] as u32
}

fn read_be32(bytes: &[u8], pos: usize) -> u32 {
    16777216 * bytes[pos] as u32
        + 65536 * bytes[pos + 1] as u32
        + 256 * bytes[pos + 2] as u32
        + bytes[pos + 3] as u32
}

#[test]
fn ico_stores_only_the_256_layer_compressed() {
    let source = checker_image(8);
    let ico = encode_ico(&source).expect("encoding succeeds");

    // ICONDIR: reserved 0, type 1, six entries.
    assert_eq!(&ico[0..2], &[0, 0]);
    assert_eq!(&ico[2..4], &[1, 0]);
    assert_eq!(&ico[4..6], &[6, 0]);

    let stored_sizes: [u32; 6] = [32, 16, 24, 48, 64, 256];
    for (i, &size) in stored_sizes.iter().enumerate() {
        let entry = 6 + 16 * i;
        let width_byte = if size == 256 { 0 } else { size as u8 };
        assert_eq!(ico[entry], width_byte);
        assert_eq!(ico[entry + 1], width_byte);
        let len = read_le32(&ico, entry + 8) as usize;
        let off = read_le32(&ico, entry + 12) as usize;
        let frame = &ico[off..off + len];
        if size == 256 {
            // The 256 layer is a compressed (PNG) frame.
            assert_eq!(&frame[0..8], &[0x89, b'P', b'N', b'G', 0x0D, 0x0A, 0x1A, 0x0A]);
            assert_eq!(off + len, ico.len());
        } else {
            // Every other layer is an uncompressed bitmap frame: a 40-byte
            // header, doubled height, and compression field 0.
            assert_eq!(read_le32(frame, 0), 40);
            assert_eq!(read_le32(frame, 4), size);
            assert_eq!(read_le32(frame, 8), 2 * size);
            assert_eq!(read_le32(frame, 16), 0);
        }
    }
}

#[test]
fn ico_bitmap_frame_holds_bgra_rows_bottom_up() {
    // A 16-wide source whose resize to 16 is the identity: the frame's pixel
    // bytes must be the source rows reversed, each pixel turned BGRA.
    let source = checker_image(16);
    let ico = encode_ico(&source).expect("encoding succeeds");
    let entry = 6 + 16; // the 16-pixel layer is stored second
    let len = read_le32(&ico, entry + 8) as usize;
    let off = read_le32(&ico, entry + 12) as usize;
    let frame = &ico[off..off + len];
    let px = &frame[40..40 + 4 * 16 * 16];
    for y in 0..16usize {
        for x in 0..16usize {
            let src = 4 * ((15 - y) * 16 + x);
            let dst = 4 * (y * 16 + x);
            assert_eq!(px[dst], source.pixels[src + 2]);
            assert_eq!(px[dst + 1], source.pixels[src + 1]);
            assert_eq!(px[dst + 2], source.pixels[src]);
            assert_eq!(px[dst + 3], source.pixels[src + 3]);
        }
    }
}

#[test]
fn icns_holds_one_element_per_table_entry() {
    let source = checker_image(8);
    let icns = encode_icns(&source).expect("encoding succeeds");
    assert_eq!(&icns[0..4], b"icns");
    assert_eq!(read_be32(&icns, 4) as usize, icns.len());

    let table = icns_table();
    assert_eq!(table.len(), 10);
    let mut off = 8usize;
    for entry in &table {
        let (a, b, c, d) = entry.ostype;
        assert_eq!(&icns[off..off + 4], &[a, b, c, d]);
        let elem_len = read_be32(&icns, off + 4) as usize;
        assert!(elem_len >= 8);
        // The element's data is one PNG stream.
        assert_eq!(
            &icns[off + 8..off + 16],
            &[0x89, b'P', b'N', b'G', 0x0D, 0x0A, 0x1A, 0x0A]
        );
        off += elem_len;
    }
    // The last element ends exactly at the end of the file: no extra
    // elements, none missing.
    assert_eq!(off, icns.len());
}

#[test]
fn icns_table_lists_the_ten_standard_resolutions() {
    let table = icns_table();
    let expected: [(&str, u32, &[u8; 4]); 10] = [
        ("icon_16x16", 16, b"icp4"),
        ("icon_16x16@2x", 32, b"ic11"),
        ("icon_32x32", 32, b"icp5"),
        ("icon_32x32@2x", 64, b"ic12"),
        ("icon_128x128", 128, b"ic07"),
        ("icon_128x128@2x", 256, b"ic13"),
        ("icon_256x256", 256, b"ic08"),
        ("icon_256x256@2x", 512, b"ic14"),
        ("icon_512x512", 512, b"ic09"),
        ("icon_512x512@2x", 1024, b"ic10"),
    ];
    for (entry, (name, size, ostype)) in table.iter().zip(expected.iter()) {
        assert_eq!(entry.name, *name);
        assert_eq!(entry.size, *size);
        let (a, b, c, d) = entry.ostype;
        assert_eq!(&[a, b, c, d], *ostype);
    }
}
