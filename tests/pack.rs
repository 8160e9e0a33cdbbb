use std::io::Read;
use zip_resize::pack::{get_file_count, get_options, Storage, TreeEntry};

fn node(path: &str, is_dir: bool, data: &[u8]) -> TreeEntry {
    TreeEntry { path: path.to_string(), is_dir, data: data.to_vec() }
}

#[test]
fn images_stored_others_deflated() {
    assert_eq!(get_options("a/p1.jpg"), Storage::Stored);
    assert_eq!(get_options("a/p1.JPEG"), Storage::Stored);
    assert_eq!(get_options("p2.Png"), Storage::Stored);
    assert_eq!(get_options("x/p3.webp"), Storage::Stored);
    assert_eq!(get_options("info.txt"), Storage::Deflated);
    assert_eq!(get_options("jpg"), Storage::Deflated);
    assert_eq!(get_options(".png"), Storage::Deflated);
    assert_eq!(get_options("png.d/readme"), Storage::Deflated);
    assert_eq!(get_options("a.jpgx"), Storage::Deflated);
}

#[test]
fn repack_round_trip_keeps_paths() {
    let tree = vec![
        node("ch1", true, b""),
        node("ch1/p1.png", false, b"\x89PNG fake"),
        node("ch1/notes.txt", false, b"hello hello hello hello"),
        node("empty", true, b""),
        node("cover.webp", false, b"RIFF...."),
    ];
    let bytes = match zip_resize::pack::zip(&tree) {
        Ok(b) => b,
        Err(_) => panic!("packing failed"),
    };
    match get_file_count(&bytes) {
        Ok(n) => assert_eq!(n, 5),
        Err(_) => panic!("count failed"),
    }
    let mut archive = zip::ZipArchive::new(std::io::Cursor::new(bytes)).unwrap();
    let mut names = Vec::new();
    for i in 0..archive.len() {
        let mut f = archive.by_index(i).unwrap();
        names.push((f.name().to_string(), f.is_dir(), f.compression()));
        let mut data = Vec::new();
        f.read_to_end(&mut data).unwrap();
        assert_eq!(data, tree[i].data);
    }
    assert_eq!(
        names,
        vec![
            ("ch1/".to_string(), true, zip::CompressionMethod::Stored),
            ("ch1/p1.png".to_string(), false, zip::CompressionMethod::Stored),
            ("ch1/notes.txt".to_string(), false, zip::CompressionMethod::Deflated),
            ("empty/".to_string(), true, zip::CompressionMethod::Stored),
            ("cover.webp".to_string(), false, zip::CompressionMethod::Stored),
        ]
    );
}

#[test]
fn empty_tree_packs_to_empty_container() {
    let bytes = match zip_resize::pack::zip(&Vec::new()) {
        Ok(b) => b,
        Err(_) => panic!("packing failed"),
    };
    match get_file_count(&bytes) {
        Ok(n) => assert_eq!(n, 0),
        Err(_) => panic!("count failed"),
    }
}

#[test]
fn count_refuses_non_archive() {
    assert!(get_file_count(b"plain text, no zip here").is_err());
}

#[test]
fn repack_is_deterministic() {
    let tree = vec![node("d", true, b""), node("d/a.jpg", false, b"xyz"), node("b.txt", false, b"abcabc")];
    let one = match zip_resize::pack::zip(&tree) {
        Ok(b) => b,
        Err(_) => panic!("packing failed"),
    };
    let two = match zip_resize::pack::zip(&tree) {
        Ok(b) => b,
        Err(_) => panic!("packing failed"),
    };
    assert_eq!(one, two);
}
