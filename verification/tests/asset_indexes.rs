use minecraft_launcher_core::assets::{AssetEntry, AssetIndex, AssetObject};
use minecraft_launcher_core::checksum::Sha1Sum;

fn object(seed: &[u8], size: u64) -> AssetObject {
    AssetObject {
        hash: Sha1Sum::from_reader(seed),
        size,
        reconstruct: None,
        compressed_hash: None,
        compressed_size: None,
    }
}

fn entry(name: &str, seed: &[u8]) -> AssetEntry {
    AssetEntry { name: name.to_string(), object: object(seed, seed.len() as u64) }
}

fn index(entries: Vec<AssetEntry>) -> AssetIndex {
    AssetIndex { objects: entries, map_to_resources: false, is_virtual: false }
}

#[test]
fn object_paths_begin_with_two_digits_of_the_checksum() {
    let hash = Sha1Sum::from_reader(b"abc");
    assert_eq!(
        AssetObject::create_path_from_hash(&hash),
        "a9/a9993e364706816aba3e25717850c26c9cd0d89d"
    );
    assert_eq!(
        AssetObject::create_path_from_hash(&Sha1Sum::null()),
        "00/0000000000000000000000000000000000000000"
    );
}

#[test]
fn compressed_form_needs_checksum_and_size() {
    let mut asset = object(b"x", 1);
    assert!(!asset.has_compressed_alternative());
    asset.compressed_hash = Some(Sha1Sum::from_reader(b"y"));
    assert!(!asset.has_compressed_alternative());
    asset.compressed_size = Some(3);
    assert!(asset.has_compressed_alternative());
    asset.compressed_hash = None;
    assert!(!asset.has_compressed_alternative());
}

#[test]
fn file_map_lists_every_name() {
    let index = index(vec![entry("a.png", b"1"), entry("b.png", b"2"), entry("c.png", b"1")]);
    let map = index.get_file_map();
    assert_eq!(map.len(), 3);
    assert_eq!(map[0].0, "a.png");
    assert_eq!(map[2].0, "c.png");
    assert!(map[2].1.hash == Sha1Sum::from_reader(b"1"));
}

#[test]
fn two_names_of_one_checksum_are_one_object() {
    let index = index(vec![entry("icons/icon_16x16.png", b"same"), entry("icons/copy.png", b"same")]);
    let unique = index.get_unique_objects();
    assert_eq!(unique.len(), 1);
    assert_eq!(unique[0].1, "icons/icon_16x16.png");
    assert!(unique[0].0.hash == Sha1Sum::from_reader(b"same"));
}

#[test]
fn unique_objects_keep_the_first_name_and_the_order() {
    let index = index(vec![
        entry("a", b"1"),
        entry("b", b"2"),
        entry("c", b"1"),
        entry("d", b"3"),
        entry("e", b"2"),
    ]);
    let unique = index.get_unique_objects();
    let names: Vec<&str> = unique.iter().map(|(_, name)| name.as_str()).collect();
    assert_eq!(names, vec!["a", "b", "d"]);
    for (i, (left, _)) in unique.iter().enumerate() {
        for (right, _) in unique.iter().skip(i + 1) {
            assert!(left.hash != right.hash);
        }
    }
}

#[test]
fn an_empty_index_has_no_objects() {
    let index = index(vec![]);
    assert!(index.get_unique_objects().is_empty());
    assert!(index.get_file_map().is_empty());
}

#[test]
fn objects_that_differ_only_in_size_are_one_object() {
    let mut second = entry("b", b"1");
    second.object.size = 99;
    let index = index(vec![entry("a", b"1"), second]);
    assert_eq!(index.get_unique_objects().len(), 1);
}
