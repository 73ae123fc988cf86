use arq::key::Key;
use arq::packset::index::{extract_pack_id, load, packed_index, packed_index_item, parse as parse_index, parse_blob};
use arq::packset::pack::{packed_object, parse_object};
use arq::packset::{PackIndex, PackedItem, Packset};
use arq::sha::SHA1;
use arq::storage::ObjectInfo;
use arq::RepoError;

const PACK_A: &str = "00112233445566778899aabbccddeeff00112233";
const PACK_B: &str = "ffeeddccbbaa99887766554433221100ffeeddcc";

fn sha_starting(first: u8) -> [u8; 20] {
    let mut sha = [0x5a; 20];
    sha[0] = first;
    sha[19] = first.wrapping_add(1);
    sha
}

/// An index file over objects whose hashes start with `firsts`, the k-th
/// of them at offset `16 + 1000 * k` with length `100 + k`.
fn an_index(firsts: &[u8]) -> Vec<u8> {
    let mut out = vec![0xff, 0x74, 0x4f, 0x63];
    out.extend_from_slice(&2u32.to_be_bytes());
    for b in 0..=255u8 {
        let count = firsts.iter().filter(|f| **f <= b).count() as u32;
        out.extend_from_slice(&count.to_be_bytes());
    }
    for (k, first) in firsts.iter().enumerate() {
        out.extend_from_slice(&(16 + 1000 * k as u64).to_be_bytes());
        out.extend_from_slice(&(100 + k as u64).to_be_bytes());
        out.extend_from_slice(&sha_starting(*first));
        out.extend_from_slice(&[0; 4]);
    }
    out
}

fn valid_index_blob() -> Vec<u8> {
    an_index(&[28, 66, 107, 143, 217])
}

#[test]
fn parse() {
    let blob = valid_index_blob();
    let r = parse_blob(&blob).unwrap();
    for e in r.entries.iter() {
        println!("{:?}", e);
    }
    assert_eq!(r.entries.len(), 5);
    assert!(r.counts[0..28].iter().all(|x| *x == 0));
    assert!(r.counts[28..66].iter().all(|x| *x == 1));
    assert!(r.counts[66..107].iter().all(|x| *x == 2));
    assert!(r.counts[107..143].iter().all(|x| *x == 3));
    assert!(r.counts[143..217].iter().all(|x| *x == 4));
    assert!(r.counts[217..255].iter().all(|x| *x == 5));
}

#[test]
fn index_entries_are_decoded() {
    let blob = valid_index_blob();
    let (rest, index) = packed_index(&blob).unwrap();
    assert!(rest.is_empty());
    assert_eq!(index.version, 2);
    assert_eq!(index.counts[255], 5);
    assert_eq!(index.entries[0].offset, 16);
    assert_eq!(index.entries[0].length, 100);
    assert_eq!(index.entries[0].sha.as_bytes(), &sha_starting(28));
    assert_eq!(index.entries[4].offset, 4016);
    assert_eq!(index.entries[4].length, 104);
    assert_eq!(index.entries[4].sha.as_bytes(), &sha_starting(217));
    let (rest, item) = packed_index_item(&blob[8 + 1024..8 + 1024 + 41]).unwrap();
    assert_eq!(rest.len(), 1);
    assert_eq!(item, index.entries[0]);
}

#[test]
fn the_last_count_is_the_number_of_entries() {
    for n in [0usize, 1, 3] {
        let firsts: Vec<u8> = (0..n as u8).collect();
        let index = parse_blob(&an_index(&firsts)).unwrap();
        assert_eq!(index.entries.len(), n);
        assert_eq!(index.counts[255] as usize, index.entries.len());
    }
}

#[test]
fn malformed_indexes_are_rejected() {
    let blob = valid_index_blob();
    assert!(parse_blob(&blob[..blob.len() - 1]).is_none());
    assert!(parse_blob(&blob[..1031]).is_none());
    assert!(parse_blob(&[]).is_none());
    let mut wrong = blob.clone();
    wrong[1] = 0x75;
    assert!(parse_blob(&wrong).is_none());
    // bytes behind the last entry are ignored
    let mut longer = blob.clone();
    longer.push(1);
    assert_eq!(parse_blob(&longer).unwrap().entries.len(), 5);
}

#[test]
fn pack_id_comes_from_the_file_name() {
    let key = Key::from(format!("computer/packsets/folder-trees/{}.index", PACK_A));
    assert_eq!(extract_pack_id(&key).unwrap().as_string(), PACK_A);
    let upper = Key::from(format!("p/{}.index", PACK_A.to_uppercase()));
    assert_eq!(extract_pack_id(&upper).unwrap().as_string(), PACK_A);
    assert!(extract_pack_id(&Key::from(format!("{}.index", PACK_A))).is_none());
    assert!(extract_pack_id(&Key::from(format!("p/{}", PACK_A))).is_none());
    assert!(extract_pack_id(&Key::from("p/0011.index")).is_none());
    assert!(extract_pack_id(&Key::from("p/nothex.index")).is_none());
    assert!(extract_pack_id(&Key::from("a.b/c")).is_none());
    assert!(extract_pack_id(&Key::from("")).is_none());
    assert!(extract_pack_id(&Key::from("p/.index")).is_none());
    let dotted = Key::from(format!("a.b/{}.index", PACK_A));
    assert_eq!(extract_pack_id(&dotted).unwrap().as_string(), PACK_A);
}

#[test]
fn index_file_with_its_key() {
    let key = Key::from(format!("p/{}.index", PACK_A));
    let (pack_id, index) = parse_index(&key, &valid_index_blob()).unwrap();
    assert_eq!(pack_id.as_string(), PACK_A);
    assert_eq!(index.entries.len(), 5);
    assert_eq!(parse_index(&Key::from("p/x.index"), &valid_index_blob()).err(), Some(RepoError::MalformedData));
    assert_eq!(parse_index(&key, &[1, 2, 3]).err(), Some(RepoError::MalformedData));
}

fn a_pack(objects: &[(Option<&str>, Option<&str>, Vec<u8>)]) -> Vec<u8> {
    let mut out = vec![0x50; 16];
    for (mime, name, content) in objects {
        for s in [mime, name] {
            match s {
                Some(s) => {
                    out.push(1);
                    out.extend_from_slice(&(s.len() as u64).to_be_bytes());
                    out.extend_from_slice(s.as_bytes());
                }
                None => out.push(0),
            }
        }
        out.extend_from_slice(&(content.len() as u64).to_be_bytes());
        out.extend_from_slice(content);
    }
    out
}

fn valid_pack_blob() -> Vec<u8> {
    let mut content = vec![0x11; 192];
    content[0] = 0x4F;
    content[191] = 0x2B;
    a_pack(&[(None, None, content), (Some("text/plain"), Some("x"), vec![1, 2, 3])])
}

#[test]
fn parse_packed_object() {
    let blob = valid_pack_blob();
    let (_, obj) = packed_object(&blob[16..]).expect("Parse to succeed");
    assert_eq!(obj.mime_type, None);
    assert_eq!(obj.name, None);
    assert_eq!(obj.content.len(), 192);
    assert_eq!(obj.content[0], 0x4F);
    assert_eq!(obj.content[191], 0x2B);
}

#[test]
fn packed_objects_follow_each_other() {
    let blob = valid_pack_blob();
    let (rest, _) = packed_object(&blob[16..]).unwrap();
    assert_eq!(rest.len(), blob.len() - 16 - 202);
    let second = parse_object(rest).unwrap();
    assert_eq!(second.mime_type, Some("text/plain".to_string()));
    assert_eq!(second.name, Some("x".to_string()));
    assert_eq!(second.content, vec![1, 2, 3]);
    assert_eq!(parse_object(&rest[..rest.len() - 1]).err(), Some(RepoError::MalformedData));
    assert_eq!(parse_object(&[]).err(), Some(RepoError::MalformedData));
    assert_eq!(parse_object(&[0, 0, 0, 0, 0, 0, 0, 0, 0, 0]).unwrap().content.len(), 0);
}

fn files() -> Vec<(Key, Vec<u8>)> {
    vec![
        (Key::from(format!("root/{}.index", PACK_A)), an_index(&[1, 2, 3])),
        (Key::from(format!("root/{}.index", PACK_B)), an_index(&[3, 4])),
    ]
}

#[test]
fn index_is_merged_and_the_last_file_wins() {
    let index = load(&files()).unwrap();
    let one = index.get(&SHA1::from_slice(&sha_starting(1)).unwrap()).unwrap();
    assert_eq!(one.pack_id.as_string(), PACK_A);
    assert_eq!(one.offset, 16);
    assert_eq!(one.length, 100);
    let three = index.get(&SHA1::from_slice(&sha_starting(3)).unwrap()).unwrap();
    assert_eq!(three.pack_id.as_string(), PACK_B);
    assert_eq!(three.offset, 16);
    assert_eq!(three.length, 100);
    let four = index.get(&SHA1::from_slice(&sha_starting(4)).unwrap()).unwrap();
    assert_eq!(four.pack_id.as_string(), PACK_B);
    assert_eq!(four.offset, 1016);
    assert!(index.get(&SHA1::from_slice(&sha_starting(5)).unwrap()).is_none());
    assert!(load(&Vec::new()).unwrap().get(&SHA1::from_slice(&sha_starting(1)).unwrap()).is_none());
}

#[test]
fn one_bad_index_file_fails_the_pack_set() {
    let mut bad = files();
    bad.push((Key::from("root/readme.index"), an_index(&[9])));
    assert_eq!(load(&bad).err(), Some(RepoError::MalformedData));
    let mut truncated = files();
    truncated[0].1.truncate(100);
    assert_eq!(load(&truncated).err(), Some(RepoError::MalformedData));
    assert_eq!(Packset::new(Key::from("root/"), &truncated).err(), Some(RepoError::MalformedData));
}

#[test]
fn pack_index_keeps_the_latest_entry() {
    let mut index = PackIndex::new();
    let sha = SHA1::from_slice(&[7; 20]).unwrap();
    assert!(index.get(&sha).is_none());
    let pack = SHA1::from_slice(&[1; 20]).unwrap();
    index.insert(sha, PackedItem { pack_id: pack, offset: 1, length: 2 });
    index.insert(SHA1::from_slice(&[8; 20]).unwrap(), PackedItem { pack_id: pack, offset: 5, length: 6 });
    index.insert(sha, PackedItem { pack_id: pack, offset: 3, length: 4 });
    assert_eq!(index.get(&sha), Some(PackedItem { pack_id: pack, offset: 3, length: 4 }));
    assert_eq!(
        index.get(&SHA1::from_slice(&[8; 20]).unwrap()),
        Some(PackedItem { pack_id: pack, offset: 5, length: 6 })
    );
}

#[test]
fn index_files_are_picked_from_the_listing() {
    let listing = vec![
        ObjectInfo { key: Key::from("root/a.index"), size: 1 },
        ObjectInfo { key: Key::from("root/a.pack"), size: 2 },
        ObjectInfo { key: Key::from("root/b.index"), size: 3 },
        ObjectInfo { key: Key::from("root/index"), size: 4 },
        ObjectInfo { key: Key::from(".index"), size: 5 },
        ObjectInfo { key: Key::from("root/c.index.tmp"), size: 6 },
    ];
    assert_eq!(
        Packset::index_keys(&listing),
        vec![Key::from("root/a.index"), Key::from("root/b.index"), Key::from(".index")]
    );
    assert_eq!(Packset::index_keys(&Vec::new()), Vec::<Key>::new());
}

/// A pack set over one pack file that holds three objects, with an index
/// that knows them and one object more that lies behind the end of the file.
fn a_packset() -> (Packset, Vec<u8>, Vec<[u8; 20]>) {
    let contents = vec![vec![0xaa; 10], vec![0xbb; 300], Vec::new()];
    let pack = a_pack(&[
        (None, None, contents[0].clone()),
        (Some("m"), None, contents[1].clone()),
        (None, Some("n"), contents[2].clone()),
    ]);
    let offsets = [16u64, 16 + 10 + 10, 16 + 20 + 11 + 8 + 300];
    let shas: Vec<[u8; 20]> = (1..=4u8).map(sha_starting).collect();
    let mut index = vec![0xff, 0x74, 0x4f, 0x63];
    index.extend_from_slice(&2u32.to_be_bytes());
    for b in 0..=255u8 {
        index.extend_from_slice(&(b.min(4) as u32).to_be_bytes());
    }
    for k in 0..4 {
        let (offset, length) = if k < 3 { (offsets[k], contents[k].len() as u64) } else { (1 << 40, 5) };
        index.extend_from_slice(&offset.to_be_bytes());
        index.extend_from_slice(&length.to_be_bytes());
        index.extend_from_slice(&shas[k]);
        index.extend_from_slice(&[0; 4]);
    }
    let files = vec![(Key::from(format!("root/{}.index", PACK_A)), index)];
    (Packset::new(Key::from("root"), &files).unwrap(), pack, shas)
}

#[test]
fn loaded_content_has_the_indexed_length() {
    let (packset, pack, shas) = a_packset();
    for k in 0..3 {
        let id = SHA1::from_slice(&shas[k]).unwrap();
        let loc = packset.locate(&id).unwrap();
        let object = packset.load(&id, &pack).unwrap();
        assert_eq!(object.content.len() as u64, loc.length);
    }
    let second = packset.load(&SHA1::from_slice(&shas[1]).unwrap(), &pack).unwrap();
    assert_eq!(second.mime_type, Some("m".to_string()));
    assert_eq!(second.content, vec![0xbb; 300]);
}

#[test]
fn unknown_and_misplaced_objects_are_malformed_data() {
    let (packset, pack, shas) = a_packset();
    let unknown = SHA1::from_slice(&[9; 20]).unwrap();
    assert_eq!(packset.locate(&unknown).err(), Some(RepoError::MalformedData));
    assert_eq!(packset.load(&unknown, &pack).err(), Some(RepoError::MalformedData));
    // the index places this object behind the end of the pack file
    let beyond = SHA1::from_slice(&shas[3]).unwrap();
    assert!(packset.locate(&beyond).is_ok());
    assert_eq!(packset.load(&beyond, &pack).err(), Some(RepoError::MalformedData));
    // a pack file that ends inside the object
    let first = SHA1::from_slice(&shas[0]).unwrap();
    assert_eq!(packset.load(&first, &pack[..30]).err(), Some(RepoError::MalformedData));
    assert_eq!(packset.load(&first, &pack[..16]).err(), Some(RepoError::MalformedData));
}

#[test]
fn pack_file_lies_under_the_root() {
    let (packset, _, shas) = a_packset();
    let loc = packset.locate(&SHA1::from_slice(&shas[0]).unwrap()).unwrap();
    assert_eq!(packset.pack_key(&loc), Key::from(format!("root/{}.pack", PACK_A)));
    let slashed = Packset::new(Key::from("root/"), &Vec::new()).unwrap();
    assert_eq!(slashed.pack_key(&loc), Key::from(format!("root/{}.pack", PACK_A)));
}
