use arq::commit::{
    blob_of, checked_components, components, fragment_of, join_fragments, load_blob,
    load_blob_fragment, parse_pattern, select, Child, Commit, FileEntry, TreeWalker,
};
use arq::constructs::Timestamp;
use arq::crypto::{CryptoError, CryptoKey, ObjectDecrypter, ObjectDecrypterV1};
use arq::key::Key;
use arq::packset::Packset;
use arq::sha::SHA1;
use arq::tree::{BlobKey, Node, StorageType, Tree};
use arq::{CompressionType, RepoError};
use std::io::Write;

fn a_key(first: u8) -> BlobKey {
    BlobKey {
        sha: SHA1::from_slice(&[first; 20]).unwrap(),
        stretch_key: true,
        storage_type: StorageType::S3,
        size: None,
        upload_date: None,
    }
}

fn a_node(name: &str, is_tree: bool, size: u64, keys: Vec<BlobKey>) -> Node {
    let zero = Timestamp { secs: 0, nanos: 0 };
    Node {
        name: name.to_string(),
        is_tree,
        has_missing_items: None,
        data_compression_type: if is_tree { CompressionType::GZip } else { CompressionType::Uncompressed },
        data_blob_keys: keys,
        data_size: size,
        xattrs_compression_type: CompressionType::Uncompressed,
        xattrs_blob_key: None,
        xattrs_size: 0,
        acl_compression_type: CompressionType::Uncompressed,
        acl_blob_key: None,
        user_id: 0,
        group_id: 0,
        file_mode: 0,
        flags: 0,
        finder_flags: 0,
        mod_time: zero,
        c_time: zero,
        create_time: zero,
        file_type: None,
        creator: None,
        hide_extension: false,
        st_dev: 0,
        st_ino: 0,
        st_nlink: 0,
        st_rdev: 0,
        st_blocks: 0,
        st_block_size: 0,
    }
}

fn a_tree(nodes: Vec<Node>) -> Tree {
    let zero = Timestamp { secs: 0, nanos: 0 };
    Tree {
        version: 18,
        xattrs_compression_type: CompressionType::Uncompressed,
        acl_compression_type: CompressionType::Uncompressed,
        xattrs_blob_key: None,
        xattrs_blob_size: 0,
        acl_blob_key: None,
        user_id: 0,
        group_id: 0,
        file_mode: 0,
        mod_time: zero,
        flags: 0,
        finder_flags: 0,
        st_dev: 0,
        st_ino: 0,
        st_nlink: 0,
        st_rdev: 0,
        c_time: zero,
        st_blocks: 0,
        st_block_size: 0,
        size_on_disk: 0,
        creation_time: zero,
        missing_nodes: Vec::new(),
        nodes,
    }
}

fn a_commit() -> Commit {
    let mut blob = Vec::new();
    blob.extend_from_slice(b"CommitV009");
    blob.push(0);
    blob.push(0);
    blob.extend_from_slice(&0u64.to_be_bytes());
    blob.push(1);
    blob.extend_from_slice(&40u64.to_be_bytes());
    blob.extend_from_slice(b"0101010101010101010101010101010101010101");
    blob.push(1); // expand key
    blob.push(1); // compressed
    blob.push(0); // path
    blob.push(1);
    blob.extend_from_slice(&1000u64.to_be_bytes());
    blob.extend_from_slice(&0u64.to_be_bytes());
    blob.push(0);
    blob.push(1);
    blob.extend_from_slice(&0u64.to_be_bytes());
    Commit::parse(&blob).unwrap()
}

fn walker(pattern: &str) -> TreeWalker {
    a_commit().list_files(pattern).unwrap()
}

fn entries(list: Vec<FileEntry>) -> Vec<(String, u64)> {
    list.into_iter().map(|e| (e.path, e.size)).collect()
}

fn root_tree() -> Tree {
    a_tree(vec![
        a_node("a.txt", false, 1, vec![a_key(1)]),
        a_node("docs", true, 0, vec![a_key(2), a_key(3)]),
        a_node("b.jpg", false, 2, vec![]),
        a_node("src", true, 0, vec![a_key(4)]),
        a_node("c.txt", false, 3, vec![]),
    ])
}

#[test]
fn walk_starts_at_the_root() {
    let mut w = walker("**/*");
    let root = w.next().unwrap();
    assert_eq!(root, a_commit().root());
    assert_eq!(root.path, "");
    assert_eq!(root.keys, vec![a_key(1)]);
    assert_eq!(root.compression_type, CompressionType::GZip);
    assert_eq!(w.next(), None);
    assert_eq!(w.next(), None);
}

#[test]
fn files_come_in_the_order_of_the_record() {
    let mut w = walker("**/*");
    let root = w.next().unwrap();
    let files = w.visit(&root, &root_tree());
    assert_eq!(
        entries(files),
        vec![("a.txt".to_string(), 1), ("b.jpg".to_string(), 2), ("c.txt".to_string(), 3)]
    );
}

#[test]
fn directories_are_visited_last_found_first() {
    let mut w = walker("**/*");
    let root = w.next().unwrap();
    w.visit(&root, &root_tree());
    let src = w.next().unwrap();
    assert_eq!(
        src,
        Child { keys: vec![a_key(4)], path: "src".to_string(), compression_type: CompressionType::GZip }
    );
    let inner = a_tree(vec![
        a_node("lib", true, 0, vec![a_key(5)]),
        a_node("main.rs", false, 10, vec![]),
    ]);
    assert_eq!(entries(w.visit(&src, &inner)), vec![("src/main.rs".to_string(), 10)]);
    let lib = w.next().unwrap();
    assert_eq!(lib.path, "src/lib");
    assert_eq!(lib.keys, vec![a_key(5)]);
    assert_eq!(entries(w.visit(&lib, &a_tree(Vec::new()))), Vec::new());
    let docs = w.next().unwrap();
    assert_eq!(docs.path, "docs");
    assert_eq!(docs.keys, vec![a_key(2), a_key(3)]);
    assert_eq!(w.next(), None);
}

#[test]
fn pattern_filters_the_files() {
    let mut w = walker("*.txt");
    let root = w.next().unwrap();
    assert_eq!(
        entries(w.visit(&root, &root_tree())),
        vec![("a.txt".to_string(), 1), ("c.txt".to_string(), 3)]
    );
    // the directories are queued whatever the pattern says
    assert_eq!(w.next().unwrap().path, "src");
    assert_eq!(w.next().unwrap().path, "docs");

    // a wildcard stays within one component, `**` does not
    let mut w = walker("*.rs");
    let root = w.next().unwrap();
    w.visit(&root, &root_tree());
    let src = w.next().unwrap();
    let inner = a_tree(vec![a_node("main.rs", false, 10, vec![])]);
    assert_eq!(entries(w.visit(&src, &inner)), Vec::new());
    let mut w = walker("**/*.rs");
    let root = w.next().unwrap();
    w.visit(&root, &root_tree());
    let src = w.next().unwrap();
    assert_eq!(entries(w.visit(&src, &inner)), vec![("src/main.rs".to_string(), 10)]);

    let mut w = walker("docs/*.md");
    let root = w.next().unwrap();
    assert_eq!(entries(w.visit(&root, &root_tree())), Vec::new());
    w.next();
    let docs = w.next().unwrap();
    let inner = a_tree(vec![
        a_node("readme.md", false, 4, vec![]),
        a_node("logo.png", false, 5, vec![]),
    ]);
    assert_eq!(entries(w.visit(&docs, &inner)), vec![("docs/readme.md".to_string(), 4)]);
}

#[test]
fn pattern_has_to_compile() {
    assert_eq!(a_commit().list_files("a**b").err(), Some(RepoError::InputError));
    assert_eq!(a_commit().list_files("docs/[").err(), Some(RepoError::InputError));
    assert_eq!(parse_pattern("a/***/b"), Err(RepoError::InputError));
    assert_eq!(
        parse_pattern("**/*.txt"),
        Ok(vec!["**".to_string(), "*.txt".to_string()])
    );
    assert_eq!(parse_pattern(""), Ok(Vec::new()));
    assert!(a_commit().list_files("").is_ok());
}

#[test]
fn pattern_is_taken_apart_at_the_separators() {
    let parts = |s: &str| components(s);
    assert_eq!(parts("a/b/c"), vec!["a", "b", "c"]);
    assert_eq!(parts("a/b/"), vec!["a", "b"]);
    assert_eq!(parts("a//b"), vec!["a", "", "b"]);
    assert_eq!(parts("/a"), vec!["", "a"]);
    assert_eq!(parts("/"), vec![""]);
    assert_eq!(parts("//"), vec!["", ""]);
    assert_eq!(parts("abc"), vec!["abc"]);
    assert_eq!(parts(""), Vec::<String>::new());
    assert_eq!(parts("\u{e9}t\u{e9}/\u{fc}"), vec!["\u{e9}t\u{e9}", "\u{fc}"]);
}

#[test]
fn components_that_did_not_compile() {
    let parts = vec!["a".to_string(), "b".to_string()];
    assert_eq!(checked_components(parts.clone(), &vec![true, true]), Ok(parts.clone()));
    assert_eq!(checked_components(parts.clone(), &vec![true, false]), Err(RepoError::InputError));
    assert_eq!(checked_components(parts.clone(), &vec![false, true]), Err(RepoError::InputError));
    assert_eq!(checked_components(Vec::new(), &Vec::new()), Ok(Vec::new()));
    assert_eq!(checked_components(parts.clone(), &vec![true]), Err(RepoError::InputError));
    assert_eq!(checked_components(parts.clone(), &vec![true; 3]), Err(RepoError::InputError));
}

#[test]
fn marked_entries_are_selected() {
    let list: Vec<FileEntry> =
        (0..4u64).map(|k| FileEntry { path: format!("f{}", k), size: k }).collect();
    assert_eq!(
        entries(select(&list, &vec![true, false, false, true])),
        vec![("f0".to_string(), 0), ("f3".to_string(), 3)]
    );
    assert_eq!(select(&list, &vec![false; 4]), Vec::new());
    assert_eq!(select(&list, &vec![true; 4]), list);
    assert_eq!(select(&Vec::new(), &Vec::new()), Vec::new());
    assert_eq!(select(&list, &vec![true; 3]), Vec::new());
    assert_eq!(select(&list, &vec![true; 5]), Vec::new());
}

fn gzipped(data: &[u8]) -> Vec<u8> {
    let mut encoder = flate2::write::GzEncoder::new(Vec::new(), flate2::Compression::default());
    encoder.write_all(data).unwrap();
    encoder.finish().unwrap()
}

#[test]
fn fragments_are_decompressed_where_the_blob_is() {
    assert_eq!(fragment_of(Ok(b"plain".to_vec()), CompressionType::Uncompressed), Ok(b"plain".to_vec()));
    assert_eq!(fragment_of(Ok(gzipped(b"plain")), CompressionType::GZip), Ok(b"plain".to_vec()));
    assert_eq!(fragment_of(Ok(b"plain".to_vec()), CompressionType::GZip), Err(RepoError::MalformedData));
    assert_eq!(fragment_of(Ok(gzipped(b"plain")), CompressionType::LZ4), Err(RepoError::MalformedData));
    assert_eq!(
        fragment_of(Err(CryptoError::BadKey), CompressionType::Uncompressed),
        Err(RepoError::CryptoError)
    );
    assert_eq!(fragment_of(Err(CryptoError::Unexpected), CompressionType::GZip), Err(RepoError::CryptoError));
}

#[test]
fn blob_is_its_fragments_or_the_first_failure() {
    assert_eq!(blob_of(&vec![Ok(vec![1, 2]), Ok(Vec::new()), Ok(vec![3])]), Ok(vec![1, 2, 3]));
    assert_eq!(blob_of(&Vec::new()), Ok(Vec::new()));
    assert_eq!(
        blob_of(&vec![Ok(vec![1]), Err(RepoError::CryptoError), Err(RepoError::MalformedData)]),
        Err(RepoError::CryptoError)
    );
    assert_eq!(
        blob_of(&vec![Err(RepoError::MalformedData), Ok(vec![1]), Err(RepoError::CryptoError)]),
        Err(RepoError::MalformedData)
    );
}

#[test]
fn fragments_are_put_together_in_order() {
    assert_eq!(join_fragments(&vec![vec![1, 2], Vec::new(), vec![3], vec![4, 5, 6]]), vec![1, 2, 3, 4, 5, 6]);
    assert_eq!(join_fragments(&Vec::new()), Vec::<u8>::new());
    assert_eq!(join_fragments(&vec![Vec::new()]), Vec::<u8>::new());
}

struct Reverse;

impl ObjectDecrypter for Reverse {
    fn decrypt_object(&self, object_bytes: &[u8]) -> Result<Vec<u8>, CryptoError> {
        if object_bytes.is_empty() {
            return Err(CryptoError::BadKey);
        }
        Ok(object_bytes.iter().rev().cloned().collect())
    }
}

/// A pack set over one pack file with an object for every content.
fn a_packset(contents: &[Vec<u8>]) -> (Packset, Vec<u8>, Vec<BlobKey>) {
    let mut pack = vec![0u8; 16];
    let mut index = vec![0xff, 0x74, 0x4f, 0x63];
    index.extend_from_slice(&2u32.to_be_bytes());
    for _ in 0..256 {
        index.extend_from_slice(&(contents.len() as u32).to_be_bytes());
    }
    let mut keys = Vec::new();
    for (k, content) in contents.iter().enumerate() {
        index.extend_from_slice(&(pack.len() as u64).to_be_bytes());
        index.extend_from_slice(&(content.len() as u64).to_be_bytes());
        index.extend_from_slice(&[k as u8 + 1; 20]);
        index.extend_from_slice(&[0; 4]);
        pack.push(0);
        pack.push(0);
        pack.extend_from_slice(&(content.len() as u64).to_be_bytes());
        pack.extend_from_slice(content);
        keys.push(a_key(k as u8 + 1));
    }
    let files = vec![(Key::from("p/00112233445566778899aabbccddeeff00112233.index"), index)];
    (Packset::new(Key::from("p"), &files).unwrap(), pack, keys)
}

#[test]
fn blob_is_loaded_fragment_by_fragment() {
    let (packset, pack, keys) = a_packset(&[b"cba".to_vec(), b"fed".to_vec(), b"g".to_vec()]);
    let packs = vec![pack.clone(), pack.clone(), pack.clone()];
    assert_eq!(
        load_blob(&packset, &keys, &packs, &Reverse, CompressionType::Uncompressed),
        Ok(b"abcdefg".to_vec())
    );
    assert_eq!(
        load_blob(&packset, &vec![keys[2], keys[0]], &packs[..2].to_vec(), &Reverse, CompressionType::Uncompressed),
        Ok(b"gabc".to_vec())
    );
    assert_eq!(
        load_blob(&packset, &Vec::new(), &Vec::new(), &Reverse, CompressionType::GZip),
        Ok(Vec::new())
    );
    assert_eq!(
        load_blob_fragment(&packset, &keys[1], &pack, &Reverse, CompressionType::Uncompressed),
        Ok(b"def".to_vec())
    );
}

#[test]
fn one_bad_fragment_fails_the_blob() {
    let (packset, pack, keys) = a_packset(&[b"cba".to_vec(), Vec::new(), b"g".to_vec()]);
    let packs = vec![pack.clone(), pack.clone(), pack.clone()];
    // the second fragment cannot be decrypted
    assert_eq!(
        load_blob(&packset, &keys, &packs, &Reverse, CompressionType::Uncompressed),
        Err(RepoError::CryptoError)
    );
    // a key that the index does not know
    assert_eq!(
        load_blob(&packset, &vec![keys[0], a_key(9)], &packs[..2].to_vec(), &Reverse, CompressionType::Uncompressed),
        Err(RepoError::MalformedData)
    );
    // a pack file that is cut short
    assert_eq!(
        load_blob(&packset, &vec![keys[2]], &vec![pack[..pack.len() - 1].to_vec()], &Reverse, CompressionType::Uncompressed),
        Err(RepoError::MalformedData)
    );
    // a pack file is lacking
    assert_eq!(
        load_blob(&packset, &vec![keys[0], keys[2]], &vec![pack.clone()], &Reverse, CompressionType::Uncompressed),
        Err(RepoError::MalformedData)
    );
    // fragments that are no gzip
    assert_eq!(
        load_blob(&packset, &vec![keys[0]], &vec![pack.clone()], &Reverse, CompressionType::GZip),
        Err(RepoError::MalformedData)
    );
}

#[test]
fn commit_is_loaded_decrypted_and_decoded() {
    let key = CryptoKey::new("secret", b"12345678").unwrap();
    let record = {
        let mut blob = Vec::new();
        blob.extend_from_slice(b"CommitV001");
        blob.push(0);
        blob.push(0);
        blob.extend_from_slice(&0u64.to_be_bytes());
        blob.push(1);
        blob.extend_from_slice(&40u64.to_be_bytes());
        blob.extend_from_slice(b"0101010101010101010101010101010101010101");
        blob.push(0);
        blob.push(0);
        blob.push(1);
        blob.extend_from_slice(&5000u64.to_be_bytes());
        blob
    };
    let (packset, pack, keys) = a_packset(&[key.encrypt(&record).unwrap(), b"not encrypted".to_vec(), key.encrypt(b"no commit").unwrap()]);
    let info = arq::folder::FolderInfo {
        id: arq::Uuid::from_bytes([1; 16]),
        name: "n".to_string(),
        local_path: "/p".to_string(),
    };
    let folder = arq::folder::Folder {
        info,
        packset,
        decrypter: ObjectDecrypterV1::new(key),
        computer_id: "c".to_string(),
    };
    let commit = folder.get_commit(&keys[0].sha, &pack).unwrap();
    assert_eq!(commit.record.version, 1);
    assert_eq!(commit.record.timestamp, Timestamp { secs: 5, nanos: 0 });
    assert_eq!(folder.get_commit(&keys[1].sha, &pack).err(), Some(RepoError::CryptoError));
    assert_eq!(folder.get_commit(&keys[2].sha, &pack).err(), Some(RepoError::MalformedData));
    assert_eq!(folder.get_commit(&a_key(9).sha, &pack).err(), Some(RepoError::MalformedData));
    assert_eq!(folder.get_commit(&keys[0].sha, &pack[..20]).err(), Some(RepoError::MalformedData));
}
