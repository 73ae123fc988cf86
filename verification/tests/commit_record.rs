use arq::commit::record::{
    commit_record, file_error, file_errors, parent_key, parse, CommitRecord, FileError, ParentKey,
};
use arq::commit::Commit;
use arq::constructs::Timestamp;
use arq::sha::SHA1;
use arq::{CompressionType, RepoError};

const TREE_SHA: &str = "0102030405060708090a0b0c0d0e0f1011121314";
const PARENT_SHA: &str = "a1a2a3a4a5a6a7a8a9aaabacadaeafb0b1b2b3b4";

fn string(out: &mut Vec<u8>, s: &str) {
    out.push(1);
    out.extend_from_slice(&(s.len() as u64).to_be_bytes());
    out.extend_from_slice(s.as_bytes());
}

fn a_commit(version: usize) -> Vec<u8> {
    let mut out = Vec::new();
    out.extend_from_slice(format!("CommitV{:03}", version).as_bytes());
    string(&mut out, "stefan");
    out.push(0); // comment
    out.extend_from_slice(&1u64.to_be_bytes());
    string(&mut out, PARENT_SHA);
    if version >= 4 {
        out.push(1);
    }
    string(&mut out, TREE_SHA);
    if version >= 4 {
        out.push(1);
    }
    if (8..=9).contains(&version) {
        out.push(1);
    }
    if version >= 10 {
        out.extend_from_slice(&2u32.to_be_bytes());
    }
    string(&mut out, "file://host/Users/stefan");
    if version <= 7 {
        out.push(0);
    }
    if (4..=7).contains(&version) {
        out.push(0);
    }
    out.push(1);
    out.extend_from_slice(&1_600_000_000_500u64.to_be_bytes());
    if version >= 3 {
        out.extend_from_slice(&1u64.to_be_bytes());
        string(&mut out, "/Users/stefan/locked");
        string(&mut out, "Permission denied");
    }
    if version >= 8 {
        out.push(0);
    }
    if version >= 9 {
        out.push(1);
    }
    if version >= 5 {
        out.extend_from_slice(&3u64.to_be_bytes());
        out.extend_from_slice(b"<p>");
    }
    if version >= 12 {
        string(&mut out, "5.9.1");
    }
    out
}

#[test]
fn test_parse_v9() {
    let blob = a_commit(9);
    let (_, c) = commit_record(&blob).expect("Parsing commit should succeed");
    assert_eq!(c.version, 9);
}

#[test]
fn commit_fields_are_decoded() {
    let blob = a_commit(9);
    let (rest, c) = commit_record(&blob).unwrap();
    assert!(rest.is_empty());
    assert_eq!(
        c,
        CommitRecord {
            version: 9,
            author: Some("stefan".to_string()),
            comment: None,
            parents: vec![ParentKey {
                id: SHA1::from_hex(PARENT_SHA.as_bytes()).unwrap(),
                expand_key: true
            }],
            tree_sha: SHA1::from_hex(TREE_SHA.as_bytes()).unwrap(),
            expand_key: true,
            compression_type: CompressionType::GZip,
            path: Some("file://host/Users/stefan".to_string()),
            timestamp: Timestamp { secs: 1_600_000_000, nanos: 500_000_000 },
            file_errors: vec![FileError {
                filename: "/Users/stefan/locked".to_string(),
                error: "Permission denied".to_string()
            }],
            missing_nodes: Some(false),
            is_complete: Some(true),
            plist: b"<p>".to_vec(),
            arq_version: None,
        }
    );
}

#[test]
fn commit_fields_follow_the_version() {
    for version in [1usize, 2, 3, 4, 5, 7, 8, 9, 10, 11, 12, 15] {
        let blob = a_commit(version);
        let (rest, c) = commit_record(&blob).unwrap();
        assert!(rest.is_empty(), "version {}", version);
        assert_eq!(c.version, version);
        assert_eq!(c.parents.len(), 1);
        assert_eq!(c.parents[0].expand_key, version >= 4);
        assert_eq!(c.expand_key, version >= 4);
        let expected = if version >= 10 {
            CompressionType::LZ4
        } else if version >= 8 {
            CompressionType::GZip
        } else {
            CompressionType::Uncompressed
        };
        assert_eq!(c.compression_type, expected);
        assert_eq!(c.file_errors.len(), if version >= 3 { 1 } else { 0 });
        assert_eq!(c.missing_nodes, if version >= 8 { Some(false) } else { None });
        assert_eq!(c.is_complete, if version >= 9 { Some(true) } else { None });
        assert_eq!(c.plist, if version >= 5 { b"<p>".to_vec() } else { Vec::new() });
        assert_eq!(c.arq_version, if version >= 12 { Some("5.9.1".to_string()) } else { None });
    }
}

#[test]
fn malformed_commits_are_malformed_data() {
    let blob = a_commit(12);
    assert!(parse(&blob).is_ok());
    for cut in [0usize, 5, 9, 10, 30, blob.len() - 1] {
        assert_eq!(parse(&blob[..cut]), Err(RepoError::MalformedData), "cut at {}", cut);
    }
    assert_eq!(parse(b"TreeV012"), Err(RepoError::MalformedData));
    // a commit without a timestamp
    let mut no_time = Vec::new();
    no_time.extend_from_slice(b"CommitV001");
    no_time.push(0);
    no_time.push(0);
    no_time.extend_from_slice(&0u64.to_be_bytes());
    string(&mut no_time, TREE_SHA);
    no_time.push(0);
    no_time.push(0);
    no_time.push(0);
    assert_eq!(parse(&no_time), Err(RepoError::MalformedData));
    // an unknown compression tag
    let mut tagged = a_commit(10);
    let at = tagged.windows(4).position(|w| w == 2u32.to_be_bytes()).unwrap();
    tagged[at + 3] = 9;
    assert_eq!(parse(&tagged), Err(RepoError::MalformedData));
}

#[test]
fn parents_and_file_errors() {
    let mut key = Vec::new();
    string(&mut key, PARENT_SHA);
    key.push(0);
    let (rest, p) = parent_key(4, &key).unwrap();
    assert!(rest.is_empty());
    assert!(!p.expand_key);
    let (rest, p) = parent_key(3, &key).unwrap();
    assert_eq!(rest, &[0]);
    assert!(!p.expand_key);
    assert_eq!(p.id.as_string(), PARENT_SHA);

    let mut e = Vec::new();
    string(&mut e, "a");
    string(&mut e, "b");
    assert_eq!(
        file_error(&e),
        Ok((&[][..], FileError { filename: "a".to_string(), error: "b".to_string() }))
    );
    let mut list = Vec::new();
    list.extend_from_slice(&2u64.to_be_bytes());
    list.extend_from_slice(&e);
    list.extend_from_slice(&e);
    assert_eq!(file_errors(&list).unwrap().1.len(), 2);
    let mut null_error = Vec::new();
    string(&mut null_error, "a");
    null_error.push(0);
    assert!(file_error(&null_error).is_err());
}

#[test]
fn commit_wraps_its_record() {
    let blob = a_commit(9);
    let commit = Commit::parse(&blob).unwrap();
    assert_eq!(commit.record.version, 9);
    assert_eq!(*commit.timestamp(), Timestamp { secs: 1_600_000_000, nanos: 500_000_000 });
    assert_eq!(Commit::parse(&blob[..20]).err(), Some(RepoError::MalformedData));
    let root = commit.root();
    assert_eq!(root.path, "");
    assert_eq!(root.compression_type, CompressionType::GZip);
    assert_eq!(root.keys.len(), 1);
    assert_eq!(root.keys[0].sha.as_string(), TREE_SHA);
    assert!(root.keys[0].stretch_key);
    assert_eq!(root.keys[0].storage_type, arq::tree::StorageType::S3);
    assert_eq!(root.keys[0].size, None);
    assert_eq!(root.keys[0].upload_date, None);
}
