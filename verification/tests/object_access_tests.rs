use std::sync::Arc;
use zfs_object_agent::listing::{ListPage, ListedObject};
use zfs_object_agent::object_access::{
    assemble_body, parse_credentials, prefix_from_setting, prefixed, GetStep, ObjectAccess,
};
use zfs_object_agent::object_cache::ObjectCache;

fn access() -> ObjectAccess {
    ObjectAccess::new("bucket", "test/")
}

#[test]
fn prefix_comes_from_the_setting() {
    assert_eq!(prefix_from_setting(Some("alice")), "alice/");
    assert_eq!(prefix_from_setting(Some("")), "/");
    assert_eq!(prefix_from_setting(None), "");
}

#[test]
fn prefixed_puts_the_prefix_in_front() {
    assert_eq!(prefixed("alice/", "zfs/1/data"), "alice/zfs/1/data");
    assert_eq!(prefixed("", "zfs/1/data"), "zfs/1/data");
    assert_eq!(prefixed("p/", ""), "p/");
    assert_eq!(access().prefixed("k"), "test/k");
}

#[test]
fn new_keeps_bucket_and_prefix() {
    let access = ObjectAccess::new("b1", "");
    assert_eq!(access.bucket_name(), "b1");
    assert_eq!(access.prefixed("k"), "k");
}

#[test]
fn credentials_are_split_at_the_colon_and_trimmed() {
    let parsed = parse_credentials("  AKIAEXAMPLE : s3cr3t/+key \n").unwrap();
    assert_eq!(parsed.access_key_id, "AKIAEXAMPLE");
    assert_eq!(parsed.secret_access_key, "s3cr3t/+key");
}

#[test]
fn credentials_ignore_further_fields() {
    let parsed = parse_credentials("id:secret:token:more").unwrap();
    assert_eq!(parsed.access_key_id, "id");
    assert_eq!(parsed.secret_access_key, "secret");
}

#[test]
fn credentials_may_have_empty_fields() {
    let parsed = parse_credentials(":").unwrap();
    assert_eq!(parsed.access_key_id, "");
    assert_eq!(parsed.secret_access_key, "");
    let parsed = parse_credentials("id:").unwrap();
    assert_eq!(parsed.access_key_id, "id");
    assert_eq!(parsed.secret_access_key, "");
    let parsed = parse_credentials("\u{e9}t\u{e9} : \u{fc}ber").unwrap();
    assert_eq!(parsed.access_key_id, "\u{e9}t\u{e9}");
    assert_eq!(parsed.secret_access_key, "\u{fc}ber");
}

#[test]
fn credentials_without_a_colon_are_refused() {
    assert!(parse_credentials("no separator here").is_none());
    assert!(parse_credentials("").is_none());
}

#[test]
fn get_object_asks_the_first_caller_to_fetch() {
    let access = access();
    let mut cache = ObjectCache::new(100);
    match access.get_object(&mut cache, "obj") {
        GetStep::Fetch(request) => {
            assert_eq!(request.bucket, "bucket");
            assert_eq!(request.key, "test/obj");
        }
        other => panic!("expected a fetch, got {:?}", other),
    }
    assert!(matches!(access.get_object(&mut cache, "obj"), GetStep::Wait));
    let chunks = vec![b"hello ".to_vec(), Vec::new(), b"world".to_vec()];
    let buffer = access.finish_get_object(&mut cache, "obj", Some(11), &chunks);
    assert_eq!(*buffer, b"hello world".to_vec());
    match access.get_object(&mut cache, "obj") {
        GetStep::Hit(found) => assert!(Arc::ptr_eq(&found, &buffer)),
        other => panic!("expected a hit, got {:?}", other),
    }
}

#[test]
fn cache_keys_are_not_prefixed() {
    let mut cache = ObjectCache::new(100);
    let one = ObjectAccess::new("bucket-one", "one/");
    let two = ObjectAccess::new("bucket-two", "two/");
    assert!(matches!(one.get_object(&mut cache, "k"), GetStep::Fetch(_)));
    one.finish_get_object(&mut cache, "k", None, &vec![b"1".to_vec()]);
    match two.get_object(&mut cache, "k") {
        GetStep::Hit(found) => assert_eq!(*found, b"1".to_vec()),
        other => panic!("expected a hit, got {:?}", other),
    }
}

#[test]
fn put_object_refreshes_the_cache_and_always_builds_the_request() {
    let access = access();
    let mut cache = ObjectCache::new(100);
    let request = access.put_object(&mut cache, "cold", &b"abc".to_vec());
    assert_eq!(request.bucket, "bucket");
    assert_eq!(request.key, "test/cold");
    assert_eq!(request.content_length, 3);
    assert!(matches!(access.get_object(&mut cache, "cold"), GetStep::Fetch(_)));

    access.finish_get_object(&mut cache, "warm", None, &vec![b"old".to_vec()]);
    let request = access.put_object(&mut cache, "warm", &b"newer".to_vec());
    assert_eq!(request.key, "test/warm");
    assert_eq!(request.content_length, 5);
    match access.get_object(&mut cache, "warm") {
        GetStep::Hit(found) => assert_eq!(*found, b"newer".to_vec()),
        other => panic!("expected a hit, got {:?}", other),
    }
}

#[test]
fn list_objects_builds_a_page_request() {
    let access = access();
    let first = access.list_objects("zfs/", &Some("/".to_string()), &None);
    assert_eq!(first.bucket, "bucket");
    assert_eq!(first.prefix, Some("test/zfs/".to_string()));
    assert_eq!(first.delimiter, Some("/".to_string()));
    assert_eq!(first.continuation_token, None);
    assert_eq!(first.fetch_owner, Some(false));
    let second = access.list_objects("zfs/", &None, &Some("token".to_string()));
    assert_eq!(second.continuation_token, Some("token".to_string()));
    assert_eq!(second.delimiter, None);
    assert_eq!(second.prefix, Some("test/zfs/".to_string()));
}

#[test]
fn delete_objects_prefixes_every_key() {
    let access = access();
    let request = access.delete_objects(&vec!["a".to_string(), "b/c".to_string(), "".to_string()]);
    assert_eq!(request.bucket, "bucket");
    assert_eq!(request.keys, vec!["test/a".to_string(), "test/b/c".to_string(), "test/".to_string()]);
    assert_eq!(request.quiet, Some(true));
}

#[test]
fn delete_object_is_a_batch_of_one() {
    let request = access().delete_object("only");
    assert_eq!(request.keys, vec!["test/only".to_string()]);
    assert_eq!(request.quiet, Some(true));
    assert_eq!(request.bucket, "bucket");
}

#[test]
fn object_exists_wants_the_exact_key() {
    let results = vec![ListPage {
        contents: Some(vec![
            ListedObject { key: Some("x/y".to_string()) },
            ListedObject { key: Some("x/yz".to_string()) },
        ]),
        common_prefixes: None,
        next_continuation_token: None,
    }];
    let access = ObjectAccess::new("bucket", "");
    assert!(access.object_exists(&results, "x/y"));
    assert!(!access.object_exists(&results, "x/y/"));
    assert!(!access.object_exists(&results, "x/z"));
    assert!(!access.object_exists(&results, "x"));
}

#[test]
fn object_exists_looks_for_the_prefixed_key() {
    let results = vec![ListPage {
        contents: Some(vec![
            ListedObject { key: Some("test/x/y".to_string()) },
            ListedObject { key: Some("test/x/yz".to_string()) },
        ]),
        common_prefixes: None,
        next_continuation_token: None,
    }];
    let access = access();
    assert!(access.object_exists(&results, "x/y"));
    assert!(access.object_exists(&results, "x/yz"));
    assert!(!access.object_exists(&results, "x/y/"));
    assert!(!access.object_exists(&results, "x"));
    assert!(!access.object_exists(&results, "test/x/y"));
}

#[test]
fn object_exists_does_not_take_a_bare_name_for_a_prefixed_one() {
    let results = vec![ListPage {
        contents: Some(vec![ListedObject { key: Some("x/y".to_string()) }]),
        common_prefixes: None,
        next_continuation_token: None,
    }];
    assert!(!access().object_exists(&results, "x/y"));
    assert!(ObjectAccess::new("bucket", "").object_exists(&results, "x/y"));
}

#[test]
fn missing_object_ends_the_read_and_the_next_caller_fetches() {
    let access = access();
    let mut cache = ObjectCache::new(100);
    assert!(matches!(access.get_object(&mut cache, "gone"), GetStep::Fetch(_)));
    assert!(matches!(access.get_object(&mut cache, "gone"), GetStep::Wait));
    access.abandon_get_object(&mut cache, "gone");
    match access.get_object(&mut cache, "gone") {
        GetStep::Fetch(request) => assert_eq!(request.key, "test/gone"),
        other => panic!("expected a fetch, got {:?}", other),
    }
}

#[test]
fn credentials_of_whitespace_only_are_empty() {
    let parsed = parse_credentials(" \t : \n ").unwrap();
    assert_eq!(parsed.access_key_id, "");
    assert_eq!(parsed.secret_access_key, "");
    let parsed = parse_credentials("a b : c\u{a0}").unwrap();
    assert_eq!(parsed.access_key_id, "a b");
    assert_eq!(parsed.secret_access_key, "c");
}

#[test]
fn object_exists_is_false_on_an_empty_listing() {
    let results = vec![ListPage { contents: None, common_prefixes: None, next_continuation_token: None }];
    assert!(!access().object_exists(&results, "x/y"));
}

#[test]
fn assemble_body_joins_the_chunks_in_order() {
    assert_eq!(assemble_body(None, &Vec::new()), Vec::<u8>::new());
    assert_eq!(assemble_body(Some(0), &vec![Vec::new()]), Vec::<u8>::new());
    let chunks = vec![vec![1u8, 2], vec![3u8], vec![], vec![4u8, 5, 6]];
    assert_eq!(assemble_body(Some(6), &chunks), vec![1u8, 2, 3, 4, 5, 6]);
}

#[test]
fn assemble_body_does_not_trust_the_announced_length() {
    let chunks = vec![vec![9u8, 8], vec![7u8]];
    assert_eq!(assemble_body(Some(-1), &chunks), vec![9u8, 8, 7]);
    assert_eq!(assemble_body(Some(i64::MAX), &chunks), vec![9u8, 8, 7]);
    assert_eq!(assemble_body(Some(1), &chunks), vec![9u8, 8, 7]);
}
