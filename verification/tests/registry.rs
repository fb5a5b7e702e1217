use gifp4::codec::{decode, encode};
use gifp4::registry::{register, register_ids, resolve, RegistryError};
use gifp4::Id;

fn fresh_store() -> sled::Db {
    sled::Config::new()
        .temporary(true)
        .open()
        .expect("temporary store")
}

#[test]
fn register_then_resolve_concrete_pair() {
    let mut db = fresh_store();
    let id = register(&mut db, "111/a.gif", "111/a.mp4").expect("registration");
    let token = encode(&id);
    assert_eq!(token.chars().count(), 8);
    assert_eq!(decode(&token), Some(id));
    let pair = resolve(&db, &id).expect("store read");
    assert_eq!(
        pair,
        Some(("111/a.gif".to_string(), "111/a.mp4".to_string()))
    );
}

#[test]
fn resolve_on_empty_store_is_not_found() {
    let db = fresh_store();
    let id = decode("AAAAAAAA").unwrap();
    assert_eq!(resolve(&db, &id).expect("store read"), None);
}

#[test]
fn registered_identifiers_are_pairwise_distinct() {
    let mut db = fresh_store();
    let mut ids: Vec<Id> = Vec::new();
    for i in 0..20 {
        let preview = format!("{}/p.gif", i);
        let video = format!("{}/v.mp4", i);
        let id = register(&mut db, &preview, &video).expect("registration");
        ids.push(id);
    }
    for a in 0..ids.len() {
        for b in 0..a {
            assert_ne!(ids[a], ids[b]);
        }
    }
    for (i, id) in ids.iter().enumerate() {
        let pair = resolve(&db, id).expect("store read").expect("registered");
        assert_eq!(pair, (format!("{}/p.gif", i), format!("{}/v.mp4", i)));
    }
}

#[test]
fn repeated_reads_return_the_same_pair() {
    let mut db = fresh_store();
    let id = register(&mut db, "42/x.gif", "42/y.mp4").expect("registration");
    let first = resolve(&db, &id).expect("store read");
    let second = resolve(&db, &id).expect("store read");
    let third = resolve(&db, &id).expect("store read");
    assert_eq!(first, second);
    assert_eq!(second, third);
    assert_eq!(first, Some(("42/x.gif".to_string(), "42/y.mp4".to_string())));
}

#[test]
fn exhausted_candidates_fail_without_writing() {
    let mut db = fresh_store();
    let taken = register(&mut db, "7/a.gif", "7/b.mp4").expect("registration");
    let candidates: Vec<Id> = vec![taken; 10];
    let outcome = register_ids(&mut db, &candidates, "9/new.gif", "9/new.mp4");
    assert!(matches!(outcome, Err(RegistryError::IdSpaceExhausted)));
    // the failed registration wrote nothing: the taken identifier still
    // resolves to the pair it was registered with
    let pair = resolve(&db, &taken).expect("store read");
    assert_eq!(pair, Some(("7/a.gif".to_string(), "7/b.mp4".to_string())));
}

#[test]
fn empty_values_round_trip() {
    let mut db = fresh_store();
    let id = register(&mut db, "", "").expect("registration");
    let pair = resolve(&db, &id).expect("store read");
    assert_eq!(pair, Some((String::new(), String::new())));
}

#[test]
fn multibyte_values_round_trip() {
    let mut db = fresh_store();
    let id = register(&mut db, "p\u{e4}th/\u{e4}.gif", "\u{8def}\u{5f84}/v.mp4").expect("registration");
    let pair = resolve(&db, &id).expect("store read");
    assert_eq!(
        pair,
        Some((
            "p\u{e4}th/\u{e4}.gif".to_string(),
            "\u{8def}\u{5f84}/v.mp4".to_string()
        ))
    );
}

#[test]
fn invalid_stored_bytes_read_as_absent() {
    let mut db = fresh_store();
    let id = register(&mut db, "1/ok.gif", "1/ok.mp4").expect("registration");
    // corrupt the preview field behind the registry's back
    let mut preview_key = id.to_vec();
    preview_key.push(1);
    db.insert(preview_key, &[0xff, 0xfe, 0xfd][..]).unwrap();
    assert_eq!(resolve(&db, &id).expect("store read"), None);
}

#[test]
fn partial_record_reads_as_absent() {
    let mut db = fresh_store();
    let id: Id = [9, 9, 9, 9, 9, 9];
    // a claim marker with only one field present is not a link
    db.insert(&id, &[][..]).unwrap();
    let mut video_key = id.to_vec();
    video_key.push(2);
    db.insert(video_key, "lonely/v.mp4").unwrap();
    assert_eq!(resolve(&db, &id).expect("store read"), None);
}
