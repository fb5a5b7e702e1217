//! The durable identifier store: an ordered key-value engine with atomic
//! batch writes, reached only through the narrow trusted interface below.
//! The store's contents are modeled as a map from key bytes to value bytes;
//! every contract of the registry is stated over that model.

use vstd::prelude::*;

verus! {

use crate::Id;
use vstd::string::StringSliceAdditionalSpecFns;

#[verifier::external_type_specification]
#[verifier::external_body]
pub struct ExDb(sled::Db);

#[verifier::external_type_specification]
#[verifier::external_body]
pub struct ExSledError(sled::Error);

/// The contents of the store behind a database handle: which keys are
/// present, and the value bytes each one holds.
pub uninterp spec fn db_view(db: sled::Db) -> Map<Seq<u8>, Seq<u8>>;

/// Relies on `sled::Tree::compare_and_swap` with no expected old value:
/// atomically inserts the key with an empty value only if the key is absent,
/// and reports whether it did. On an engine error nothing else is touched:
/// at most this one key was written.
#[verifier::external_body]
pub(crate) fn try_claim(db: &mut sled::Db, id: &Id) -> (r: Result<bool, sled::Error>)
    ensures
        match r {
            Ok(true) => !db_view(*old(db)).contains_key(id@) && db_view(*final(db)) == db_view(
                *old(db),
            ).insert(id@, seq![]),
            Ok(false) => db_view(*old(db)).contains_key(id@) && db_view(*final(db)) == db_view(
                *old(db),
            ),
            Err(_) => db_view(*final(db)) == db_view(*old(db)) || (!db_view(
                *old(db),
            ).contains_key(id@) && db_view(*final(db)) == db_view(*old(db)).insert(id@, seq![])),
        },
{
    match db.compare_and_swap(id, None as Option<&[u8]>, Some(&[] as &[u8])) {
        Ok(Ok(())) => Ok(true),
        Ok(Err(_)) => Ok(false),
        Err(e) => Err(e),
    }
}

/// Relies on `sled::Tree::apply_batch`: on success both inserts have been
/// applied as one atomic batch. An engine error is fatal; nothing is promised
/// of the store behind it then.
#[verifier::external_body]
pub(crate) fn write_pair(
    db: &mut sled::Db,
    k1: &Vec<u8>,
    v1: &str,
    k2: &Vec<u8>,
    v2: &str,
) -> (r: Result<(), sled::Error>)
    ensures
        r is Ok ==> db_view(*final(db)) == db_view(*old(db)).insert(k1@, v1.spec_bytes()).insert(
            k2@,
            v2.spec_bytes(),
        ),
{
    let mut batch = sled::Batch::default();
    batch.insert(k1.as_slice(), v1);
    batch.insert(k2.as_slice(), v2);
    db.apply_batch(batch)
}

/// Relies on `sled::Tree::get`: a point lookup returning the value bytes
/// held under the key, or `None` when the key is absent.
#[verifier::external_body]
pub(crate) fn store_get(db: &sled::Db, key: &Vec<u8>) -> (r: Result<Option<Vec<u8>>, sled::Error>)
    ensures
        match r {
            Ok(Some(v)) => db_view(*db).contains_key(key@) && v@ == db_view(*db)[key@],
            Ok(None) => !db_view(*db).contains_key(key@),
            Err(_) => true,
        },
{
    match db.get(key) {
        Ok(Some(v)) => Ok(Some(v.to_vec())),
        Ok(None) => Ok(None),
        Err(e) => Err(e),
    }
}

/// Relies on `rand::random`: draws an arbitrary 6-byte candidate identifier.
/// Nothing is promised of the value.
#[verifier::external_body]
pub(crate) fn random_id() -> Id {
    rand::random()
}

} // verus!
