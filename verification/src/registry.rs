//! The link registry: allocates unique identifiers, lays the two fields of a
//! link out in the store's flat key space with a one-byte tag suffix, writes
//! them as one atomic batch, and reads them back with validation.

use vstd::prelude::*;

verus! {

use crate::Id;
use crate::store::{db_view, random_id, store_get, try_claim, write_pair};
use crate::text::utf8_to_string;
use vstd::string::StringSliceAdditionalSpecFns;
use vstd::utf8::{decode_utf8, encode_utf8, valid_utf8};
use vstd::utf8::{encode_utf8_decode_utf8, encode_utf8_valid_utf8};

/// Why a registration failed.
#[derive(Debug)]
pub enum RegistryError {
    /// The underlying store failed. Fatal to the operation, never retried.
    Store(sled::Error),
    /// Every claim attempt hit an identifier that was already taken.
    IdSpaceExhausted,
}

/// Claim attempts one registration makes before giving up.
pub const CLAIM_ATTEMPTS: usize = 10;

/// The key holding the preview field: the identifier with tag byte 1.
pub open spec fn preview_key(id: Seq<u8>) -> Seq<u8> {
    id.push(1u8)
}

/// The key holding the video field: the identifier with tag byte 2.
pub open spec fn video_key(id: Seq<u8>) -> Seq<u8> {
    id.push(2u8)
}

/// A well-formed store: no identifier has one field without the other, and
/// never fields without its claim marker.
pub open spec fn store_wf(m: Map<Seq<u8>, Seq<u8>>) -> bool {
    forall|id: Seq<u8>|
        id.len() == 6 ==> {
            &&& (m.contains_key(#[trigger] preview_key(id)) <==> m.contains_key(video_key(id)))
            &&& (m.contains_key(preview_key(id)) ==> m.contains_key(id))
        }
}

/// What reading `id` yields: the two field values, both present and valid
/// UTF-8, or nothing at all.
pub open spec fn link_of(m: Map<Seq<u8>, Seq<u8>>, id: Seq<u8>) -> Option<(Seq<char>, Seq<char>)> {
    if m.contains_key(preview_key(id)) && valid_utf8(m[preview_key(id)]) && m.contains_key(
        video_key(id),
    ) && valid_utf8(m[video_key(id)]) {
        Some((decode_utf8(m[preview_key(id)]), decode_utf8(m[video_key(id)])))
    } else {
        None
    }
}

/// The store contents after a successful registration of `id`.
pub open spec fn registered(
    m: Map<Seq<u8>, Seq<u8>>,
    id: Seq<u8>,
    preview: Seq<char>,
    video: Seq<char>,
) -> Map<Seq<u8>, Seq<u8>> {
    m.insert(id, Seq::<u8>::empty()).insert(preview_key(id), encode_utf8(preview)).insert(
        video_key(id),
        encode_utf8(video),
    )
}

/// Field keys are injective in the identifier, distinct across tags, and
/// never collide with a bare 6-byte identifier key.
proof fn lemma_field_keys(id1: Seq<u8>, id2: Seq<u8>)
    requires
        id1.len() == 6,
        id2.len() == 6,
    ensures
        preview_key(id1).len() == 7,
        video_key(id1).len() == 7,
        (preview_key(id1) == preview_key(id2)) <==> (id1 == id2),
        (video_key(id1) == video_key(id2)) <==> (id1 == id2),
        preview_key(id1) != video_key(id2),
        preview_key(id1) != id2,
        video_key(id1) != id2,
{
    if preview_key(id1) == preview_key(id2) {
        assert(id1 =~= id2) by {
            assert(forall|i: int|
                0 <= i < 6 ==> id1[i] == preview_key(id1)[i] && id2[i] == preview_key(id2)[i]);
        }
    }
    if video_key(id1) == video_key(id2) {
        assert(id1 =~= id2) by {
            assert(forall|i: int|
                0 <= i < 6 ==> id1[i] == video_key(id1)[i] && id2[i] == video_key(id2)[i]);
        }
    }
    assert(preview_key(id1)[6] == 1u8 && video_key(id2)[6] == 2u8);
}

/// Adding a bare claim marker keeps the store well-formed and changes no
/// identifier's link: a claim alone makes nothing readable.
pub proof fn lemma_bare_claim(m: Map<Seq<u8>, Seq<u8>>, id: Seq<u8>)
    requires
        id.len() == 6,
    ensures
        store_wf(m) ==> store_wf(m.insert(id, Seq::<u8>::empty())),
        forall|i: Seq<u8>|
            i.len() == 6 ==> link_of(m.insert(id, Seq::<u8>::empty()), i) == #[trigger] link_of(
                m,
                i,
            ),
        store_wf(m) && !m.contains_key(id) ==> link_of(m.insert(id, Seq::<u8>::empty()), id)
            is None,
{
    let m1 = m.insert(id, Seq::<u8>::empty());
    assert forall|i: Seq<u8>| i.len() == 6 implies link_of(m1, i) == link_of(m, i) by {
        lemma_field_keys(i, id);
    }
    if store_wf(m) {
        assert forall|i: Seq<u8>| i.len() == 6 implies {
            &&& (m1.contains_key(#[trigger] preview_key(i)) <==> m1.contains_key(video_key(i)))
            &&& (m1.contains_key(preview_key(i)) ==> m1.contains_key(i))
        } by {
            lemma_field_keys(i, id);
        }
    }
}

/// Writing both fields of a claimed identifier in one batch keeps the store
/// well-formed, leaves every other identifier's link unchanged, and makes
/// exactly the written pair readable under `id`.
pub proof fn lemma_fields_update(m: Map<Seq<u8>, Seq<u8>>, id: Seq<u8>, pb: Seq<u8>, vb: Seq<u8>)
    requires
        id.len() == 6,
        m.contains_key(id),
    ensures
        store_wf(m) ==> store_wf(m.insert(preview_key(id), pb).insert(video_key(id), vb)),
        forall|i: Seq<u8>|
            i.len() == 6 && i != id ==> link_of(
                m.insert(preview_key(id), pb).insert(video_key(id), vb),
                i,
            ) == #[trigger] link_of(m, i),
        valid_utf8(pb) && valid_utf8(vb) ==> link_of(
            m.insert(preview_key(id), pb).insert(video_key(id), vb),
            id,
        ) == Some((decode_utf8(pb), decode_utf8(vb))),
{
    let m1 = m.insert(preview_key(id), pb).insert(video_key(id), vb);
    lemma_field_keys(id, id);
    assert forall|i: Seq<u8>| i.len() == 6 && i != id implies link_of(m1, i) == link_of(m, i) by {
        lemma_field_keys(i, id);
        lemma_field_keys(id, i);
    }
    if store_wf(m) {
        assert forall|i: Seq<u8>| i.len() == 6 implies {
            &&& (m1.contains_key(#[trigger] preview_key(i)) <==> m1.contains_key(video_key(i)))
            &&& (m1.contains_key(preview_key(i)) ==> m1.contains_key(i))
        } by {
            lemma_field_keys(i, id);
            lemma_field_keys(id, i);
        }
    }
}

/// Uniqueness: two successive successful registrations return distinct
/// identifiers, and afterwards each still resolves to its own pair.
pub proof fn lemma_registered_ids_distinct(
    m0: Map<Seq<u8>, Seq<u8>>,
    id1: Seq<u8>,
    pre1: Seq<char>,
    vid1: Seq<char>,
    id2: Seq<u8>,
    pre2: Seq<char>,
    vid2: Seq<char>,
)
    requires
        id1.len() == 6,
        id2.len() == 6,
        !registered(m0, id1, pre1, vid1).contains_key(id2),
    ensures
        id1 != id2,
        link_of(registered(registered(m0, id1, pre1, vid1), id2, pre2, vid2), id1) == Some(
            (pre1, vid1),
        ),
        link_of(registered(registered(m0, id1, pre1, vid1), id2, pre2, vid2), id2) == Some(
            (pre2, vid2),
        ),
{
    let m1 = registered(m0, id1, pre1, vid1);
    lemma_field_keys(id1, id2);
    lemma_field_keys(id2, id1);
    assert(m1.contains_key(id1));
    lemma_register_then_resolve(m0, id1, pre1, vid1);
    lemma_register_then_resolve(m1, id2, pre2, vid2);
    // the second registration touches only keys derived from id2
    lemma_bare_claim(m1, id2);
    lemma_fields_update(
        m1.insert(id2, Seq::<u8>::empty()),
        id2,
        encode_utf8(pre2),
        encode_utf8(vid2),
    );
}

/// After a successful registration, the identifier resolves to exactly the
/// pair that was registered, however often it is read.
pub proof fn lemma_register_then_resolve(
    m0: Map<Seq<u8>, Seq<u8>>,
    id: Seq<u8>,
    preview: Seq<char>,
    video: Seq<char>,
)
    requires
        id.len() == 6,
    ensures
        link_of(registered(m0, id, preview, video), id) == Some((preview, video)),
{
    lemma_field_keys(id, id);
    encode_utf8_valid_utf8(preview);
    encode_utf8_valid_utf8(video);
    encode_utf8_decode_utf8(preview);
    encode_utf8_decode_utf8(video);
}

/// Idempotent read: what a successful resolution returns is a function of
/// the store contents alone, so repeated reads of one identifier against an
/// unchanged store agree.
pub proof fn lemma_resolve_idempotent(
    m: Map<Seq<u8>, Seq<u8>>,
    id: Seq<u8>,
    r1: Option<(Seq<char>, Seq<char>)>,
    r2: Option<(Seq<char>, Seq<char>)>,
)
    requires
        r1 == link_of(m, id),
        r2 == link_of(m, id),
    ensures
        r1 == r2,
{
}

/// Build the field key for `id` with the given tag byte.
fn field_key(id: &Id, tag: u8) -> (r: Vec<u8>)
    ensures
        r@ == id@.push(tag),
{
    let mut k: Vec<u8> = Vec::new();
    k.push(id[0]);
    k.push(id[1]);
    k.push(id[2]);
    k.push(id[3]);
    k.push(id[4]);
    k.push(id[5]);
    k.push(tag);
    proof {
        assert(k@ =~= id@.push(tag));
    }
    k
}

/// Try the given candidate identifiers in order: claim the first one absent
/// from the store, then write both fields under it as one atomic batch.
/// Exhausting the list means every candidate was already taken, and then the
/// store is left exactly as it was.
pub fn register_ids(
    db: &mut sled::Db,
    candidates: &Vec<Id>,
    preview: &str,
    video: &str,
) -> (r: Result<Id, RegistryError>)
    ensures
        store_wf(db_view(*old(db))) && !(r matches Err(RegistryError::Store(_)))
            ==> store_wf(db_view(*final(db))),
        match r {
            Ok(id) => {
                &&& !db_view(*old(db)).contains_key(id@)
                &&& db_view(*final(db)) == registered(db_view(*old(db)), id@, preview@, video@)
                &&& link_of(db_view(*final(db)), id@) == Some((preview@, video@))
                &&& exists|j: int| 0 <= j < candidates@.len() && #[trigger] candidates@[j] == id
            },
            Err(RegistryError::IdSpaceExhausted) => {
                &&& db_view(*final(db)) == db_view(*old(db))
                &&& forall|j: int|
                    0 <= j < candidates@.len() ==> db_view(*old(db)).contains_key(
                        (#[trigger] candidates@[j])@,
                    )
            },
            Err(RegistryError::Store(_)) => true,
        },
{
    let ghost m0 = db_view(*db);
    let mut i: usize = 0;
    while i < candidates.len()
        invariant
            0 <= i <= candidates@.len(),
            db_view(*db) == m0,
            m0 == db_view(*old(db)),
            forall|j: int| 0 <= j < i ==> m0.contains_key((#[trigger] candidates@[j])@),
        decreases candidates@.len() - i,
    {
        let cand: Id = candidates[i];
        match try_claim(db, &cand) {
            Err(e) => {
                return Err(RegistryError::Store(e));
            },
            Ok(false) => {
                i = i + 1;
            },
            Ok(true) => {
                let k1 = field_key(&cand, 1);
                let k2 = field_key(&cand, 2);
                match write_pair(db, &k1, preview, &k2, video) {
                    Ok(_) => {
                        proof {
                            lemma_bare_claim(m0, cand@);
                            let m1 = m0.insert(cand@, Seq::<u8>::empty());
                            lemma_fields_update(m1, cand@, preview.spec_bytes(), video.spec_bytes());
                            encode_utf8_valid_utf8(preview@);
                            encode_utf8_valid_utf8(video@);
                            encode_utf8_decode_utf8(preview@);
                            encode_utf8_decode_utf8(video@);
                        }
                        return Ok(cand);
                    },
                    Err(e) => {
                        return Err(RegistryError::Store(e));
                    },
                }
            },
        }
    }
    Err(RegistryError::IdSpaceExhausted)
}

/// Register a link pair: draw `CLAIM_ATTEMPTS` random candidate identifiers,
/// claim the first one not yet in the store, and write both fields under it
/// as one atomic batch. Fails with `IdSpaceExhausted`, leaving the store
/// untouched, only when every one of those attempts hit a taken identifier.
pub fn register(db: &mut sled::Db, preview: &str, video: &str) -> (r: Result<Id, RegistryError>)
    ensures
        store_wf(db_view(*old(db))) && !(r matches Err(RegistryError::Store(_)))
            ==> store_wf(db_view(*final(db))),
        match r {
            Ok(id) => {
                &&& !db_view(*old(db)).contains_key(id@)
                &&& db_view(*final(db)) == registered(db_view(*old(db)), id@, preview@, video@)
                &&& link_of(db_view(*final(db)), id@) == Some((preview@, video@))
            },
            Err(RegistryError::IdSpaceExhausted) => db_view(*final(db)) == db_view(*old(db)),
            Err(RegistryError::Store(_)) => true,
        },
{
    let mut candidates: Vec<Id> = Vec::new();
    let mut i: usize = 0;
    while i < CLAIM_ATTEMPTS
        invariant
            i <= CLAIM_ATTEMPTS,
            candidates@.len() == i,
        decreases CLAIM_ATTEMPTS - i,
    {
        candidates.push(random_id());
        i = i + 1;
    }
    register_ids(db, &candidates, preview, video)
}

/// Look up both fields of an identifier. Returns the pair exactly when the
/// store holds a complete record of it with two valid UTF-8 values; an
/// absent or invalid field reads as "not found", never as an error.
pub fn resolve(db: &sled::Db, id: &Id) -> (r: Result<Option<(String, String)>, RegistryError>)
    ensures
        match r {
            Ok(Some((p, v))) => link_of(db_view(*db), id@) == Some((p@, v@)),
            Ok(None) => link_of(db_view(*db), id@) is None,
            Err(e) => e is Store,
        },
{
    let k1 = field_key(id, 1);
    let pv = match store_get(db, &k1) {
        Err(e) => {
            return Err(RegistryError::Store(e));
        },
        Ok(None) => {
            return Ok(None);
        },
        Ok(Some(bytes)) => match utf8_to_string(bytes) {
            None => {
                return Ok(None);
            },
            Some(s) => s,
        },
    };
    let k2 = field_key(id, 2);
    let vv = match store_get(db, &k2) {
        Err(e) => {
            return Err(RegistryError::Store(e));
        },
        Ok(None) => {
            return Ok(None);
        },
        Ok(Some(bytes)) => match utf8_to_string(bytes) {
            None => {
                return Ok(None);
            },
            Some(s) => s,
        },
    };
    Ok(Some((pv, vv)))
}

} // verus!
