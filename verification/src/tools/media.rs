//! The tools for images.
use vstd::prelude::*;

use crate::media::{base64_decoded, decode_base64, is_allowed_mime, is_image_type, media_file_name};
use crate::media::{named_file, sha256_digest, ALLOWED_IMAGE_MIME_TYPES};
use crate::store::knowledge::{known, with_source};
use crate::store::media::{attached, inherited, next_media_id, trust_of};
use crate::store::{Store, StoreModel};
use crate::table::{as_count, count_of, some_match};
use crate::text::{decimal, number, opt_str};
use crate::tools::{answer, full, full_text, log, note, stepped};
use crate::types::{KnowledgeItemWithSource, MediaRowModel};

verus! {

/// An image that is to be written to a file.
#[derive(Debug)]
pub struct Image {
    pub file_name: String,
    pub bytes: Vec<u8>,
}

/// Why an image is refused, given what Base64 reads of its data: its type is not
/// accepted, the item that it goes with is not known, or its data cannot be read.
pub open spec fn image_refusal(
    s: StoreModel,
    mime: Seq<char>,
    knowledge_id: Option<i64>,
    data: Result<Seq<u8>, Seq<char>>,
) -> Option<Seq<char>> {
    if !is_image_type(mime) {
        Some("unsupported mime_type '"@ + mime + "': only image types are accepted in this stage ("@ + ALLOWED_IMAGE_MIME_TYPES@ + ")"@)
    } else if knowledge_id matches Some(k) && with_source(s, k) is None {
        Some("knowledge item #"@ + decimal(knowledge_id->0 as int) + " not found"@)
    } else {
        match data {
            Ok(_) => None,
            Err(e) => Some("invalid base64 data: "@ + e),
        }
    }
}

/// Reads an image that is handed in. Refused where its type is not accepted, where the
/// item that it goes with is not known, and where its data cannot be read.
pub fn read_image(store: &Store, data_base64: &str, mime_type: &str, knowledge_id: Option<i64>) -> (r: Result<
    Image,
    String,
>)
    ensures
        match image_refusal(store@, mime_type@, knowledge_id, base64_decoded(data_base64@)) {
            Some(why) => r matches Err(e) && e@ == why,
            None => r matches Ok(i) && base64_decoded(data_base64@) == Ok::<Seq<u8>, Seq<char>>(
                i.bytes@,
            ) && i.file_name@ == named_file(sha256_digest(i.bytes@), mime_type@),
        },
{
    if !is_allowed_mime(mime_type) {
        let mut t: String = "unsupported mime_type '".to_owned();
        t.append(mime_type);
        t.append("': only image types are accepted in this stage (");
        t.append(ALLOWED_IMAGE_MIME_TYPES);
        t.append(")");
        return Err(t);
    }
    if let Some(k) = knowledge_id {
        let item: Option<KnowledgeItemWithSource> = store.get_knowledge_by_id(k);
        if item.is_none() {
            let mut t: String = "knowledge item #".to_owned();
            t.append(number(k as i128).as_str());
            t.append(" not found");
            return Err(t);
        }
    }
    match decode_base64(data_base64) {
        Ok(bytes) => Ok(Image { file_name: media_file_name(mime_type, &bytes), bytes }),
        Err(e) => {
            let mut t: String = "invalid base64 data: ".to_owned();
            t.append(e.as_str());
            Err(t)
        },
    }
}

/// What is said of an image that was stored.
pub open spec fn image_status(knowledge_id: Option<i64>) -> Seq<char> {
    if knowledge_id is Some {
        "attached, trust inherited from knowledge item"@
    } else {
        "standalone, unpromoted"@
    }
}

/// Stores an image whose file was written.
pub fn store_image(
    store: &mut Store,
    run_id: &str,
    storage_ref: &str,
    mime_type: &str,
    size: usize,
    caption: Option<&str>,
    knowledge_id: Option<i64>,
    domain: Option<&str>,
    now: i64,
) -> (r: Result<String, String>)
    ensures
        ({
            let id = next_media_id(old(store)@);
            let status = image_status(knowledge_id);
            if id > i64::MAX {
                &&& final(store)@ == old(store)@
                &&& answer(r) == Err::<Seq<char>, Seq<char>>(full())
            } else {
                &&& final(store)@ == stepped(
                    (StoreModel {
                        media: old(store)@.media.push(
                            MediaRowModel {
                                media_id: id as i64,
                                storage_ref: storage_ref@,
                                mime_type: mime_type@,
                                size_bytes: count_of(size as int),
                                caption: opt_str(caption),
                                knowledge_id,
                                domain: opt_str(domain),
                                trust: inherited(old(store)@, knowledge_id),
                                created_at: now,
                            },
                        ),
                        ..old(store)@
                    }),
                    note(
                        run_id@,
                        "ingest_media"@,
                        "ingest_media mime_type="@ + mime_type@ + " bytes="@ + decimal(size as int),
                        "stored media #"@ + decimal(id) + " ("@ + status + ")"@,
                        "success"@,
                        opt_str(domain),
                    ),
                    now,
                )
                &&& answer(r) == Ok::<Seq<char>, Seq<char>>(
                    "Stored media #"@ + decimal(id) + " ("@ + decimal(size as int) + " bytes, "@ + mime_type@ + ") at "@ + storage_ref@ + " — "@ + status + "."@,
                )
            }
        }),
{
    let stored: Option<i64> = store.insert_media(
        storage_ref,
        mime_type,
        as_count(size),
        caption,
        knowledge_id,
        domain,
        now,
    );
    let id: i64 = match stored {
        Some(n) => n,
        None => {
            return Err(full_text());
        },
    };
    let status: &str = if knowledge_id.is_some() {
        "attached, trust inherited from knowledge item"
    } else {
        "standalone, unpromoted"
    };
    let mut action: String = "ingest_media mime_type=".to_owned();
    action.append(mime_type);
    action.append(" bytes=");
    action.append(number(size as i128).as_str());
    let mut observation: String = "stored media #".to_owned();
    observation.append(number(id as i128).as_str());
    observation.append(" (");
    observation.append(status);
    observation.append(")");
    log(
        store,
        run_id,
        "ingest_media",
        action.as_str(),
        observation.as_str(),
        "success",
        domain,
        now,
    );
    let mut t: String = "Stored media #".to_owned();
    t.append(number(id as i128).as_str());
    t.append(" (");
    t.append(number(size as i128).as_str());
    t.append(" bytes, ");
    t.append(mime_type);
    t.append(") at ");
    t.append(storage_ref);
    t.append(" — ");
    t.append(status);
    t.append(".");
    Ok(t)
}

/// Attaches an image to an item, whose trust it takes on. Refused where either is not
/// known.
pub fn attach_media(store: &mut Store, media_id: i64, knowledge_id: i64) -> (r: Result<String, String>)
    ensures
        ({
            let there = some_match(
                old(store)@.media,
                |m: MediaRowModel| m.media_id == media_id,
            );
            match trust_of(old(store)@, knowledge_id) {
                None => {
                    &&& final(store)@ == old(store)@
                    &&& answer(r) == Err::<Seq<char>, Seq<char>>(
                        "knowledge item #"@ + decimal(knowledge_id as int) + " not found"@,
                    )
                },
                Some(t) => {
                    &&& final(store)@ == (StoreModel {
                        media: old(store)@.media.map_values(
                            |m: MediaRowModel| attached(m, media_id, knowledge_id, t),
                        ),
                        ..old(store)@
                    })
                    &&& answer(r) == (if there {
                        Ok::<Seq<char>, Seq<char>>(
                            "Attached media #"@ + decimal(media_id as int) + " to knowledge #"@ + decimal(knowledge_id as int) + " (trust inherited)."@,
                        )
                    } else {
                        Err::<Seq<char>, Seq<char>>(
                            "media #"@ + decimal(media_id as int) + " not found"@,
                        )
                    })
                },
            }
        }),
{
    let item: Option<KnowledgeItemWithSource> = store.get_knowledge_by_id(knowledge_id);
    proof {
        lemma_known(store@, knowledge_id);
    }
    if item.is_none() {
        let mut t: String = "knowledge item #".to_owned();
        t.append(number(knowledge_id as i128).as_str());
        t.append(" not found");
        return Err(t);
    }
    if !store.attach_media(media_id, knowledge_id) {
        let mut t: String = "media #".to_owned();
        t.append(number(media_id as i128).as_str());
        t.append(" not found");
        return Err(t);
    }
    let mut t: String = "Attached media #".to_owned();
    t.append(number(media_id as i128).as_str());
    t.append(" to knowledge #");
    t.append(number(knowledge_id as i128).as_str());
    t.append(" (trust inherited).");
    Ok(t)
}

proof fn lemma_known(s: StoreModel, id: i64)
    ensures
        (with_source(s, id) is Some) == (trust_of(s, id) is Some),
        known(s, id) == (trust_of(s, id) is Some),
{
    crate::table::lemma_first_match(
        s.knowledge,
        |k: crate::store::KnowledgeItemModel| k.id == id,
    );
}

} // verus!
