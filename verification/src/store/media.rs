//! Media attachments: images that back up knowledge items.
use vstd::prelude::*;

use crate::store::knowledge::known;
use crate::store::{KnowledgeItemModel, Store, StoreModel, fresh_id, next_id};
use crate::table::{any, find_row, first_match, list, listed, map_at, rewrite, some_match, top};
use crate::text::{is_text, opt_str, own};
use crate::types::{lemma_models_push, models, trust_name, MediaRow, MediaRowModel, Trust};

verus! {

/// The number that the next media row gets.
pub open spec fn next_media_id(s: StoreModel) -> int {
    fresh_id(s.media, |m: MediaRowModel| m.media_id)
}

/// The trust tier of the item `id`.
pub open spec fn trust_of(s: StoreModel, id: i64) -> Option<Trust> {
    match first_match(s.knowledge, |r: KnowledgeItemModel| r.id == id) {
        Some(k) => Some(k.trust),
        None => None,
    }
}

/// The name of the tier that media takes over from the item `id`.
pub open spec fn inherited(s: StoreModel, id: Option<i64>) -> Option<Seq<char>> {
    match id {
        Some(n) => match trust_of(s, n) {
            Some(t) => Some(trust_name(t)),
            None => None,
        },
        None => None,
    }
}

/// A media row after it was attached to an item of a tier.
pub open spec fn attached(
    m: MediaRowModel,
    media_id: i64,
    knowledge_id: i64,
    trust: Trust,
) -> MediaRowModel {
    if m.media_id == media_id {
        MediaRowModel {
            knowledge_id: Some(knowledge_id),
            trust: Some(trust_name(trust)),
            ..m
        }
    } else {
        m
    }
}

/// Whether a media row has the domain and the item that are asked for.
pub open spec fn is_media_of(
    m: MediaRowModel,
    domain: Option<Seq<char>>,
    knowledge_id: Option<i64>,
) -> bool {
    (domain is None || m.domain == domain) && (knowledge_id is None || m.knowledge_id
        == knowledge_id)
}

/// The media, newest first, a hundred rows at most.
pub open spec fn media_list(
    s: StoreModel,
    domain: Option<Seq<char>>,
    knowledge_id: Option<i64>,
) -> Seq<MediaRowModel> {
    top(
        listed(
            s.media,
            |m: MediaRowModel| is_media_of(m, domain, knowledge_id),
            |m: MediaRowModel| (m.created_at, 0i64),
        ),
        100,
    )
}

impl Store {
    /// Stores a media row. With an item it takes over the trust tier that the item has;
    /// without one it has none. Gives its number; `None`, and nothing stored, where no
    /// number is left.
    pub fn insert_media(
        &mut self,
        storage_ref: &str,
        mime_type: &str,
        size_bytes: i64,
        caption: Option<&str>,
        knowledge_id: Option<i64>,
        domain: Option<&str>,
        now: i64,
    ) -> (r: Option<i64>)
        ensures
            match r {
                Some(id) => id == next_media_id(old(self)@) && final(self)@ == (StoreModel {
                    media: old(self)@.media.push(
                        MediaRowModel {
                            media_id: id,
                            storage_ref: storage_ref@,
                            mime_type: mime_type@,
                            size_bytes,
                            caption: opt_str(caption),
                            knowledge_id,
                            domain: opt_str(domain),
                            trust: inherited(old(self)@, knowledge_id),
                            created_at: now,
                        },
                    ),
                    ..old(self)@
                }),
                None => next_media_id(old(self)@) > i64::MAX && final(self)@ == old(self)@,
            },
    {
        broadcast use lemma_models_push;

        let number_of = |m: &MediaRow| -> (n: i64)
            ensures
                n == m@.media_id,
            { m.media_id };
        let id: i64 = match next_id(&self.media, number_of, Ghost(|m: MediaRowModel| m.media_id)) {
            Some(n) => n,
            None => {
                return None;
            },
        };
        let trust: Option<String> = match knowledge_id {
            Some(n) => match self.knowledge_at(n) {
                Some(i) => Some(self.knowledge[i].trust.as_str().to_owned()),
                None => None,
            },
            None => None,
        };
        let row: MediaRow = MediaRow {
            media_id: id,
            storage_ref: storage_ref.to_owned(),
            mime_type: mime_type.to_owned(),
            size_bytes,
            caption: own(caption),
            knowledge_id,
            domain: own(domain),
            trust,
            created_at: now,
        };
        let ghost model = row@;
        self.media.push(row);
        assert(self@ =~= (StoreModel { media: old(self)@.media.push(model), ..old(self)@ }));
        Some(id)
    }

    /// Attaches media to an item, whose trust tier it takes over. Says whether there are
    /// such an item and such media; otherwise nothing is changed.
    pub fn attach_media(&mut self, media_id: i64, knowledge_id: i64) -> (r: bool)
        ensures
            r == (known(old(self)@, knowledge_id) && some_match(
                old(self)@.media,
                |m: MediaRowModel| m.media_id == media_id,
            )),
            match trust_of(old(self)@, knowledge_id) {
                Some(t) => final(self)@ == (StoreModel {
                    media: old(self)@.media.map_values(
                        |m: MediaRowModel| attached(m, media_id, knowledge_id, t),
                    ),
                    ..old(self)@
                }),
                None => final(self)@ == old(self)@,
            },
    {
        let trust: Trust = match self.knowledge_at(knowledge_id) {
            Some(i) => self.knowledge[i].trust,
            None => {
                return false;
            },
        };
        let is = |m: &MediaRow| -> (b: bool)
            ensures
                b == (m@.media_id == media_id),
            { m.media_id == media_id };
        let done: bool = any(&self.media, is, Ghost(|m: MediaRowModel| m.media_id == media_id));
        let set = |m: MediaRow| -> (q: MediaRow)
            ensures
                q@ == attached(m@, media_id, knowledge_id, trust),
            {
                let mut q: MediaRow = m;
                if q.media_id == media_id {
                    q.knowledge_id = Some(knowledge_id);
                    q.trust = Some(trust.as_str().to_owned());
                }
                q
            };
        let ghost g = |m: MediaRowModel| attached(m, media_id, knowledge_id, trust);
        rewrite(&mut self.media, set, Ghost(g));
        assert(self@ =~= (StoreModel { media: old(self)@.media.map_values(g), ..old(self)@ }));
        done
    }

    /// The media, newest first, a hundred rows at most; of one domain or one item only,
    /// where one is given.
    pub fn list_media(&self, domain: Option<&str>, knowledge_id: Option<i64>) -> (r: Vec<MediaRow>)
        ensures
            models(r@) == media_list(self@, opt_str(domain), knowledge_id),
    {
        let is = |m: &MediaRow| -> (b: bool)
            ensures
                b == is_media_of(m@, opt_str(domain), knowledge_id),
            {
                (match domain {
                    Some(d) => is_text(&m.domain, d),
                    None => true,
                }) && (match knowledge_id {
                    Some(n) => match m.knowledge_id {
                        Some(k) => k == n,
                        None => false,
                    },
                    None => true,
                })
            };
        let when = |m: &MediaRow| -> (k: (i64, i64))
            ensures
                k == (m@.created_at, 0i64),
            { (m.created_at, 0) };
        let at: Vec<usize> = list(
            &self.media,
            is,
            when,
            100,
            Ghost(|m: MediaRowModel| is_media_of(m, opt_str(domain), knowledge_id)),
            Ghost(|m: MediaRowModel| (m.created_at, 0i64)),
        );
        let f = |m: &MediaRow| -> (q: MediaRow)
            ensures
                q@ == m@,
            { m.clone() };
        let out: Vec<MediaRow> = map_at(&self.media, &at, f, Ghost(|m: MediaRowModel| m));
        assert(models(out@) =~= media_list(self@, opt_str(domain), knowledge_id));
        out
    }

    /// The media row of a number.
    pub fn get_media(&self, media_id: i64) -> (r: Option<MediaRow>)
        ensures
            match first_match(self@.media, |m: MediaRowModel| m.media_id == media_id) {
                Some(x) => r matches Some(m) && m@ == x,
                None => r is None,
            },
    {
        let is = |m: &MediaRow| -> (b: bool)
            ensures
                b == (m@.media_id == media_id),
            { m.media_id == media_id };
        match find_row(&self.media, is, Ghost(|m: MediaRowModel| m.media_id == media_id)) {
            Some(i) => Some(self.media[i].clone()),
            None => None,
        }
    }
}

/// An image that is attached to an item is of the trust tier of the item.
pub proof fn attached_media_has_the_trust_of_its_item(s: StoreModel, m: MediaRowModel, knowledge_id: i64)
    requires
        trust_of(s, knowledge_id) is Some,
    ensures
        attached(m, m.media_id, knowledge_id, trust_of(s, knowledge_id)->0).trust == inherited(
            s,
            Some(knowledge_id),
        ),
{
}

} // verus!
