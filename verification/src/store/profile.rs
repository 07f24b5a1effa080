//! The preferences of the user, and the author name under which domains are published.
use vstd::prelude::*;

use crate::order::{ints, picked};
use crate::store::{Author, AuthorModel, Preference, PreferenceModel, Store, StoreModel};
use crate::store::{fresh_id, next_id};
use crate::table::{lemma_listed_len, list, listed, reversed_key};
use crate::text::texts;
use crate::types::{lemma_models_push, models};

verus! {

/// The number of seconds in the time for which an author name stands: fourteen days.
pub const AUTHOR_COOLDOWN_SECS: i64 = 14 * 24 * 60 * 60;

/// What became of a request to set the author name.
#[derive(Debug, Clone, Copy, PartialEq, Eq, Structural)]
pub enum AuthorSetOutcome {
    /// There was no name before.
    Registered,
    /// The name was changed.
    Updated,
    /// The name was changed too short a time ago; the next change is allowed from then.
    Blocked { next_allowed_at: i64 },
}

/// The number that the next preference gets.
pub open spec fn next_preference_id(s: StoreModel) -> int {
    fresh_id(s.preferences, |p: PreferenceModel| p.id)
}

/// The preferences, oldest first.
pub open spec fn preference_list(s: StoreModel) -> Seq<Seq<char>> {
    listed(
        s.preferences,
        |p: PreferenceModel| true,
        |p: PreferenceModel| (reversed_key(p.created_at), 0i64),
    ).map_values(|p: PreferenceModel| p.statement)
}

/// The time that a change of the author name is allowed from, held to the times there
/// are.
pub open spec fn next_change(updated_at: i64, cooldown: i64) -> i64 {
    if updated_at + cooldown > i64::MAX {
        i64::MAX
    } else if updated_at + cooldown < i64::MIN {
        i64::MIN
    } else {
        (updated_at + cooldown) as i64
    }
}

/// The time that a change of the author name is allowed from.
pub fn change_allowed_from(updated_at: i64, cooldown: i64) -> (r: i64)
    ensures
        r == next_change(updated_at, cooldown),
{
    let t: i128 = updated_at as i128 + cooldown as i128;
    if t > i64::MAX as i128 {
        i64::MAX
    } else if t < i64::MIN as i128 {
        i64::MIN
    } else {
        t as i64
    }
}

/// What becomes of a request to set the author name.
pub open spec fn author_outcome(s: StoreModel, cooldown: i64, now: i64) -> AuthorSetOutcome {
    match s.author {
        None => AuthorSetOutcome::Registered,
        Some(a) => if now >= next_change(a.updated_at, cooldown) {
            AuthorSetOutcome::Updated
        } else {
            AuthorSetOutcome::Blocked { next_allowed_at: next_change(a.updated_at, cooldown) }
        },
    }
}

/// The author after a request to set the name.
pub open spec fn author_after(s: StoreModel, name: Seq<char>, cooldown: i64, now: i64) -> Option<
    AuthorModel,
> {
    match s.author {
        None => Some(AuthorModel { name, registered_at: now, updated_at: now }),
        Some(a) => if now >= next_change(a.updated_at, cooldown) {
            Some(AuthorModel { name, updated_at: now, ..a })
        } else {
            Some(a)
        },
    }
}

impl Store {
    /// Stores a preference. Gives its number; `None`, and nothing stored, where no
    /// number is left.
    pub fn set_preference(&mut self, scope: &str, statement: &str, now: i64) -> (r: Option<i64>)
        ensures
            match r {
                Some(id) => id == next_preference_id(old(self)@) && final(self)@ == (StoreModel {
                    preferences: old(self)@.preferences.push(
                        PreferenceModel {
                            id,
                            scope: scope@,
                            statement: statement@,
                            created_at: now,
                        },
                    ),
                    ..old(self)@
                }),
                None => next_preference_id(old(self)@) > i64::MAX && final(self)@ == old(self)@,
            },
    {
        broadcast use lemma_models_push;

        let number_of = |p: &Preference| -> (n: i64)
            ensures
                n == p@.id,
            { p.id };
        let id: i64 = match next_id(
            &self.preferences,
            number_of,
            Ghost(|p: PreferenceModel| p.id),
        ) {
            Some(n) => n,
            None => {
                return None;
            },
        };
        let row: Preference = Preference {
            id,
            scope: scope.to_owned(),
            statement: statement.to_owned(),
            created_at: now,
        };
        let ghost model = row@;
        self.preferences.push(row);
        assert(self@ =~= (StoreModel {
            preferences: old(self)@.preferences.push(model),
            ..old(self)@
        }));
        Some(id)
    }

    /// The preferences, oldest first.
    pub fn list_preferences(&self) -> (r: Vec<String>)
        ensures
            texts(r@) == preference_list(self@),
    {
        let all = |p: &Preference| -> (b: bool)
            ensures
                b,
            { true };
        let when = |p: &Preference| -> (k: (i64, i64))
            ensures
                k == (reversed_key(p@.created_at), 0i64),
            { (-1 - p.created_at, 0) };
        let ghost q = |p: PreferenceModel| true;
        let ghost k = |p: PreferenceModel| (reversed_key(p.created_at), 0i64);
        let at: Vec<usize> = list(&self.preferences, all, when, usize::MAX, Ghost(q), Ghost(k));
        proof {
            lemma_listed_len(models(self.preferences@), q, k);
            assert(self.preferences@.len() == self.preferences.len());
        }
        let ghost p = picked(models(self.preferences@), ints(at@));
        let mut out: Vec<String> = Vec::new();
        let mut i: usize = 0;
        while i < at.len()
            invariant
                i <= at@.len(),
                p == picked(models(self.preferences@), ints(at@)),
                forall|j: int| 0 <= j < at@.len() ==> #[trigger] at@[j] < self.preferences@.len(),
                out@.len() == i,
                forall|j: int| 0 <= j < i ==> #[trigger] out@[j]@ == p[j].statement,
            decreases at.len() - i,
        {
            assert(at@[i as int] < self.preferences@.len());
            out.push(self.preferences[at[i]].statement.clone());
            i += 1;
        }
        assert(texts(out@) =~= preference_list(self@));
        out
    }

    /// The registered author: the name, when it was first registered, and when it was
    /// last changed.
    pub fn get_author(&self) -> (r: Option<(String, i64, i64)>)
        ensures
            match self@.author {
                Some(a) => r matches Some(x) && x.0@ == a.name && x.1 == a.registered_at && x.2
                    == a.updated_at,
                None => r is None,
            },
    {
        match &self.author {
            Some(a) => Some((a.name.clone(), a.registered_at, a.updated_at)),
            None => None,
        }
    }

    /// Registers the author name, or changes it. The first registration is always
    /// allowed; a change only once the cooldown since the last one is over. A change
    /// that comes too soon leaves the name as it is.
    pub fn set_author(&mut self, name: &str, cooldown_secs: i64, now: i64) -> (r: AuthorSetOutcome)
        ensures
            r == author_outcome(old(self)@, cooldown_secs, now),
            final(self)@ == (StoreModel {
                author: author_after(old(self)@, name@, cooldown_secs, now),
                ..old(self)@
            }),
    {
        let found: Option<(i64, i64)> = match &self.author {
            Some(a) => Some((a.registered_at, a.updated_at)),
            None => None,
        };
        match found {
            None => {
                self.author = Some(
                    Author { name: name.to_owned(), registered_at: now, updated_at: now },
                );
                assert(self@ =~= (StoreModel {
                    author: author_after(old(self)@, name@, cooldown_secs, now),
                    ..old(self)@
                }));
                AuthorSetOutcome::Registered
            },
            Some(times) => {
                let next: i64 = change_allowed_from(times.1, cooldown_secs);
                if now >= next {
                    self.author = Some(
                        Author { name: name.to_owned(), registered_at: times.0, updated_at: now },
                    );
                    assert(self@ =~= (StoreModel {
                        author: author_after(old(self)@, name@, cooldown_secs, now),
                        ..old(self)@
                    }));
                    AuthorSetOutcome::Updated
                } else {
                    assert(self@ =~= (StoreModel {
                        author: author_after(old(self)@, name@, cooldown_secs, now),
                        ..old(self)@
                    }));
                    AuthorSetOutcome::Blocked { next_allowed_at: next }
                }
            },
        }
    }
}

/// A change of the author name within the cooldown of the one before it is blocked, and
/// the name stands.
pub proof fn author_name_stands_for_the_cooldown(
    s: StoreModel,
    first: Seq<char>,
    second: Seq<char>,
    cooldown: i64,
    t: i64,
    u: i64,
)
    requires
        author_outcome(s, cooldown, t) !is Blocked,
        t + cooldown <= i64::MAX,
        t <= u < t + cooldown,
    ensures
        ({
            let a = StoreModel { author: author_after(s, first, cooldown, t), ..s };
            &&& author_outcome(a, cooldown, u) == AuthorSetOutcome::Blocked {
                next_allowed_at: (t + cooldown) as i64,
            }
            &&& author_after(a, second, cooldown, u) == a.author
            &&& a.author matches Some(x) && x.name == first
        }),
{
}

} // verus!
