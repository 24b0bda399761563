//! A keyed collection of token records: at most one record per token id, the
//! favorite flag set on first insert and kept by every refresh.
use vstd::prelude::*;
use crate::catalog::TokenEntry;

verus! {

/// `t` with its favorite flag flipped.
pub open spec fn flipped(t: TokenEntry) -> TokenEntry {
    TokenEntry { is_favorite: !t.is_favorite, ..t }
}

/// The record stored for `fresh` when its token was already held as `stored`:
/// every field from `fresh` but the favorite flag, which stays.
pub open spec fn refreshed(stored: TokenEntry, fresh: TokenEntry) -> TokenEntry {
    TokenEntry { is_favorite: stored.is_favorite, ..fresh }
}

/// The record stored for `fresh` when its token was not held yet: not a favorite.
pub open spec fn first_stored(fresh: TokenEntry) -> TokenEntry {
    TokenEntry { is_favorite: false, ..fresh }
}

/// Some record of `s` has the id `id`.
pub open spec fn holds_id(s: Seq<TokenEntry>, id: Seq<char>) -> bool {
    exists|i: int| 0 <= i < s.len() && (#[trigger] s[i]).token_id@ == id
}

/// No two records of `s` share an id.
pub open spec fn ids_unique(s: Seq<TokenEntry>) -> bool {
    forall|i: int, j: int|
        0 <= i < j < s.len() ==> (#[trigger] s[i]).token_id@ != (#[trigger] s[j]).token_id@
}

/// The records after an upsert of `fresh` keyed by its id.
pub open spec fn upserted(s: Seq<TokenEntry>, fresh: TokenEntry) -> Seq<TokenEntry> {
    if holds_id(s, fresh.token_id@) {
        Seq::new(
            s.len(),
            |i: int|
                if s[i].token_id@ == fresh.token_id@ {
                    refreshed(s[i], fresh)
                } else {
                    s[i]
                },
        )
    } else {
        s.push(first_stored(fresh))
    }
}

/// The records after the favorite flag of the token `id` is flipped.
pub open spec fn toggled(s: Seq<TokenEntry>, id: Seq<char>) -> Seq<TokenEntry> {
    Seq::new(s.len(), |i: int| if s[i].token_id@ == id { flipped(s[i]) } else { s[i] })
}

/// The positions of the favorite records of `s`, in order.
pub open spec fn favorite_positions(s: Seq<TokenEntry>) -> Seq<usize>
    decreases s.len(),
{
    if s.len() == 0 {
        Seq::empty()
    } else {
        let before = favorite_positions(s.drop_last());
        if s.last().is_favorite {
            before.push((s.len() - 1) as usize)
        } else {
            before
        }
    }
}

/// Why a favorite toggle was refused.
#[derive(Debug, PartialEq, Eq, Structural)]
pub enum FavoriteError {
    /// No token with that id is cached.
    NotFound,
}

/// The favorite flag a toggle stores for a token whose lookup found `found`
/// (its current flag), or not-found when no token was found.
pub fn next_favorite(found: Option<bool>) -> (r: Result<bool, FavoriteError>)
    ensures
        match found {
            Some(flag) => r == Ok::<bool, FavoriteError>(!flag),
            None => r == Err::<bool, FavoriteError>(FavoriteError::NotFound),
        },
{
    match found {
        Some(flag) => Ok(!flag),
        None => Err(FavoriteError::NotFound),
    }
}

/// Cached token records in storage order, one per token id.
pub struct TokenCache {
    records: Vec<TokenEntry>,
}

impl View for TokenCache {
    type V = Seq<TokenEntry>;

    closed spec fn view(&self) -> Seq<TokenEntry> {
        self.records@
    }
}

impl TokenCache {
    /// The cache holds at most one record per token id.
    pub closed spec fn wf(&self) -> bool {
        ids_unique(self.records@)
    }

    /// An empty cache.
    pub fn new() -> (c: Self)
        ensures
            c.wf(),
            c@ == Seq::<TokenEntry>::empty(),
    {
        TokenCache { records: Vec::new() }
    }

    /// The records, in storage order.
    pub fn records(&self) -> (r: &Vec<TokenEntry>)
        ensures
            r@ == self@,
    {
        &self.records
    }

    /// The position of the record with id `token_id`, if one is held.
    pub fn find(&self, token_id: &str) -> (r: Option<usize>)
        requires
            self.wf(),
        ensures
            r is None <==> !holds_id(self@, token_id@),
            r is Some ==> r->0 < self@.len() && self@[r->0 as int].token_id@ == token_id@,
    {
        let key = token_id.to_owned();
        let mut i: usize = 0;
        while i < self.records.len()
            invariant
                i <= self.records@.len(),
                key@ == token_id@,
                forall|j: int| 0 <= j < i ==> (#[trigger] self.records@[j]).token_id@ != token_id@,
            decreases self.records.len() - i,
        {
            if self.records[i].token_id == key {
                return Some(i);
            }
            i = i + 1;
        }
        None
    }

    /// Stores `fresh` under its id: a held record takes every field of `fresh`
    /// but keeps its favorite flag; a new record starts as no favorite.
    pub fn upsert_refresh(&mut self, fresh: TokenEntry)
        requires
            old(self).wf(),
        ensures
            final(self).wf(),
            final(self)@ == upserted(old(self)@, fresh),
    {
        match self.find(fresh.token_id.as_str()) {
            Some(i) => {
                let ghost s = self.records@;
                let favorite = self.records[i].is_favorite;
                let merged = TokenEntry { is_favorite: favorite, ..fresh };
                self.records.set(i, merged);
                assert(self.records@ =~= upserted(s, fresh)) by {
                    assert forall|j: int| 0 <= j < s.len() && j != i implies s[j].token_id@
                        != fresh.token_id@ by {
                        if j < i {
                            assert(s[j].token_id@ != s[i as int].token_id@);
                        } else {
                            assert(s[i as int].token_id@ != s[j].token_id@);
                        }
                    }
                }
            },
            None => {
                let stored = TokenEntry { is_favorite: false, ..fresh };
                self.records.push(stored);
            },
        }
    }

    /// Flips the favorite flag of the token `token_id` and returns the updated
    /// record; a token that is not held is reported as not found.
    pub fn toggle_favorite(&mut self, token_id: &str) -> (r: Result<TokenEntry, FavoriteError>)
        requires
            old(self).wf(),
        ensures
            final(self).wf(),
            final(self)@ == toggled(old(self)@, token_id@),
            !holds_id(old(self)@, token_id@) <==> r == Err::<TokenEntry, FavoriteError>(
                FavoriteError::NotFound,
            ),
            r is Ok ==> exists|i: int|
                0 <= i < old(self)@.len() && (#[trigger] old(self)@[i]).token_id@ == token_id@
                    && r->Ok_0 == flipped(old(self)@[i]),
    {
        match self.find(token_id) {
            Some(i) => {
                let ghost s = self.records@;
                let mut t = self.records[i].copied();
                t.is_favorite = !t.is_favorite;
                let updated = t.copied();
                self.records.set(i, t);
                assert(self.records@ =~= toggled(s, token_id@)) by {
                    assert forall|j: int| 0 <= j < s.len() && j != i implies s[j].token_id@
                        != token_id@ by {
                        if j < i {
                            assert(s[j].token_id@ != s[i as int].token_id@);
                        } else {
                            assert(s[i as int].token_id@ != s[j].token_id@);
                        }
                    }
                }
                Ok(updated)
            },
            None => {
                assert(self.records@ =~= toggled(self.records@, token_id@));
                Err(FavoriteError::NotFound)
            },
        }
    }

    /// The positions of the favorite records, in storage order.
    pub fn favorites(&self) -> (r: Vec<usize>)
        ensures
            r@ == favorite_positions(self@),
    {
        let mut found: Vec<usize> = Vec::new();
        let mut i: usize = 0;
        while i < self.records.len()
            invariant
                i <= self.records@.len(),
                found@ == favorite_positions(self.records@.take(i as int)),
            decreases self.records.len() - i,
        {
            assert(self.records@.take(i + 1).drop_last() =~= self.records@.take(i as int));
            if self.records[i].is_favorite {
                found.push(i);
            }
            i = i + 1;
        }
        assert(self.records@.take(self.records.len() as int) =~= self.records@);
        found
    }
}

/// Flipping the favorite flag of the same token twice gives back the records
/// as they were.
pub proof fn lemma_toggle_twice(s: Seq<TokenEntry>, id: Seq<char>)
    ensures
        toggled(toggled(s, id), id) == s,
{
    let twice = toggled(toggled(s, id), id);
    assert forall|i: int| 0 <= i < s.len() implies twice[i] == s[i] by {
        if s[i].token_id@ == id {
            assert(twice[i] == flipped(flipped(s[i])));
        }
    }
    assert(twice =~= s);
}

/// A refresh of a token that was marked favorite keeps it a favorite, whatever
/// the fresh record says of the flag; its other fields come from the refresh.
pub proof fn lemma_refresh_keeps_favorite(s: Seq<TokenEntry>, fresh: TokenEntry, i: int)
    requires
        ids_unique(s),
        0 <= i < s.len(),
        s[i].token_id@ == fresh.token_id@,
        s[i].is_favorite,
    ensures
        upserted(s, fresh).len() == s.len(),
        upserted(s, fresh)[i] == (TokenEntry { is_favorite: true, ..fresh }),
{
}

} // verus!
