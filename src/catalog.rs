//! Cached token records as the request logic sees them, and the pure operations
//! on them: listing order, search, favorites and the picks of the statistics.
//!
//! Market figures enter as order keys: each key orders as the figure it stands
//! for, so comparing keys compares the figures.
use vstd::prelude::*;
use crate::text::{lower_of, lowercase, matches_folded, folded_match};

verus! {

/// What the request logic reads of one cached token.
pub struct TokenEntry {
    pub token_id: String,
    pub symbol: String,
    pub name: String,
    /// Orders as the token's market capitalisation.
    pub market_cap_key: u64,
    /// Orders as the token's 24h price change in percent.
    pub change_key: u64,
    pub is_favorite: bool,
}

impl TokenEntry {
    /// A copy of this record.
    pub fn copied(&self) -> (r: TokenEntry)
        ensures
            r == *self,
    {
        TokenEntry {
            token_id: self.token_id.clone(),
            symbol: self.symbol.clone(),
            name: self.name.clone(),
            market_cap_key: self.market_cap_key,
            change_key: self.change_key,
            is_favorite: self.is_favorite,
        }
    }
}

/// Body of a request to flip a token's favorite flag.
pub struct FavoriteRequest {
    pub token_id: String,
}

/// Token `a` is listed before token `b`: a larger market cap first, and on equal
/// market caps the one stored first.
pub open spec fn listed_before(keys: Seq<u64>, a: int, b: int) -> bool {
    keys[a] > keys[b] || (keys[a] == keys[b] && a < b)
}

/// `order` lists every position of `keys` once, by market cap descending, ties
/// in storage order.
pub open spec fn is_market_cap_order(keys: Seq<u64>, order: Seq<usize>) -> bool {
    &&& order.len() == keys.len()
    &&& forall|p: int| 0 <= p < order.len() ==> #[trigger] order[p] < keys.len()
    &&& forall|p: int, q: int|
        0 <= p < q < order.len() ==> listed_before(keys, #[trigger] order[p] as int, #[trigger] order[q] as int)
}

/// The positions of the cached tokens, given by their market cap keys in
/// storage order, in the order the tokens are listed: market cap descending,
/// equal market caps in storage order.
pub fn market_cap_order(keys: &Vec<u64>) -> (order: Vec<usize>)
    ensures
        is_market_cap_order(keys@, order@),
{
    let n = keys.len();
    let mut order: Vec<usize> = Vec::new();
    let mut i: usize = 0;
    while i < n
        invariant
            n == keys.len(),
            i <= n,
            order.len() == i,
            forall|p: int| 0 <= p < order.len() ==> #[trigger] order[p] < i,
            forall|p: int, q: int|
                0 <= p < q < order.len() ==> listed_before(keys@, #[trigger] order[p] as int, #[trigger] order[q] as int),
        decreases n - i,
    {
        let key = keys[i];
        let mut pos: usize = 0;
        while pos < order.len() && keys[order[pos]] >= key
            invariant
                n == keys.len(),
                i < n,
                pos <= order.len(),
                order.len() == i,
                forall|p: int| 0 <= p < order.len() ==> #[trigger] order[p] < i,
                forall|p: int| 0 <= p < pos ==> keys@[#[trigger] order[p] as int] >= key,
            decreases order.len() - pos,
        {
            pos = pos + 1;
        }
        proof {
            assert forall|q: int| pos <= q < order.len() implies keys@[#[trigger] order[q] as int] < key by {
                if q > pos {
                    assert(listed_before(keys@, order[pos as int] as int, order[q] as int));
                }
            }
        }
        let ghost before = order@;
        order.insert(pos, i);
        proof {
            assert forall|p: int| 0 <= p < order.len() implies #[trigger] order[p] < i + 1 by {
                if p < pos {
                    assert(order[p] == before[p]);
                } else if p > pos {
                    assert(order[p] == before[p - 1]);
                }
            }
            assert forall|p: int, q: int| 0 <= p < q < order.len() implies listed_before(
                keys@,
                #[trigger] order[p] as int,
                #[trigger] order[q] as int,
            ) by {
                if p < pos && q < pos {
                    assert(order[p] == before[p] && order[q] == before[q]);
                } else if p < pos && q == pos {
                    assert(order[p] == before[p]);
                } else if p < pos {
                    assert(order[p] == before[p] && order[q] == before[q - 1]);
                } else if p == pos {
                    assert(order[q] == before[q - 1]);
                } else {
                    assert(order[p] == before[p - 1] && order[q] == before[q - 1]);
                }
            }
        }
        i = i + 1;
    }
    order
}

/// A token matches a query when its name, symbol or id holds the query, case
/// ignored.
pub open spec fn token_matches(query: Seq<char>, t: TokenEntry) -> bool {
    folded_match(lower_of(query), lower_of(t.name@), lower_of(t.symbol@), lower_of(t.token_id@))
}

/// The positions of the tokens that match `query`, in their order.
pub open spec fn matching_positions(tokens: Seq<TokenEntry>, query: Seq<char>) -> Seq<usize>
    decreases tokens.len(),
{
    if tokens.len() == 0 {
        Seq::empty()
    } else {
        let before = matching_positions(tokens.drop_last(), query);
        if token_matches(query, tokens.last()) {
            before.push((tokens.len() - 1) as usize)
        } else {
            before
        }
    }
}

/// The positions of the cached tokens that match `query`, in the order given.
/// An empty query matches every token.
pub fn search_matches(tokens: &Vec<TokenEntry>, query: &str) -> (r: Vec<usize>)
    ensures
        r@ == matching_positions(tokens@, query@),
        query@.len() == 0 ==> r@ == Seq::new(tokens@.len(), |i: int| i as usize),
{
    let folded_query = lowercase(query);
    let mut found: Vec<usize> = Vec::new();
    let mut i: usize = 0;
    while i < tokens.len()
        invariant
            i <= tokens.len(),
            folded_query@ == lower_of(query@),
            query@.len() == 0 ==> folded_query@.len() == 0,
            found@ == matching_positions(tokens@.take(i as int), query@),
            query@.len() == 0 ==> found@ == Seq::new(i as nat, |j: int| j as usize),
        decreases tokens.len() - i,
    {
        let t = &tokens[i];
        let name = lowercase(t.name.as_str());
        let symbol = lowercase(t.symbol.as_str());
        let id = lowercase(t.token_id.as_str());
        let hit = matches_folded(folded_query.as_str(), name.as_str(), symbol.as_str(), id.as_str());
        assert(tokens@.take(i + 1).drop_last() =~= tokens@.take(i as int));
        proof {
            if query@.len() == 0 {
                assert(name@.subrange(0, 0 + folded_query@.len() as int) =~= folded_query@);
                assert(hit);
            }
        }
        if hit {
            found.push(i);
        }
        assert(query@.len() == 0 ==> found@ =~= Seq::new((i + 1) as nat, |j: int| j as usize));
        i = i + 1;
    }
    assert(tokens@.take(tokens.len() as int) =~= tokens@);
    found
}

/// `g` is the first position holding the largest change key.
pub open spec fn is_biggest_gainer(tokens: Seq<TokenEntry>, g: int) -> bool {
    &&& 0 <= g < tokens.len()
    &&& forall|j: int| 0 <= j < tokens.len() ==> #[trigger] tokens[j].change_key <= tokens[g].change_key
    &&& forall|j: int| 0 <= j < g ==> #[trigger] tokens[j].change_key < tokens[g].change_key
}

/// `l` is the first position holding the smallest change key.
pub open spec fn is_biggest_loser(tokens: Seq<TokenEntry>, l: int) -> bool {
    &&& 0 <= l < tokens.len()
    &&& forall|j: int| 0 <= j < tokens.len() ==> #[trigger] tokens[j].change_key >= tokens[l].change_key
    &&& forall|j: int| 0 <= j < l ==> #[trigger] tokens[j].change_key > tokens[l].change_key
}

/// The parts of the market statistics that pick tokens: how many there are,
/// and the positions of the biggest gainer and loser over 24h.
pub struct StatsPicks {
    pub total_tokens: usize,
    pub biggest_gainer: Option<usize>,
    pub biggest_loser: Option<usize>,
}

/// Counts the cached tokens and picks the biggest gainer and loser over 24h,
/// the first one met on ties; none of either for an empty cache.
pub fn pick_stats(tokens: &Vec<TokenEntry>) -> (r: StatsPicks)
    ensures
        r.total_tokens == tokens.len(),
        tokens.len() == 0 ==> r.biggest_gainer is None && r.biggest_loser is None,
        tokens.len() > 0 ==> r.biggest_gainer is Some && is_biggest_gainer(tokens@, r.biggest_gainer->0 as int),
        tokens.len() > 0 ==> r.biggest_loser is Some && is_biggest_loser(tokens@, r.biggest_loser->0 as int),
{
    let n = tokens.len();
    if n == 0 {
        return StatsPicks { total_tokens: 0, biggest_gainer: None, biggest_loser: None };
    }
    let mut gainer: usize = 0;
    let mut loser: usize = 0;
    let mut i: usize = 1;
    while i < n
        invariant
            n == tokens.len(),
            1 <= i <= n,
            is_biggest_gainer(tokens@.take(i as int), gainer as int),
            is_biggest_loser(tokens@.take(i as int), loser as int),
        decreases n - i,
    {
        let ghost seen = tokens@.take(i as int);
        let ghost next = tokens@.take(i + 1);
        assert forall|j: int| 0 <= j < i implies next[j] == seen[j] && seen[j] == tokens@[j] by {}
        if tokens[i].change_key > tokens[gainer].change_key {
            gainer = i;
        }
        if tokens[i].change_key < tokens[loser].change_key {
            loser = i;
        }
        assert(is_biggest_gainer(next, gainer as int)) by {
            assert forall|j: int| 0 <= j < next.len() implies #[trigger] next[j].change_key <= next[gainer as int].change_key by {
                if j < i {
                    assert(seen[j] == next[j]);
                }
            }
        }
        assert(is_biggest_loser(next, loser as int)) by {
            assert forall|j: int| 0 <= j < next.len() implies #[trigger] next[j].change_key >= next[loser as int].change_key by {
                if j < i {
                    assert(seen[j] == next[j]);
                }
            }
        }
        i = i + 1;
    }
    assert(tokens@.take(n as int) =~= tokens@);
    StatsPicks { total_tokens: n, biggest_gainer: Some(gainer), biggest_loser: Some(loser) }
}

} // verus!
