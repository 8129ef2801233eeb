//! The one-event preview of the live monitor: the tokens of an event's
//! moneyline markets, their best asks by outcome, and the (token, outcome)
//! pairs the monitor subscribes to.
use vstd::prelude::*;
use crate::events::entry_view;
use crate::json::texts;
use crate::orderbook::{OrderbookEntry, entries_texts};
use crate::report::{MarketEntry, MarketEntryText, market_entries_texts};
use crate::ws::name_or;

verus! {

/// The concatenation of a sequence of sequences.
pub open spec fn concat<A>(s: Seq<Seq<A>>) -> Seq<A>
    decreases s.len(),
{
    if s.len() == 0 {
        Seq::empty()
    } else {
        concat(s.drop_last()) + s.last()
    }
}

pub open spec fn markets_view(m: Seq<(String, Vec<String>, Vec<String>)>) -> Seq<
    (Seq<char>, Seq<Seq<char>>, Seq<Seq<char>>),
> {
    m.map_values(|t: (String, Vec<String>, Vec<String>)| entry_view(t))
}

/// The token ids of all markets, market by market.
pub open spec fn all_tokens(m: Seq<(String, Vec<String>, Vec<String>)>) -> Seq<Seq<char>> {
    concat(markets_view(m).map_values(|t: (Seq<char>, Seq<Seq<char>>, Seq<Seq<char>>)| t.1))
}

/// The outcomes of all markets, market by market.
pub open spec fn all_outcomes(m: Seq<(String, Vec<String>, Vec<String>)>) -> Seq<Seq<char>> {
    concat(markets_view(m).map_values(|t: (Seq<char>, Seq<Seq<char>>, Seq<Seq<char>>)| t.2))
}

fn copy_strings(v: &Vec<String>, out: &mut Vec<String>)
    ensures
        texts(final(out)@) == texts(old(out)@) + texts(v@),
{
    let ghost start = texts(out@);
    let mut i: usize = 0;
    while i < v.len()
        invariant
            i <= v@.len(),
            texts(out@) == start + texts(v@.take(i as int)),
        decreases v@.len() - i,
    {
        let ghost before = texts(out@);
        let s = v[i].clone();
        out.push(s);
        i = i + 1;
        proof {
            assert(texts(out@) =~= before.push(s@));
            assert(texts(v@.take(i as int)) =~= texts(v@.take(i - 1)).push(v@[i - 1]@));
            assert(texts(out@) =~= start + texts(v@.take(i as int)));
        }
    }
    assert(v@.take(v@.len() as int) =~= v@);
}

/// All token ids of the markets, market by market.
pub fn market_tokens(markets: &Vec<(String, Vec<String>, Vec<String>)>) -> (r: Vec<String>)
    ensures
        texts(r@) == all_tokens(markets@),
{
    let ghost parts = markets_view(markets@).map_values(
        |t: (Seq<char>, Seq<Seq<char>>, Seq<Seq<char>>)| t.1,
    );
    let mut out: Vec<String> = Vec::new();
    let mut i: usize = 0;
    while i < markets.len()
        invariant
            i <= markets@.len(),
            parts == markets_view(markets@).map_values(
                |t: (Seq<char>, Seq<Seq<char>>, Seq<Seq<char>>)| t.1,
            ),
            texts(out@) == concat(parts.take(i as int)),
        decreases markets@.len() - i,
    {
        copy_strings(&markets[i].1, &mut out);
        i = i + 1;
        proof {
            assert(parts.take(i as int).drop_last() =~= parts.take(i - 1));
            assert(parts.take(i as int).last() == texts(markets@[i - 1].1@));
        }
    }
    assert(parts.take(markets@.len() as int) =~= parts);
    out
}

/// All outcomes of the markets, market by market.
pub fn market_outcomes(markets: &Vec<(String, Vec<String>, Vec<String>)>) -> (r: Vec<String>)
    ensures
        texts(r@) == all_outcomes(markets@),
{
    let ghost parts = markets_view(markets@).map_values(
        |t: (Seq<char>, Seq<Seq<char>>, Seq<Seq<char>>)| t.2,
    );
    let mut out: Vec<String> = Vec::new();
    let mut i: usize = 0;
    while i < markets.len()
        invariant
            i <= markets@.len(),
            parts == markets_view(markets@).map_values(
                |t: (Seq<char>, Seq<Seq<char>>, Seq<Seq<char>>)| t.2,
            ),
            texts(out@) == concat(parts.take(i as int)),
        decreases markets@.len() - i,
    {
        copy_strings(&markets[i].2, &mut out);
        i = i + 1;
        proof {
            assert(parts.take(i as int).drop_last() =~= parts.take(i - 1));
            assert(parts.take(i as int).last() == texts(markets@[i - 1].2@));
        }
    }
    assert(parts.take(markets@.len() as int) =~= parts);
    out
}

/// Two lists walked together, as far as the shorter goes.
pub open spec fn zip_texts(a: Seq<Seq<char>>, b: Seq<Seq<char>>) -> Seq<(Seq<char>, Seq<char>)> {
    Seq::new(
        if a.len() <= b.len() {
            a.len()
        } else {
            b.len()
        },
        |i: int| (a[i], b[i]),
    )
}

/// The (token id, outcome) pairs of all markets, market by market.
pub open spec fn all_pairs(m: Seq<(String, Vec<String>, Vec<String>)>) -> Seq<(Seq<char>, Seq<char>)> {
    concat(
        markets_view(m).map_values(
            |t: (Seq<char>, Seq<Seq<char>>, Seq<Seq<char>>)| zip_texts(t.1, t.2),
        ),
    )
}

/// Pairs each token of each market with the outcome at the same position (as
/// far as both lists go), market by market.
pub fn token_outcome_pairs(markets: &Vec<(String, Vec<String>, Vec<String>)>) -> (r: Vec<
    (String, String),
>)
    ensures
        crate::ws::pairs_texts(r@) == all_pairs(markets@),
{
    let ghost parts = markets_view(markets@).map_values(
        |t: (Seq<char>, Seq<Seq<char>>, Seq<Seq<char>>)| zip_texts(t.1, t.2),
    );
    let mut out: Vec<(String, String)> = Vec::new();
    let mut i: usize = 0;
    while i < markets.len()
        invariant
            i <= markets@.len(),
            parts == markets_view(markets@).map_values(
                |t: (Seq<char>, Seq<Seq<char>>, Seq<Seq<char>>)| zip_texts(t.1, t.2),
            ),
            crate::ws::pairs_texts(out@) == concat(parts.take(i as int)),
        decreases markets@.len() - i,
    {
        let tokens = &markets[i].1;
        let outcomes = &markets[i].2;
        let n: usize = if tokens.len() <= outcomes.len() {
            tokens.len()
        } else {
            outcomes.len()
        };
        let ghost start = crate::ws::pairs_texts(out@);
        let ghost z = zip_texts(texts(tokens@), texts(outcomes@));
        let mut j: usize = 0;
        while j < n
            invariant
                j <= n,
                n == z.len(),
                z == zip_texts(texts(tokens@), texts(outcomes@)),
                crate::ws::pairs_texts(out@) == start + z.take(j as int),
            decreases n - j,
        {
            let ghost before = crate::ws::pairs_texts(out@);
            let p = (tokens[j].clone(), outcomes[j].clone());
            out.push(p);
            j = j + 1;
            proof {
                assert(crate::ws::pairs_texts(out@) =~= before.push((p.0@, p.1@)));
                assert(z.take(j as int) =~= z.take(j - 1).push(z[j - 1]));
            }
        }
        proof {
            assert(z.take(n as int) =~= z);
            assert(parts.take(i + 1).drop_last() =~= parts.take(i as int));
            assert(parts.take(i + 1).last() == z);
        }
        i = i + 1;
    }
    assert(parts.take(markets@.len() as int) =~= parts);
    out
}

/// The best ask listed for an outcome: the last entry with that outcome.
pub open spec fn ask_for(entries: Seq<(Seq<char>, Seq<char>)>, outcome: Seq<char>) -> Option<Seq<char>>
    decreases entries.len(),
{
    if entries.len() == 0 {
        None
    } else if entries.last().0 == outcome {
        Some(entries.last().1)
    } else {
        ask_for(entries.drop_last(), outcome)
    }
}

fn lookup_ask(entries: &Vec<OrderbookEntry>, outcome: &String) -> (r: Option<String>)
    ensures
        crate::events::opt_text(r) == ask_for(entries_texts(entries@), outcome@),
{
    let ghost all = entries_texts(entries@);
    let mut found: Option<String> = None;
    let mut i: usize = 0;
    while i < entries.len()
        invariant
            i <= entries@.len(),
            all == entries_texts(entries@),
            crate::events::opt_text(found) == ask_for(all.take(i as int), outcome@),
        decreases entries@.len() - i,
    {
        proof {
            assert(all.take(i + 1).drop_last() =~= all.take(i as int));
            assert(all.take(i + 1).last() == all[i as int]);
        }
        if entries[i].outcome.eq(outcome) {
            found = Some(entries[i].best_ask.clone());
        }
        i = i + 1;
    }
    assert(all.take(entries@.len() as int) =~= all);
    found
}

/// The preview side of an outcome: the outcome and its best ask, or "—".
pub open spec fn preview_side(entries: Seq<(Seq<char>, Seq<char>)>, outcome: Seq<char>) -> (
    Seq<char>,
    Seq<char>,
) {
    (outcome, name_or(ask_for(entries, outcome), "—"@))
}

/// The preview of a market: its question and, for each of its outcomes, the
/// best ask fetched for an outcome of that name.
pub open spec fn preview_entry(
    entries: Seq<(Seq<char>, Seq<char>)>,
    t: (Seq<char>, Seq<Seq<char>>, Seq<Seq<char>>),
) -> MarketEntryText {
    MarketEntryText {
        question: t.0,
        sides: t.2.map_values(|o: Seq<char>| preview_side(entries, o)),
        sports_market_type: "moneyline"@,
    }
}

/// The previews of the markets, in order, from the best asks fetched for all
/// their tokens.
pub fn preview_market_entries(
    markets: &Vec<(String, Vec<String>, Vec<String>)>,
    books: &Vec<OrderbookEntry>,
) -> (r: Vec<MarketEntry>)
    ensures
        market_entries_texts(r@) == markets_view(markets@).map_values(
            |t: (Seq<char>, Seq<Seq<char>>, Seq<Seq<char>>)| preview_entry(entries_texts(books@), t),
        ),
{
    let ghost asks = entries_texts(books@);
    let ghost want = markets_view(markets@).map_values(
        |t: (Seq<char>, Seq<Seq<char>>, Seq<Seq<char>>)| preview_entry(asks, t),
    );
    let mut out: Vec<MarketEntry> = Vec::new();
    let mut i: usize = 0;
    while i < markets.len()
        invariant
            i <= markets@.len(),
            asks == entries_texts(books@),
            want == markets_view(markets@).map_values(
                |t: (Seq<char>, Seq<Seq<char>>, Seq<Seq<char>>)| preview_entry(asks, t),
            ),
            market_entries_texts(out@) == want.take(i as int),
        decreases markets@.len() - i,
    {
        let outcomes = &markets[i].2;
        let ghost view_i = entry_view(markets@[i as int]);
        let mut sides: Vec<OrderbookEntry> = Vec::new();
        let mut j: usize = 0;
        while j < outcomes.len()
            invariant
                j <= outcomes@.len(),
                i < markets@.len(),
                *outcomes == markets@[i as int].2,
                asks == entries_texts(books@),
                view_i == entry_view(markets@[i as int]),
                entries_texts(sides@) == view_i.2.take(j as int).map_values(
                    |o: Seq<char>| preview_side(asks, o),
                ),
            decreases outcomes@.len() - j,
        {
            let ask = match lookup_ask(books, &outcomes[j]) {
                Some(a) => a,
                None => "—".to_owned(),
            };
            let ghost before = entries_texts(sides@);
            let e = OrderbookEntry { outcome: outcomes[j].clone(), best_ask: ask };
            assert(crate::orderbook::entry_texts(e) == preview_side(asks, view_i.2[j as int]));
            sides.push(e);
            j = j + 1;
            proof {
                assert(entries_texts(sides@) =~= before.push(crate::orderbook::entry_texts(e)));
                assert(view_i.2.take(j as int) =~= view_i.2.take(j - 1).push(view_i.2[j - 1]));
            }
        }
        let ghost before_out = market_entries_texts(out@);
        let entry = MarketEntry {
            question: markets[i].0.clone(),
            sides,
            sports_market_type: "moneyline".to_owned(),
        };
        proof {
            assert(view_i.2.take(j as int) =~= view_i.2);
            assert(entry@ =~= preview_entry(asks, view_i));
        }
        out.push(entry);
        i = i + 1;
        proof {
            assert(market_entries_texts(out@) =~= before_out.push(entry@));
            assert(want.take(i as int) =~= want.take(i - 1).push(want[i - 1]));
        }
    }
    assert(want.take(markets@.len() as int) =~= want);
    out
}

} // verus!
