//! Order books of the Polymarket CLOB, as far as the bot reads them, and the
//! best ask of each outcome.
use vstd::prelude::*;
use crate::events::opt_text;

verus! {

/// One level of a book side: its `price` string.
pub struct PriceLevel {
    pub price: Option<String>,
}

/// An order book: its `asks` array. The CLOB lists asks from the highest price
/// to the lowest, so the best (lowest) ask is the last level.
pub struct Book {
    pub asks: Option<Vec<PriceLevel>>,
}

/// The best ask of one outcome.
#[derive(Debug)]
pub struct OrderbookEntry {
    pub outcome: String,
    pub best_ask: String,
}

/// The price of the last ask level, if there is one and it has a price string.
pub open spec fn best_ask_of(b: Book) -> Option<Seq<char>> {
    match b.asks {
        Some(levels) => if levels@.len() > 0 {
            opt_text(levels@.last().price)
        } else {
            None
        },
        None => None,
    }
}

/// The best ask of a book: the price of its last ask level.
pub fn best_ask(book: &Book) -> (r: Option<String>)
    ensures
        opt_text(r) == best_ask_of(*book),
{
    match &book.asks {
        Some(levels) => {
            let n = levels.len();
            if n > 0 {
                match &levels[n - 1].price {
                    Some(p) => Some(p.clone()),
                    None => None,
                }
            } else {
                None
            }
        },
        None => None,
    }
}

/// The label of the outcome at position `i`, or "Unknown" past the list's end.
pub open spec fn outcome_label(outcomes: Seq<Seq<char>>, i: int) -> Seq<char> {
    if 0 <= i < outcomes.len() {
        outcomes[i]
    } else {
        "Unknown"@
    }
}

/// The entry for the book fetched for token `i`, if it was fetched and has a best ask.
pub open spec fn book_entry(outcomes: Seq<Seq<char>>, i: int, book: Option<Book>) -> Option<
    (Seq<char>, Seq<char>),
> {
    match book {
        Some(b) => match best_ask_of(b) {
            Some(a) => Some((outcome_label(outcomes, i), a)),
            None => None,
        },
        None => None,
    }
}

/// The entries of the books fetched for a market's tokens, in token order.
pub open spec fn book_entries(outcomes: Seq<Seq<char>>, books: Seq<Option<Book>>) -> Seq<
    (Seq<char>, Seq<char>),
>
    decreases books.len(),
{
    if books.len() == 0 {
        Seq::empty()
    } else {
        let rest = book_entries(outcomes, books.drop_last());
        match book_entry(outcomes, books.len() - 1, books.last()) {
            Some(p) => rest.push(p),
            None => rest,
        }
    }
}

/// The texts of an entry.
pub open spec fn entry_texts(e: OrderbookEntry) -> (Seq<char>, Seq<char>) {
    (e.outcome@, e.best_ask@)
}

pub open spec fn entries_texts(s: Seq<OrderbookEntry>) -> Seq<(Seq<char>, Seq<char>)> {
    s.map_values(|e: OrderbookEntry| entry_texts(e))
}

/// The CLOB query for the book of a token.
pub open spec fn orderbook_url_text(token: Seq<char>) -> Seq<char> {
    "https://clob.polymarket.com/book?token_id="@ + token
}

/// Builds the CLOB query for the book of a token.
pub fn orderbook_url(token: &str) -> (r: String)
    ensures
        r@ == orderbook_url_text(token@),
{
    let mut url = "https://clob.polymarket.com/book?token_id=".to_owned();
    url.append(token);
    url
}

fn label_at(outcomes: &Vec<String>, i: usize) -> (r: String)
    ensures
        r@ == outcome_label(crate::json::texts(outcomes@), i as int),
{
    if i < outcomes.len() {
        outcomes[i].clone()
    } else {
        "Unknown".to_owned()
    }
}

/// The best ask of each outcome whose book was fetched (`Some`) and has an ask,
/// labelled with the outcome at the same position (or "Unknown"), in token order.
pub fn collect_orderbook_entries(outcomes: &Vec<String>, books: &Vec<Option<Book>>) -> (r: Vec<
    OrderbookEntry,
>)
    ensures
        entries_texts(r@) == book_entries(crate::json::texts(outcomes@), books@),
{
    let ghost labels = crate::json::texts(outcomes@);
    let mut out: Vec<OrderbookEntry> = Vec::new();
    let mut i: usize = 0;
    while i < books.len()
        invariant
            i <= books@.len(),
            labels == crate::json::texts(outcomes@),
            entries_texts(out@) == book_entries(labels, books@.take(i as int)),
        decreases books@.len() - i,
    {
        proof {
            assert(books@.take(i + 1).drop_last() =~= books@.take(i as int));
            assert(books@.take(i + 1).last() == books@[i as int]);
        }
        match &books[i] {
            Some(book) => match best_ask(book) {
                Some(ask) => {
                    let outcome = label_at(outcomes, i);
                    out.push(OrderbookEntry { outcome, best_ask: ask });
                },
                None => {},
            },
            None => {},
        }
        proof {
            assert(entries_texts(out@) =~= book_entries(labels, books@.take(i + 1)));
        }
        i = i + 1;
    }
    assert(books@.take(books@.len() as int) =~= books@);
    out
}

} // verus!
