use latex_telegram_bot::orderbook::{best_ask, collect_orderbook_entries, orderbook_url, Book, PriceLevel};

fn level(p: Option<&str>) -> PriceLevel {
    PriceLevel { price: p.map(|x| x.to_string()) }
}

fn book(levels: Option<Vec<PriceLevel>>) -> Book {
    Book { asks: levels }
}

#[test]
fn best_ask_is_last_level() {
    let b = book(Some(vec![level(Some("0.99")), level(Some("0.6")), level(Some("0.52"))]));
    assert_eq!(best_ask(&b), Some("0.52".to_string()));
    assert_eq!(best_ask(&book(Some(vec![]))), None);
    assert_eq!(best_ask(&book(None)), None);
    assert_eq!(best_ask(&book(Some(vec![level(Some("0.5")), level(None)]))), None);
}

#[test]
fn entries_of_fetched_books() {
    let outcomes = vec!["Yes".to_string(), "No".to_string()];
    let books = vec![
        Some(book(Some(vec![level(Some("0.7")), level(Some("0.5"))]))),
        None,
        Some(book(Some(vec![level(Some("0.51"))]))),
        Some(book(Some(vec![]))),
    ];
    let entries = collect_orderbook_entries(&outcomes, &books);
    assert_eq!(entries.len(), 2);
    assert_eq!(entries[0].outcome, "Yes");
    assert_eq!(entries[0].best_ask, "0.5");
    assert_eq!(entries[1].outcome, "Unknown");
    assert_eq!(entries[1].best_ask, "0.51");
}

#[test]
fn book_url_of_a_token() {
    assert_eq!(orderbook_url("12345"), "https://clob.polymarket.com/book?token_id=12345");
}
