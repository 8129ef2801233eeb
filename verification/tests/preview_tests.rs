use latex_telegram_bot::orderbook::OrderbookEntry;
use latex_telegram_bot::preview::{market_outcomes, market_tokens, preview_market_entries, token_outcome_pairs};

fn strings(v: &[&str]) -> Vec<String> {
    v.iter().map(|x| x.to_string()).collect()
}

fn markets() -> Vec<(String, Vec<String>, Vec<String>)> {
    vec![
        ("Will A win?".to_string(), strings(&["a1", "a2"]), strings(&["Yes", "No"])),
        ("Draw?".to_string(), strings(&["d1", "d2", "d3"]), strings(&["Yes", "No"])),
    ]
}

#[test]
fn tokens_and_outcomes_of_markets() {
    let m = markets();
    assert_eq!(market_tokens(&m), strings(&["a1", "a2", "d1", "d2", "d3"]));
    assert_eq!(market_outcomes(&m), strings(&["Yes", "No", "Yes", "No"]));
    let pairs = token_outcome_pairs(&m);
    assert_eq!(
        pairs,
        vec![
            ("a1".to_string(), "Yes".to_string()),
            ("a2".to_string(), "No".to_string()),
            ("d1".to_string(), "Yes".to_string()),
            ("d2".to_string(), "No".to_string()),
        ]
    );
}

#[test]
fn preview_asks_by_outcome() {
    let m = markets();
    let books = vec![
        OrderbookEntry { outcome: "Yes".to_string(), best_ask: "0.5".to_string() },
        OrderbookEntry { outcome: "Yes".to_string(), best_ask: "0.3".to_string() },
    ];
    let entries = preview_market_entries(&m, &books);
    assert_eq!(entries.len(), 2);
    assert_eq!(entries[0].question, "Will A win?");
    assert_eq!(entries[0].sides[0].outcome, "Yes");
    assert_eq!(entries[0].sides[0].best_ask, "0.3");
    assert_eq!(entries[0].sides[1].outcome, "No");
    assert_eq!(entries[0].sides[1].best_ask, "—");
    assert_eq!(entries[1].sports_market_type, "moneyline");
}
