use latex_telegram_bot::events::{filter_game_events, Event, Market, Tag};
use latex_telegram_bot::timestamp::{parse_rfc3339, Timestamp};
use latex_telegram_bot::orderbook::OrderbookEntry;
use latex_telegram_bot::report::{
    assemble_summaries, build_event_jobs, event_report_lines, event_tag_labels, flatten_jobs,
    join_strings, MarketEntry,
};

fn s(x: &str) -> Option<String> {
    Some(x.to_string())
}

fn moneyline(q: &str, tokens: &str, outcomes: &str) -> Market {
    Market {
        sports_market_type: s("moneyline"),
        question: s(q),
        clob_token_ids: s(tokens),
        outcomes: s(outcomes),
    }
}

fn game(id: &str, title: &str, end: Option<&str>, markets: Vec<Market>) -> Event {
    Event {
        id: s(id),
        title: s(title),
        slug: s(&format!("slug-{}", id)),
        end_date: end.map(|x| x.to_string()),
        tags: Some(vec![
            Tag { id: s("1"), label: s("Sports") },
            Tag { id: s("100639"), label: s("Games") },
            Tag { id: None, label: s("No id") },
        ]),
        markets: Some(markets),
    }
}

fn entry(outcome: &str, ask: &str) -> OrderbookEntry {
    OrderbookEntry { outcome: outcome.to_string(), best_ask: ask.to_string() }
}

#[test]
fn tag_labels_of_an_event() {
    let e = game("1", "A vs. B", None, vec![]);
    assert_eq!(event_tag_labels(&e), vec!["1:Sports".to_string(), "100639:Games".to_string()]);
}

#[test]
fn jobs_flattened_and_assembled() {
    let e1 = game(
        "1",
        "Brondby vs. Sonderjyske",
        Some("2026-02-23T18:00:00Z"),
        vec![
            moneyline("Will Brondby win?", "[\"a1\",\"a2\"]", "[\"Yes\",\"No\"]"),
            moneyline("Draw?", "[\"d1\",\"d2\"]", "[\"Yes\",\"No\"]"),
        ],
    );
    let e2 = game("2", "C vs. D", Some("2026-02-23T20:00:00Z"), vec![moneyline("Will C win?", "[\"c1\",\"c2\"]", "[\"Yes\",\"No\"]")]);
    let e3 = game("3", "E vs. F", Some("2026-02-23T21:00:00Z"), vec![]);
    let games = vec![&e1, &e2, &e3];
    let jobs = build_event_jobs(&games);
    assert_eq!(jobs.len(), 3);
    assert_eq!(jobs[0].markets.len(), 2);
    assert_eq!(jobs[0].markets[1].question, "Draw?");
    assert_eq!(jobs[1].markets[0].tokens, vec!["c1".to_string(), "c2".to_string()]);
    let flat = flatten_jobs(&jobs);
    let positions: Vec<(usize, String)> = flat.iter().map(|f| (f.event_idx, f.market.question.clone())).collect();
    assert_eq!(
        positions,
        vec![
            (0, "Will Brondby win?".to_string()),
            (0, "Draw?".to_string()),
            (1, "Will C win?".to_string()),
        ]
    );
    let books = vec![
        vec![entry("Yes", "0.5"), entry("No", "0.51")],
        vec![entry("Yes", "0.3")],
        vec![entry("Yes", "0.6"), entry("No", "0.45")],
    ];
    let summaries = assemble_summaries(&jobs, &flat, &books).unwrap();
    assert_eq!(summaries.len(), 2);
    assert_eq!(summaries[0].id, "1");
    assert_eq!(summaries[0].slug, "slug-1");
    assert_eq!(summaries[0].end_date_hst, "February 23, 2026 08:00 AM HST");
    assert_eq!(summaries[0].tag_id, vec!["1:Sports".to_string(), "100639:Games".to_string()]);
    assert_eq!(summaries[0].market_entries.len(), 1);
    assert_eq!(summaries[0].market_entries[0].question, "Will Brondby win?");
    assert_eq!(summaries[0].market_entries[0].sports_market_type, "moneyline");
    assert_eq!(summaries[0].market_entries[0].sides[1].best_ask, "0.51");
    assert_eq!(summaries[1].id, "2");
    assert_eq!(summaries[1].end_date_hst, "February 23, 2026 10:00 AM HST");
    for summary in summaries.iter() {
        assert!(!summary.market_entries.is_empty());
        for m in summary.market_entries.iter() {
            assert!(m.sides.len() >= 2);
        }
    }
}

#[test]
fn assembly_stops_on_unreadable_end_date() {
    let e1 = game("1", "A", Some("2026-02-23T18:00:00Z"), vec![]);
    let e2 = game("2", "B", None, vec![]);
    let games = vec![&e1, &e2];
    let jobs = build_event_jobs(&games);
    let flat = flatten_jobs(&jobs);
    let books: Vec<Vec<OrderbookEntry>> = Vec::new();
    assert!(assemble_summaries(&jobs, &flat, &books).is_none());
    let games = vec![&e1];
    let jobs = build_event_jobs(&games);
    let flat = flatten_jobs(&jobs);
    assert_eq!(assemble_summaries(&jobs, &flat, &books).unwrap().len(), 0);
}

#[test]
fn assembly_walks_only_fetched_books() {
    let e1 = game("1", "A", Some("2026-02-23T18:00:00Z"), vec![moneyline("Q1", "[]", "[]"), moneyline("Q2", "[]", "[]")]);
    let games = vec![&e1];
    let jobs = build_event_jobs(&games);
    let flat = flatten_jobs(&jobs);
    let books = vec![vec![entry("Yes", "0.5"), entry("No", "0.5")]];
    let summaries = assemble_summaries(&jobs, &flat, &books).unwrap();
    assert_eq!(summaries.len(), 1);
    assert_eq!(summaries[0].market_entries.len(), 1);
    assert_eq!(summaries[0].market_entries[0].question, "Q1");
}

#[test]
fn joining_texts() {
    let v = vec!["a".to_string(), "b".to_string(), "c".to_string()];
    assert_eq!(join_strings(&v, ", "), "a, b, c");
    assert_eq!(join_strings(&vec![], ", "), "");
    assert_eq!(join_strings(&vec!["x".to_string()], ", "), "x");
}

#[test]
fn lines_shown_for_an_event() {
    let tags = vec!["1:Sports".to_string(), "100639:Games".to_string()];
    let entries = vec![MarketEntry {
        question: "Will A win?".to_string(),
        sides: vec![entry("Yes", "0.5"), entry("No", "0.51")],
        sports_market_type: "moneyline".to_string(),
    }];
    let lines = event_report_lines("A vs. B", "February 23, 2026 08:00 AM HST", &tags, &entries);
    assert_eq!(
        lines,
        vec![
            "EVENT: A vs. B | EndDate: February 23, 2026 08:00 AM HST".to_string(),
            "  Tags: 1:Sports, 100639:Games".to_string(),
            "  Market: Will A win?".to_string(),
            "    Yes | Ask: 0.5".to_string(),
            "    No | Ask: 0.51".to_string(),
        ]
    );
}

#[test]
fn whole_run_reports_games_in_window_with_two_sided_markets() {
    let in_window = game("1", "A vs. B", Some("2026-02-23T18:00:00Z"), vec![
        moneyline("One side?", "[\"x1\"]", "[\"Yes\"]"),
        moneyline("Will A win?", "[\"a1\",\"a2\"]", "[\"Yes\",\"No\"]"),
    ]);
    let too_late = game("2", "C vs. D", Some("2026-02-24T18:00:00Z"), vec![moneyline("Will C win?", "[]", "[]")]);
    let mut not_a_game = game("3", "Election", Some("2026-02-23T19:00:00Z"), vec![moneyline("Who?", "[]", "[]")]);
    not_a_game.tags = Some(vec![Tag { id: s("2"), label: s("Politics") }]);
    let later_game = game("4", "E vs. F", Some("2026-02-23T21:00:00+00:00"), vec![
        moneyline("Will E win?", "[\"e1\",\"e2\"]", "[\"Yes\",\"No\"]"),
    ]);
    let no_books = game("5", "G vs. H", Some("2026-02-23T22:00:00Z"), vec![]);
    let events = vec![in_window, too_late, not_a_game, later_game, no_books];
    let now = parse_rfc3339("2026-02-23T12:00:00Z").unwrap();
    let window_end = Timestamp { secs: now.secs + 12 * 3600, nanos: now.nanos };
    let games = filter_game_events(&events, now, window_end);
    let ids: Vec<String> = games.iter().map(|e| e.id.clone().unwrap()).collect();
    assert_eq!(ids, vec!["1".to_string(), "4".to_string(), "5".to_string()]);
    let jobs = build_event_jobs(&games);
    let flat = flatten_jobs(&jobs);
    assert_eq!(flat.len(), 3);
    let books = vec![
        vec![entry("Yes", "0.4")],
        vec![entry("Yes", "0.55"), entry("No", "0.47")],
        vec![entry("Yes", "0.2"), entry("No", "0.81")],
    ];
    let summaries = assemble_summaries(&jobs, &flat, &books).unwrap();
    assert_eq!(summaries.len(), 2);
    assert_eq!(summaries[0].id, "1");
    assert_eq!(summaries[0].market_entries.len(), 1);
    assert_eq!(summaries[0].market_entries[0].question, "Will A win?");
    assert_eq!(summaries[0].market_entries[0].sides[0].best_ask, "0.55");
    assert_eq!(summaries[1].id, "4");
    assert_eq!(summaries[1].end_date_hst, "February 23, 2026 11:00 AM HST");
    assert_eq!(summaries[1].market_entries[0].question, "Will E win?");
    assert_eq!(summaries[1].market_entries[0].sides[1].best_ask, "0.81");
}
