use latex_telegram_bot::events::{
    collect_tag_results, dedup_events, extract_moneyline_markets, filter_game_events,
    tag_events_url, Event, Market, Tag,
};
use latex_telegram_bot::timestamp::Timestamp;

fn s(x: &str) -> Option<String> {
    Some(x.to_string())
}

fn tag(id: &str, label: &str) -> Tag {
    Tag { id: s(id), label: s(label) }
}

fn event(id: Option<&str>, end: Option<&str>, tags: Option<Vec<Tag>>) -> Event {
    Event {
        id: id.map(|x| x.to_string()),
        title: s("A vs. B"),
        slug: s("a-vs-b"),
        end_date: end.map(|x| x.to_string()),
        tags,
        markets: None,
    }
}

fn ids(events: &[Event]) -> Vec<Option<String>> {
    events.iter().map(|e| e.id.clone()).collect()
}

const NOW: Timestamp = Timestamp { secs: 1771869600, nanos: 0 };
const END: Timestamp = Timestamp { secs: 1771869600 + 8 * 3600, nanos: 0 };

#[test]
fn game_filter_keeps_games_in_window() {
    let events = vec![
        event(s("1").as_deref(), Some("2026-02-23T20:00:00Z"), Some(vec![tag("1", "Sports"), tag("100639", "Games")])),
        event(s("2").as_deref(), Some("2026-02-23T20:00:00Z"), Some(vec![tag("1", "Sports")])),
        event(s("3").as_deref(), Some("2026-02-24T20:00:00Z"), Some(vec![tag("100639", "Games")])),
        event(s("4").as_deref(), Some("2026-02-23T18:00:00Z"), Some(vec![tag("100639", "Games")])),
        event(s("5").as_deref(), Some("2026-02-24T02:00:00Z"), Some(vec![tag("100639", "Games")])),
        event(s("6").as_deref(), None, Some(vec![tag("100639", "Games")])),
        event(s("7").as_deref(), Some("tomorrow"), Some(vec![tag("100639", "Games")])),
        event(s("8").as_deref(), Some("2026-02-23T19:00:00Z"), None),
        event(s("9").as_deref(), Some("2026-02-23T19:00:00+01:00"), Some(vec![Tag { id: None, label: s("Games") }, tag("100639", "Games")])),
    ];
    let kept = filter_game_events(&events, NOW, END);
    let kept_ids: Vec<Option<String>> = kept.iter().map(|e| e.id.clone()).collect();
    // "4" ends exactly at now (excluded); "5" exactly at the window end (included);
    // "9" is 18:00 UTC, i.e. exactly now (excluded).
    assert_eq!(kept_ids, vec![s("1"), s("5")]);
}

#[test]
fn game_filter_law_on_values() {
    let events = vec![
        event(s("1").as_deref(), Some("2026-02-23T20:00:00Z"), Some(vec![tag("100639", "Games")])),
        event(s("2").as_deref(), Some("2026-02-23T21:00:00Z"), Some(vec![tag("100639", "Games")])),
    ];
    let kept = filter_game_events(&events, NOW, END);
    assert_eq!(kept.len(), 2);
    assert_eq!(kept[0].id, s("1"));
    assert_eq!(kept[1].id, s("2"));
    let none = filter_game_events(&events, END, END);
    assert!(none.is_empty());
}

#[test]
fn dedup_keeps_first_of_each_id() {
    let mut events = vec![
        event(Some("a"), None, None),
        event(Some("b"), None, None),
        event(Some("a"), Some("x"), None),
        event(None, None, None),
        event(Some(""), None, None),
        event(Some("c"), None, None),
        event(Some("b"), None, None),
        event(None, None, None),
    ];
    dedup_events(&mut events);
    assert_eq!(ids(&events), vec![s("a"), s("b"), None, s("c")]);
    assert_eq!(events[0].end_date, None);
}

#[test]
fn dedup_law_on_values() {
    let mut events = vec![
        event(Some("x"), None, None),
        event(Some("y"), None, None),
        event(Some("x"), None, None),
        event(Some("z"), None, None),
        event(Some("y"), None, None),
    ];
    dedup_events(&mut events);
    let kept = ids(&events);
    for i in 0..kept.len() {
        for j in (i + 1)..kept.len() {
            assert_ne!(kept[i], kept[j]);
        }
    }
    for id in ["x", "y", "z"].iter() {
        assert!(kept.contains(&s(id)));
    }
}

#[test]
fn dedup_of_empty_list() {
    let mut events: Vec<Event> = Vec::new();
    dedup_events(&mut events);
    assert!(events.is_empty());
}

fn market(kind: Option<&str>, q: Option<&str>, tokens: Option<&str>, outcomes: Option<&str>) -> Market {
    Market {
        sports_market_type: kind.map(|x| x.to_string()),
        question: q.map(|x| x.to_string()),
        clob_token_ids: tokens.map(|x| x.to_string()),
        outcomes: outcomes.map(|x| x.to_string()),
    }
}

#[test]
fn moneyline_markets_of_an_event() {
    let mut e = event(Some("1"), None, None);
    e.markets = Some(vec![
        market(Some("moneyline"), Some("Will A win?"), Some("[\"t1\", \"t2\"]"), Some("[\"Yes\",\"No\"]")),
        market(Some("spreads"), Some("Spread?"), Some("[\"t3\"]"), Some("[\"Yes\"]")),
        market(Some("moneyline"), None, Some("[\"t4\"]"), Some("[\"Yes\"]")),
        market(Some("moneyline"), Some("Draw?"), None, Some("not json")),
        market(None, Some("No type"), Some("[]"), Some("[]")),
        market(Some("moneyline"), Some("Escaped?"), Some("[\"a\\\"b\"]"), Some("[\"\\u00e9\"]")),
    ]);
    let found = extract_moneyline_markets(&e);
    assert_eq!(found.len(), 3);
    assert_eq!(found[0].0, "Will A win?");
    assert_eq!(found[0].1, vec!["t1".to_string(), "t2".to_string()]);
    assert_eq!(found[0].2, vec!["Yes".to_string(), "No".to_string()]);
    assert_eq!(found[1].0, "Draw?");
    assert!(found[1].1.is_empty());
    assert!(found[1].2.is_empty());
    assert_eq!(found[2].1, vec!["a\"b".to_string()]);
    assert_eq!(found[2].2, vec!["é".to_string()]);
}

#[test]
fn moneyline_markets_without_markets() {
    let e = event(Some("1"), None, None);
    assert!(extract_moneyline_markets(&e).is_empty());
}

#[test]
fn events_url_of_a_tag() {
    assert_eq!(
        tag_events_url("2026-02-23T18:00:00Z", "100639"),
        "https://gamma-api.polymarket.com/events?limit=50&end_date_min=2026-02-23T18:00:00Z&closed=false&tag_id=100639"
    );
}

#[test]
fn tag_results_joined_in_order() {
    let per_tag = vec![
        vec![event(Some("a"), None, None), event(Some("b"), None, None)],
        vec![],
        vec![event(Some("c"), None, None)],
    ];
    let all = collect_tag_results(per_tag);
    assert_eq!(ids(&all), vec![s("a"), s("b"), s("c")]);
}
