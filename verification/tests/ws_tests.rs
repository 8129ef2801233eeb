use latex_telegram_bot::orderbook::{Book, PriceLevel};
use latex_telegram_bot::ws::{
    book_seed, change_asks, frame_action, price_line, route_message, subscription_message,
    FrameAction, FrameKind, MessageRoute, PriceChange,
};

fn s(x: &str) -> Option<String> {
    Some(x.to_string())
}

fn pair(a: &str, b: &str) -> (String, String) {
    (a.to_string(), b.to_string())
}

#[test]
fn subscription_for_tokens() {
    let tokens = vec![pair("111", "Fuego"), pair("222", "AB3")];
    assert_eq!(subscription_message(&tokens), "{\"assets_ids\":[\"111\",\"222\"],\"type\":\"market\"}");
    assert_eq!(subscription_message(&vec![]), "{\"assets_ids\":[],\"type\":\"market\"}");
    let odd = vec![pair("a\"b", "x")];
    assert_eq!(subscription_message(&odd), "{\"assets_ids\":[\"a\\\"b\"],\"type\":\"market\"}");
}

#[test]
fn frames_decided() {
    assert_eq!(frame_action(FrameKind::Text), FrameAction::HandleMessage);
    assert_eq!(frame_action(FrameKind::Ping), FrameAction::Pong);
    assert_eq!(frame_action(FrameKind::Close), FrameAction::Stop);
    assert_eq!(frame_action(FrameKind::Other), FrameAction::Ignore);
}

#[test]
fn messages_routed() {
    assert_eq!(route_message(&s("price_change")), MessageRoute::PriceChange);
    assert_eq!(route_message(&s("book")), MessageRoute::Book);
    assert_eq!(route_message(&s("last_trade_price")), MessageRoute::LastTradePrice);
    assert_eq!(route_message(&s("tick_size_change")), MessageRoute::Unhandled);
    assert_eq!(route_message(&None), MessageRoute::Acknowledgement);
}

#[test]
fn book_snapshot_seed() {
    let book = Book { asks: Some(vec![PriceLevel { price: s("0.9") }, PriceLevel { price: s("0.47") }]) };
    assert_eq!(book_seed(&s("111"), &book), Some(pair("111", "0.47")));
    assert_eq!(book_seed(&None, &book), None);
    assert_eq!(book_seed(&s("111"), &Book { asks: Some(vec![]) }), None);
}

fn change(id: Option<&str>, ask: Option<&str>, side: Option<&str>, size: Option<&str>) -> PriceChange {
    PriceChange {
        asset_id: id.map(|x| x.to_string()),
        best_ask: ask.map(|x| x.to_string()),
        side: side.map(|x| x.to_string()),
        size: size.map(|x| x.to_string()),
    }
}

#[test]
fn asks_offered_by_a_change() {
    let changes = vec![
        change(Some("111"), Some("0.5"), Some("BUY"), Some("10")),
        change(None, Some("0.4"), None, None),
        change(Some("222"), None, Some("SELL"), Some("0")),
    ];
    assert_eq!(change_asks(&changes), vec![pair("111", "0.5"), pair("", "0.4")]);
}

#[test]
fn line_labels_of_a_change() {
    let tokens = vec![pair("111", "Fuego"), pair("222", "AB3"), pair("111", "Fuego FC")];
    let changes = vec![
        change(Some("111"), Some("0.5"), Some("BUY"), Some("0")),
        change(Some("333"), Some("0.4"), None, Some("5")),
    ];
    let line = price_line(&changes, &tokens).unwrap();
    assert_eq!(line.id_a, "111");
    assert_eq!(line.id_b, "333");
    assert_eq!(line.name_a, "Fuego FC");
    assert_eq!(line.name_b, "Token B");
    assert_eq!(line.side_a, "BUY");
    assert_eq!(line.side_b, "?");
    assert_eq!(line.size_label, "CANCEL");
    let changes = vec![change(None, None, None, Some("12.5")), change(Some("222"), None, Some("SELL"), None)];
    let line = price_line(&changes, &tokens).unwrap();
    assert_eq!(line.name_a, "Token A");
    assert_eq!(line.name_b, "AB3");
    assert_eq!(line.size_label, "12.5");
    assert!(price_line(&vec![change(Some("111"), None, None, None)], &tokens).is_none());
}
