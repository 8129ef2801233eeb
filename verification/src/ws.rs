//! The decisions of the live price monitor on the CLOB market channel: what it
//! subscribes with, what it does with each frame and message, which asks it
//! records, and the labels of the line it shows for a price change.
//!
//! Prices stay text here; reading them as numbers, summing the two sides and
//! flagging a sum below the arbitrage threshold is floating point, left to the
//! application.
use vstd::prelude::*;
use crate::events::{opt_text, text_eq, text_or_empty};
use crate::json::{json_list_and_text_object, spec_json_list_and_text_object, texts};
use crate::orderbook::{Book, best_ask, best_ask_of};

verus! {

/// The token ids of (token id, outcome name) pairs.
pub open spec fn token_ids(tokens: Seq<(String, String)>) -> Seq<Seq<char>> {
    tokens.map_values(|p: (String, String)| p.0@)
}

/// The subscription message for the tokens' market channel: the JSON object
/// whose `assets_ids` are the token ids and whose `type` is `market`.
pub open spec fn subscription_text(tokens: Seq<(String, String)>) -> Seq<char> {
    spec_json_list_and_text_object("assets_ids"@, token_ids(tokens), "type"@, "market"@)
}

/// Builds the subscription message for the tokens' market channel.
pub fn subscription_message(tokens: &Vec<(String, String)>) -> (r: String)
    ensures
        r@ == subscription_text(tokens@),
{
    let mut ids: Vec<String> = Vec::new();
    let mut i: usize = 0;
    while i < tokens.len()
        invariant
            i <= tokens@.len(),
            texts(ids@) == token_ids(tokens@.take(i as int)),
        decreases tokens@.len() - i,
    {
        let ghost old_ids = ids@;
        let id = tokens[i].0.clone();
        ids.push(id);
        i = i + 1;
        proof {
            assert(tokens@.take(i as int) =~= tokens@.take(i - 1).push(tokens@[i - 1]));
            assert(texts(ids@) =~= texts(old_ids).push(id@));
            assert(texts(ids@) =~= token_ids(tokens@.take(i as int)));
        }
    }
    assert(tokens@.take(tokens@.len() as int) =~= tokens@);
    json_list_and_text_object("assets_ids", &ids, "type", "market")
}

/// The kinds of frame the socket delivers.
#[derive(Debug, PartialEq, Eq, Structural)]
pub enum FrameKind {
    Text,
    Ping,
    Close,
    Other,
}

/// What the monitor does with a frame.
#[derive(Debug, PartialEq, Eq, Structural)]
pub enum FrameAction {
    /// Read the text as a market message.
    HandleMessage,
    /// Answer with a pong carrying the ping's data.
    Pong,
    /// The server closed the stream: stop reading.
    Stop,
    /// Nothing to do.
    Ignore,
}

/// Decides what to do with a frame of the stream.
pub fn frame_action(kind: FrameKind) -> (r: FrameAction)
    ensures
        kind == FrameKind::Text ==> r == FrameAction::HandleMessage,
        kind == FrameKind::Ping ==> r == FrameAction::Pong,
        kind == FrameKind::Close ==> r == FrameAction::Stop,
        kind == FrameKind::Other ==> r == FrameAction::Ignore,
{
    match kind {
        FrameKind::Text => FrameAction::HandleMessage,
        FrameKind::Ping => FrameAction::Pong,
        FrameKind::Close => FrameAction::Stop,
        FrameKind::Other => FrameAction::Ignore,
    }
}

/// Where a market message goes, by its `event_type`.
#[derive(Debug, PartialEq, Eq, Structural)]
pub enum MessageRoute {
    /// `price_change`: record the asks and show a line.
    PriceChange,
    /// `book`: record the best ask of the snapshot, silently.
    Book,
    /// `last_trade_price`: nothing changes.
    LastTradePrice,
    /// Any other event type: reported as unhandled.
    Unhandled,
    /// No event type (a subscription acknowledgement): ignored.
    Acknowledgement,
}

pub open spec fn route_of(event_type: Option<Seq<char>>) -> MessageRoute {
    match event_type {
        Some(t) => if t == "price_change"@ {
            MessageRoute::PriceChange
        } else if t == "book"@ {
            MessageRoute::Book
        } else if t == "last_trade_price"@ {
            MessageRoute::LastTradePrice
        } else {
            MessageRoute::Unhandled
        },
        None => MessageRoute::Acknowledgement,
    }
}

/// Routes a market message by its `event_type` string.
pub fn route_message(event_type: &Option<String>) -> (r: MessageRoute)
    ensures
        r == route_of(opt_text(*event_type)),
{
    match event_type {
        Some(t) => if text_eq(t, "price_change") {
            MessageRoute::PriceChange
        } else if text_eq(t, "book") {
            MessageRoute::Book
        } else if text_eq(t, "last_trade_price") {
            MessageRoute::LastTradePrice
        } else {
            MessageRoute::Unhandled
        },
        None => MessageRoute::Acknowledgement,
    }
}

/// The ask a `book` snapshot records: its `asset_id` and best (last) ask price.
pub open spec fn book_seed_of(asset_id: Option<String>, book: Book) -> Option<(Seq<char>, Seq<char>)> {
    match (asset_id, best_ask_of(book)) {
        (Some(id), Some(p)) => Some((id@, p)),
        _ => None,
    }
}

/// The token and ask price a `book` snapshot seeds: none without an
/// `asset_id` or without an ask price.
pub fn book_seed(asset_id: &Option<String>, book: &Book) -> (r: Option<(String, String)>)
    ensures
        match r {
            Some(p) => book_seed_of(*asset_id, *book) == Some((p.0@, p.1@)),
            None => book_seed_of(*asset_id, *book) is None,
        },
{
    match asset_id {
        Some(id) => match best_ask(book) {
            Some(p) => Some((id.clone(), p)),
            None => None,
        },
        None => None,
    }
}

/// One entry of a `price_change` message.
pub struct PriceChange {
    pub asset_id: Option<String>,
    pub best_ask: Option<String>,
    pub side: Option<String>,
    pub size: Option<String>,
}

/// The (token id, ask price) a change offers for recording: its `asset_id` (or
/// the empty text) and its `best_ask` string, where it has one.
pub open spec fn change_ask(c: PriceChange) -> Option<(Seq<char>, Seq<char>)> {
    match c.best_ask {
        Some(a) => Some((text_or_empty(c.asset_id), a@)),
        None => None,
    }
}

pub open spec fn pairs_texts(s: Seq<(String, String)>) -> Seq<(Seq<char>, Seq<char>)> {
    s.map_values(|p: (String, String)| (p.0@, p.1@))
}

/// The asks a `price_change` message offers, in order; the ones whose price
/// reads as a number are recorded, a later one for a token replacing an earlier.
pub fn change_asks(changes: &Vec<PriceChange>) -> (r: Vec<(String, String)>)
    ensures
        pairs_texts(r@) == changes@.filter_map(|c: PriceChange| change_ask(c)),
{
    let ghost f = |c: PriceChange| change_ask(c);
    let mut out: Vec<(String, String)> = Vec::new();
    let mut i: usize = 0;
    while i < changes.len()
        invariant
            i <= changes@.len(),
            f == (|c: PriceChange| change_ask(c)),
            pairs_texts(out@) == changes@.take(i as int).filter_map(f),
        decreases changes@.len() - i,
    {
        proof {
            changes@.lemma_filter_map_take_succ(f, i as int);
        }
        let c = &changes[i];
        match &c.best_ask {
            Some(a) => {
                let id = match &c.asset_id {
                    Some(s) => s.clone(),
                    None => String::new(),
                };
                out.push((id, a.clone()));
            },
            None => {},
        }
        proof {
            assert(pairs_texts(out@) =~= changes@.take(i + 1).filter_map(f));
        }
        i = i + 1;
    }
    assert(changes@.take(changes@.len() as int) =~= changes@);
    out
}

/// The outcome name of a token: the name paired with it last.
pub open spec fn name_of(tokens: Seq<(String, String)>, id: Seq<char>) -> Option<Seq<char>>
    decreases tokens.len(),
{
    if tokens.len() == 0 {
        None
    } else if tokens.last().0@ == id {
        Some(tokens.last().1@)
    } else {
        name_of(tokens.drop_last(), id)
    }
}

proof fn lemma_name_found(tokens: Seq<(String, String)>, id: Seq<char>)
    ensures
        name_of(tokens, id) is Some <==> exists|k: int|
            0 <= k < tokens.len() && (#[trigger] tokens[k]).0@ == id,
    decreases tokens.len(),
{
    if tokens.len() > 0 {
        let init = tokens.drop_last();
        lemma_name_found(init, id);
        if exists|k: int| 0 <= k < tokens.len() && (#[trigger] tokens[k]).0@ == id {
            let k = choose|k: int| 0 <= k < tokens.len() && (#[trigger] tokens[k]).0@ == id;
            if k < tokens.len() - 1 {
                assert(init[k] == tokens[k]);
            }
        }
        if exists|k: int| 0 <= k < init.len() && (#[trigger] init[k]).0@ == id {
            let k = choose|k: int| 0 <= k < init.len() && (#[trigger] init[k]).0@ == id;
            assert(init[k] == tokens[k]);
        }
    }
}

proof fn lemma_name_last(tokens: Seq<(String, String)>, id: Seq<char>, k: int)
    requires
        0 <= k < tokens.len(),
        tokens[k].0@ == id,
        forall|m: int| k < m < tokens.len() ==> (#[trigger] tokens[m]).0@ != id,
    ensures
        name_of(tokens, id) == Some(tokens[k].1@),
    decreases tokens.len(),
{
    let last = tokens.len() - 1;
    if k < last {
        assert(tokens[last].0@ != id);
        let init = tokens.drop_last();
        assert forall|m: int| k < m < init.len() implies (#[trigger] init[m]).0@ != id by {
            assert(init[m] == tokens[m]);
        }
        lemma_name_last(init, id, k);
    }
}

/// A token's name is found exactly when some pair has its id, and then it is the
/// name of the last pair with that id, as a map filled pair by pair keeps it.
pub proof fn lemma_name_is_last_paired(tokens: Seq<(String, String)>, id: Seq<char>, k: int)
    ensures
        name_of(tokens, id) is Some <==> exists|j: int|
            0 <= j < tokens.len() && (#[trigger] tokens[j]).0@ == id,
        (0 <= k < tokens.len() && tokens[k].0@ == id && forall|m: int|
            k < m < tokens.len() ==> (#[trigger] tokens[m]).0@ != id) ==> name_of(tokens, id)
            == Some(tokens[k].1@),
{
    lemma_name_found(tokens, id);
    if 0 <= k < tokens.len() && tokens[k].0@ == id && forall|m: int|
        k < m < tokens.len() ==> (#[trigger] tokens[m]).0@ != id {
        lemma_name_last(tokens, id, k);
    }
}

fn lookup_name(tokens: &Vec<(String, String)>, id: &String) -> (r: Option<String>)
    ensures
        opt_text(r) == name_of(tokens@, id@),
{
    let mut found: Option<String> = None;
    let mut i: usize = 0;
    while i < tokens.len()
        invariant
            i <= tokens@.len(),
            opt_text(found) == name_of(tokens@.take(i as int), id@),
        decreases tokens@.len() - i,
    {
        proof {
            assert(tokens@.take(i + 1).drop_last() =~= tokens@.take(i as int));
            assert(tokens@.take(i + 1).last() == tokens@[i as int]);
        }
        if tokens[i].0.eq(id) {
            found = Some(tokens[i].1.clone());
        }
        i = i + 1;
    }
    assert(tokens@.take(tokens@.len() as int) =~= tokens@);
    found
}

/// The labels of the line shown for a price change with two entries.
pub struct PriceLine {
    pub id_a: String,
    pub id_b: String,
    pub name_a: String,
    pub name_b: String,
    pub side_a: String,
    pub side_b: String,
    pub size_label: String,
}

pub open spec fn text_or(o: Option<String>, default: Seq<char>) -> Seq<char> {
    match o {
        Some(s) => s@,
        None => default,
    }
}

pub open spec fn name_or(n: Option<Seq<char>>, default: Seq<char>) -> Seq<char> {
    match n {
        Some(s) => s,
        None => default,
    }
}

/// The size label: "CANCEL" for a size of "0", else the size (or "?").
pub open spec fn size_label_of(size: Option<String>) -> Seq<char> {
    if text_or(size, "?"@) == "0"@ {
        "CANCEL"@
    } else {
        text_or(size, "?"@)
    }
}

/// A size is shown as a cancel only when it is exactly "0"; any other size is
/// shown as it came, and a missing size as "?".
pub proof fn lemma_size_label_cancels_only_zero(size: Option<String>)
    ensures
        size is None ==> size_label_of(size) == "?"@,
        size matches Some(s) ==> (s@ == "0"@ ==> size_label_of(size) == "CANCEL"@),
        size matches Some(s) ==> (s@ != "0"@ ==> size_label_of(size) == s@),
{
    reveal_strlit("?");
    reveal_strlit("0");
    assert("?"@[0] != "0"@[0]);
}

/// The labels of the line for the first two entries of a price change: token
/// ids (or empty), outcome names (or "Token A" / "Token B"), sides (or "?"), and
/// the first entry's size label. `None` for fewer than two entries.
pub fn price_line(changes: &Vec<PriceChange>, tokens: &Vec<(String, String)>) -> (r: Option<PriceLine>)
    ensures
        changes@.len() < 2 <==> r is None,
        r matches Some(line) ==> {
            let a = changes@[0];
            let b = changes@[1];
            &&& line.id_a@ == text_or_empty(a.asset_id)
            &&& line.id_b@ == text_or_empty(b.asset_id)
            &&& line.name_a@ == name_or(name_of(tokens@, text_or_empty(a.asset_id)), "Token A"@)
            &&& line.name_b@ == name_or(name_of(tokens@, text_or_empty(b.asset_id)), "Token B"@)
            &&& line.side_a@ == text_or(a.side, "?"@)
            &&& line.side_b@ == text_or(b.side, "?"@)
            &&& line.size_label@ == size_label_of(a.size)
        },
{
    if changes.len() < 2 {
        return None;
    }
    let a = &changes[0];
    let b = &changes[1];
    let id_a = match &a.asset_id {
        Some(s) => s.clone(),
        None => String::new(),
    };
    let id_b = match &b.asset_id {
        Some(s) => s.clone(),
        None => String::new(),
    };
    let name_a = match lookup_name(tokens, &id_a) {
        Some(n) => n,
        None => "Token A".to_owned(),
    };
    let name_b = match lookup_name(tokens, &id_b) {
        Some(n) => n,
        None => "Token B".to_owned(),
    };
    let side_a = match &a.side {
        Some(s) => s.clone(),
        None => "?".to_owned(),
    };
    let side_b = match &b.side {
        Some(s) => s.clone(),
        None => "?".to_owned(),
    };
    let size_a = match &a.size {
        Some(s) => s.clone(),
        None => "?".to_owned(),
    };
    let size_label = if text_eq(&size_a, "0") {
        "CANCEL".to_owned()
    } else {
        size_a
    };
    Some(PriceLine { id_a, id_b, name_a, name_b, side_a, side_b, size_label })
}

} // verus!
