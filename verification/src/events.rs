//! Events of the Polymarket Gamma API, as far as the bot reads them, and the
//! selection of upcoming games and their moneyline markets.
//!
//! Each field holds what the bot reads from the event's JSON object: `Some` when
//! the key is present with a value of the expected kind, `None` otherwise.
use vstd::prelude::*;
use crate::timestamp::{Timestamp, is_earlier, spec_parse_rfc3339, parse_rfc3339, earlier};
use crate::json::{texts, spec_json_string_list, json_string_list};

verus! {

/// A tag of an event: its `id` and `label` strings.
pub struct Tag {
    pub id: Option<String>,
    pub label: Option<String>,
}

/// A market of an event: `sportsMarketType`, `question`, and the JSON-encoded
/// string lists `clobTokenIds` and `outcomes`.
pub struct Market {
    pub sports_market_type: Option<String>,
    pub question: Option<String>,
    pub clob_token_ids: Option<String>,
    pub outcomes: Option<String>,
}

/// An event: its `id`, `title`, `slug` and `endDate` strings, and its `tags`
/// and `markets` arrays.
pub struct Event {
    pub id: Option<String>,
    pub title: Option<String>,
    pub slug: Option<String>,
    pub end_date: Option<String>,
    pub tags: Option<Vec<Tag>>,
    pub markets: Option<Vec<Market>>,
}

pub open spec fn opt_text(o: Option<String>) -> Option<Seq<char>> {
    match o {
        Some(s) => Some(s@),
        None => None,
    }
}

/// The text of an optional string field, or the empty text.
pub open spec fn text_or_empty(o: Option<String>) -> Seq<char> {
    match o {
        Some(s) => s@,
        None => Seq::empty(),
    }
}

/// The id of the tag that marks an event as a game.
pub open spec fn game_tag_id() -> Seq<char> {
    "100639"@
}

/// An event is a game when one of its tags has the game tag's id.
pub open spec fn is_game_event(e: Event) -> bool {
    match e.tags {
        Some(tags) => exists|i: int| 0 <= i < tags@.len() && opt_text(#[trigger] tags@[i].id)
            == Some(game_tag_id()),
        None => false,
    }
}

/// The event's end date, read as RFC 3339, lies in `(now, window_end]`.
pub open spec fn ends_within(e: Event, now: Timestamp, window_end: Timestamp) -> bool {
    match e.end_date {
        Some(s) => match spec_parse_rfc3339(s@) {
            Some(d) => is_earlier(now, d) && !is_earlier(window_end, d),
            None => false,
        },
        None => false,
    }
}

/// The events that `filter_game_events` keeps.
pub open spec fn is_game_in_window(e: Event, now: Timestamp, window_end: Timestamp) -> bool {
    is_game_event(e) && ends_within(e, now, window_end)
}

/// Whether a string equals a given text.
pub fn text_eq(s: &String, lit: &str) -> (r: bool)
    ensures
        r == (s@ == lit@),
{
    let other = lit.to_owned();
    s.eq(&other)
}

fn has_game_tag(e: &Event) -> (r: bool)
    ensures
        r == is_game_event(*e),
{
    match &e.tags {
        Some(tags) => {
            let mut i: usize = 0;
            while i < tags.len()
                invariant
                    i <= tags@.len(),
                    e.tags == Some(*tags),
                    forall|j: int| 0 <= j < i ==> opt_text(#[trigger] tags@[j].id) != Some(
                        game_tag_id(),
                    ),
                decreases tags@.len() - i,
            {
                match &tags[i].id {
                    Some(id) => {
                        if text_eq(id, "100639") {
                            assert(opt_text(tags@[i as int].id) == Some(game_tag_id()));
                            return true;
                        }
                    },
                    None => {},
                }
                i = i + 1;
            }
            false
        },
        None => false,
    }
}

fn end_date_within(e: &Event, now: Timestamp, window_end: Timestamp) -> (r: bool)
    ensures
        r == ends_within(*e, now, window_end),
{
    match &e.end_date {
        Some(s) => match parse_rfc3339(s.as_str()) {
            Some(d) => earlier(now, d) && !earlier(window_end, d),
            None => false,
        },
        None => false,
    }
}

/// Keeps the game events (tagged with the game tag) whose end date lies after
/// `now` and no later than `window_end`, in their order.
pub fn filter_game_events<'a>(events: &'a [Event], now: Timestamp, window_end: Timestamp) -> (r:
    Vec<&'a Event>)
    ensures
        r@.map_values(|e: &Event| *e) == games_in_window(events@, now, window_end),
{
    let ghost pred = |e: Event| is_game_in_window(e, now, window_end);
    let mut out: Vec<&'a Event> = Vec::new();
    let mut i: usize = 0;
    while i < events.len()
        invariant
            i <= events@.len(),
            pred == (|e: Event| is_game_in_window(e, now, window_end)),
            out@.map_values(|e: &Event| *e) == events@.take(i as int).filter(pred),
        decreases events@.len() - i,
    {
        proof {
            reveal_with_fuel(Seq::<_>::filter, 1);
            assert(events@.take(i + 1).drop_last() =~= events@.take(i as int));
        }
        let e = &events[i];
        if has_game_tag(e) && end_date_within(e, now, window_end) {
            out.push(e);
        }
        proof {
            assert(events@.take(i + 1).last() == events@[i as int]);
            assert(out@.map_values(|e: &Event| *e) =~= events@.take(i + 1).filter(pred));
        }
        i = i + 1;
    }
    assert(events@.take(events@.len() as int) =~= events@);
    out
}

/// The key by which events are told apart: the `id`, or the empty text.
pub open spec fn event_key(e: Event) -> Seq<char> {
    text_or_empty(e.id)
}

pub open spec fn has_key(s: Seq<Event>, k: Seq<char>) -> bool {
    exists|j: int| 0 <= j < s.len() && event_key(#[trigger] s[j]) == k
}

/// The events left when each is dropped whose key an earlier kept event has.
pub open spec fn dedup_by_key(s: Seq<Event>) -> Seq<Event>
    decreases s.len(),
{
    if s.len() == 0 {
        s
    } else {
        let kept = dedup_by_key(s.drop_last());
        if has_key(kept, event_key(s.last())) {
            kept
        } else {
            kept.push(s.last())
        }
    }
}

fn key_text(e: &Event) -> (r: String)
    ensures
        r@ == event_key(*e),
{
    match &e.id {
        Some(s) => s.clone(),
        None => String::new(),
    }
}

/// The game events of a list that end within `(now, window_end]`, in order.
pub open spec fn games_in_window(events: Seq<Event>, now: Timestamp, window_end: Timestamp) -> Seq<
    Event,
> {
    events.filter(|e: Event| is_game_in_window(e, now, window_end))
}

/// Every event `filter_game_events` keeps is a game ending within the window,
/// every such event of the input is kept, and no other event is.
pub proof fn lemma_game_filter_exact(events: Seq<Event>, now: Timestamp, window_end: Timestamp)
    ensures
        forall|i: int|
            0 <= i < games_in_window(events, now, window_end).len() ==> is_game_in_window(
                #[trigger] games_in_window(events, now, window_end)[i],
                now,
                window_end,
            ),
        forall|i: int|
            0 <= i < events.len() && is_game_in_window(#[trigger] events[i], now, window_end)
                ==> games_in_window(events, now, window_end).contains(events[i]),
        forall|e: Event|
            #[trigger] games_in_window(events, now, window_end).contains(e) ==> events.contains(e),
{
    broadcast use vstd::seq_lib::group_filter_ensures;

    let pred = |e: Event| is_game_in_window(e, now, window_end);
    assert forall|e: Event| #[trigger] events.filter(pred).contains(e) implies events.contains(
        e,
    ) by {
        events.lemma_filter_contains_rev(pred, e);
    }
    assert forall|i: int| 0 <= i < events.len() && is_game_in_window(#[trigger] events[i], now, window_end) implies events.filter(pred).contains(events[i]) by {
        events.lemma_filter_contains(pred, i);
    }
}

/// Keeps the first event of each id (an event without an id counts as the id
/// ""), as the bot does after gathering the events of all tags.
pub fn dedup_events(events: &mut Vec<Event>)
    ensures
        final(events)@ == dedup_by_key(old(events)@),
{
    let ghost orig = events@;
    let _n = events.len();
    let mut i: usize = 0;
    let mut k: usize = 0;
    let mut seen: Vec<String> = Vec::new();
    while i < events.len()
        invariant
            k <= orig.len(),
            orig.len() <= usize::MAX,
            i <= k,
            events@.len() == i + (orig.len() - k),
            events@.take(i as int) == dedup_by_key(orig.take(k as int)),
            events@.skip(i as int) == orig.skip(k as int),
            seen@.len() == i,
            forall|j: int| 0 <= j < i ==> #[trigger] seen@[j]@ == event_key(events@[j]),
        decreases events@.len() - i,
    {
        let key = key_text(&events[i]);
        let mut found = false;
        let mut j: usize = 0;
        while j < seen.len()
            invariant
                j <= seen@.len(),
                seen@.len() == i,
                i < events@.len(),
                key@ == event_key(events@[i as int]),
                forall|m: int| 0 <= m < i ==> #[trigger] seen@[m]@ == event_key(events@[m]),
                found == (exists|m: int| 0 <= m < j && #[trigger] seen@[m]@ == key@),
            decreases seen@.len() - j,
        {
            if seen[j].eq(&key) {
                found = true;
            }
            j = j + 1;
        }
        let ghost kept = events@.take(i as int);
        proof {
            assert(orig.take(k + 1).drop_last() =~= orig.take(k as int));
            assert(orig.take(k + 1).last() == orig[k as int]);
            assert(orig[k as int] == events@[i as int]) by {
                assert(events@.skip(i as int)[0] == orig.skip(k as int)[0]);
            }
            if found {
                let m = choose|m: int| 0 <= m < i && #[trigger] seen@[m]@ == key@;
                assert(kept[m] == events@[m]);
                assert(has_key(kept, event_key(orig[k as int])));
            } else {
                assert forall|m: int| 0 <= m < kept.len() implies event_key(#[trigger] kept[m])
                    != event_key(orig[k as int]) by {
                    assert(kept[m] == events@[m]);
                    assert(seen@[m]@ == event_key(events@[m]));
                }
                assert(!has_key(kept, event_key(orig[k as int])));
            }
        }
        let ghost before = events@;
        if found {
            events.remove(i);
            proof {
                assert(events@.take(i as int) =~= kept);
                assert forall|m: int| 0 <= m < events@.skip(i as int).len() implies #[trigger] events@.skip(i as int)[m] == orig.skip(k + 1)[m] by {
                    assert(events@.skip(i as int)[m] == before[i + 1 + m]);
                    assert(before[i + 1 + m] == before.skip(i as int)[1 + m]);
                    assert(orig.skip(k as int)[1 + m] == orig[k + 1 + m]);
                }
                assert(events@.skip(i as int) =~= orig.skip(k + 1));
            }
        } else {
            seen.push(key);
            i = i + 1;
            proof {
                assert(events@.take(i as int) =~= kept.push(orig[k as int]));
                assert forall|m: int| 0 <= m < events@.skip(i as int).len() implies #[trigger] events@.skip(i as int)[m] == orig.skip(k + 1)[m] by {
                    assert(events@.skip(i as int)[m] == before[i + m]);
                    assert(before[i + m] == before.skip(i - 1)[1 + m]);
                    assert(orig.skip(k as int)[1 + m] == orig[k + 1 + m]);
                }
                assert(events@.skip(i as int) =~= orig.skip(k + 1));
            }
        }
        k = k + 1;
    }
    proof {
        assert(orig.skip(k as int).len() == 0);
        assert(k == orig.len());
        assert(orig.take(k as int) =~= orig);
        assert(events@ =~= events@.take(i as int));
    }
}

/// After deduplication every id occurs once, every id of the input still
/// occurs, and every kept event is one of the input's.
pub proof fn lemma_dedup_one_event_per_id(s: Seq<Event>)
    ensures
        forall|i: int, j: int|
            0 <= i < j < dedup_by_key(s).len() ==> event_key(#[trigger] dedup_by_key(s)[i])
                != event_key(#[trigger] dedup_by_key(s)[j]),
        forall|i: int| 0 <= i < s.len() ==> has_key(dedup_by_key(s), event_key(#[trigger] s[i])),
        forall|i: int| 0 <= i < dedup_by_key(s).len() ==> s.contains(#[trigger] dedup_by_key(s)[i]),
    decreases s.len(),
{
    if s.len() > 0 {
        let init = s.drop_last();
        lemma_dedup_one_event_per_id(init);
        let kept = dedup_by_key(init);
        let d = dedup_by_key(s);
        if has_key(kept, event_key(s.last())) {
            assert(d == kept);
            assert forall|i: int| 0 <= i < s.len() implies has_key(d, event_key(#[trigger] s[i])) by {
                if i < s.len() - 1 {
                    assert(s[i] == init[i]);
                }
            }
            assert forall|i: int| 0 <= i < d.len() implies s.contains(#[trigger] d[i]) by {
                let k = choose|k: int| 0 <= k < init.len() && init[k] == d[i];
                assert(s[k] == init[k]);
            }
        } else {
            assert(d == kept.push(s.last()));
            assert forall|i: int, j: int| 0 <= i < j < d.len() implies event_key(#[trigger] d[i])
                != event_key(#[trigger] d[j]) by {
                if j == d.len() - 1 {
                    assert(d[i] == kept[i]);
                    if event_key(kept[i]) == event_key(s.last()) {
                        assert(has_key(kept, event_key(s.last())));
                    }
                } else {
                    assert(d[i] == kept[i] && d[j] == kept[j]);
                }
            }
            assert forall|i: int| 0 <= i < s.len() implies has_key(d, event_key(#[trigger] s[i])) by {
                if i < s.len() - 1 {
                    assert(s[i] == init[i]);
                    let k = choose|k: int| 0 <= k < kept.len() && event_key(#[trigger] kept[k])
                        == event_key(init[i]);
                    assert(d[k] == kept[k]);
                } else {
                    assert(d[d.len() - 1] == s.last());
                }
            }
            assert forall|i: int| 0 <= i < d.len() implies s.contains(#[trigger] d[i]) by {
                if i < d.len() - 1 {
                    assert(d[i] == kept[i]);
                    let k = choose|k: int| 0 <= k < init.len() && init[k] == kept[i];
                    assert(s[k] == init[k]);
                } else {
                    assert(s[s.len() - 1] == d[i]);
                }
            }
        }
    }
}

proof fn lemma_dedup_keeps_first(s: Seq<Event>)
    ensures
        forall|j: int|
            0 <= j < dedup_by_key(s).len() ==> exists|i: int|
                0 <= i < s.len() && s[i] == #[trigger] dedup_by_key(s)[j] && forall|k: int|
                    0 <= k < i ==> text_or_empty(#[trigger] s[k].id) != text_or_empty(s[i].id),
    decreases s.len(),
{
    if s.len() > 0 {
        let init = s.drop_last();
        lemma_dedup_keeps_first(init);
        lemma_dedup_one_event_per_id(init);
        let kept = dedup_by_key(init);
        let d = dedup_by_key(s);
        assert forall|j: int| 0 <= j < d.len() implies exists|i: int|
            0 <= i < s.len() && s[i] == #[trigger] d[j] && forall|k: int|
                0 <= k < i ==> text_or_empty(#[trigger] s[k].id) != text_or_empty(s[i].id) by {
            if j < kept.len() {
                assert(d[j] == kept[j]);
                let i = choose|i: int|
                    0 <= i < init.len() && init[i] == #[trigger] kept[j] && forall|k: int|
                        0 <= k < i ==> text_or_empty(#[trigger] init[k].id) != text_or_empty(
                            init[i].id,
                        );
                assert(s[i] == init[i]);
                assert forall|k: int| 0 <= k < i implies text_or_empty(#[trigger] s[k].id)
                    != text_or_empty(s[i].id) by {
                    assert(s[k] == init[k]);
                }
            } else {
                let i = s.len() - 1;
                assert(!has_key(kept, event_key(s.last())));
                assert(d[j] == s[i]);
                assert forall|k: int| 0 <= k < i implies text_or_empty(#[trigger] s[k].id)
                    != text_or_empty(s[i].id) by {
                    assert(s[k] == init[k]);
                    if text_or_empty(s[k].id) == text_or_empty(s[i].id) {
                        assert(has_key(kept, event_key(init[k])));
                    }
                }
            }
        }
    }
}

/// Deduplication tells events apart by their whole ids (a missing id counting
/// as ""): no two kept events share an id, every id of the input is kept, and
/// each kept event is the first event of the input with its id.
pub proof fn lemma_dedup_compares_whole_ids(s: Seq<Event>)
    ensures
        forall|i: int, j: int|
            0 <= i < j < dedup_by_key(s).len() ==> text_or_empty(
                (#[trigger] dedup_by_key(s)[i]).id,
            ) != text_or_empty((#[trigger] dedup_by_key(s)[j]).id),
        forall|i: int|
            0 <= i < s.len() ==> exists|j: int|
                0 <= j < dedup_by_key(s).len() && text_or_empty(
                    (#[trigger] dedup_by_key(s)[j]).id,
                ) == text_or_empty((#[trigger] s[i]).id),
        forall|j: int|
            0 <= j < dedup_by_key(s).len() ==> exists|i: int|
                0 <= i < s.len() && s[i] == #[trigger] dedup_by_key(s)[j] && forall|k: int|
                    0 <= k < i ==> text_or_empty(#[trigger] s[k].id) != text_or_empty(s[i].id),
{
    lemma_dedup_one_event_per_id(s);
    lemma_dedup_keeps_first(s);
    let d = dedup_by_key(s);
    assert forall|i: int| 0 <= i < s.len() implies exists|j: int|
        0 <= j < d.len() && text_or_empty((#[trigger] d[j]).id) == text_or_empty(
            (#[trigger] s[i]).id,
        ) by {
        assert(has_key(d, event_key(s[i])));
    }
}

/// The game filter finds the game tag at any position among an event's tags: an
/// event with a tag of id "100639" anywhere, ending in the window, is kept; and
/// every kept event has such a tag.
pub proof fn lemma_game_tag_at_any_position(
    events: Seq<Event>,
    now: Timestamp,
    window_end: Timestamp,
    i: int,
    k: int,
)
    requires
        0 <= i < events.len(),
        match events[i].tags {
            Some(tags) => 0 <= k < tags@.len() && opt_text(tags@[k].id) == Some("100639"@),
            None => false,
        },
        ends_within(events[i], now, window_end),
    ensures
        games_in_window(events, now, window_end).contains(events[i]),
        forall|e: Event|
            #[trigger] games_in_window(events, now, window_end).contains(e) ==> match e.tags {
                Some(tags) => exists|m: int|
                    0 <= m < tags@.len() && opt_text(#[trigger] tags@[m].id) == Some("100639"@),
                None => false,
            },
{
    lemma_game_filter_exact(events, now, window_end);
    let games = games_in_window(events, now, window_end);
    let tags = events[i].tags->0;
    assert(opt_text(tags@[k].id) == Some(game_tag_id()));
    assert(is_game_in_window(events[i], now, window_end));
    assert forall|e: Event| #[trigger] games.contains(e) implies match e.tags {
        Some(tags) => exists|m: int|
            0 <= m < tags@.len() && opt_text(#[trigger] tags@[m].id) == Some("100639"@),
        None => false,
    } by {
        let j = choose|j: int| 0 <= j < games.len() && games[j] == e;
        assert(is_game_in_window(games[j], now, window_end));
    }
}

/// The window is open at `now` and closed at `window_end`: a game whose end
/// date reads as the instant `d` is kept exactly when `now < d <= window_end`,
/// instants compared by their seconds, then their nanoseconds.
pub proof fn lemma_window_open_at_now_closed_at_end(
    events: Seq<Event>,
    now: Timestamp,
    window_end: Timestamp,
    i: int,
    d: Timestamp,
)
    requires
        0 <= i < events.len(),
        is_game_event(events[i]),
        match events[i].end_date {
            Some(s) => spec_parse_rfc3339(s@) == Some(d),
            None => false,
        },
    ensures
        games_in_window(events, now, window_end).contains(events[i]) <==> ((now.secs < d.secs || (
        now.secs == d.secs && now.nanos < d.nanos)) && (d.secs < window_end.secs || (d.secs
            == window_end.secs && d.nanos <= window_end.nanos))),
{
    lemma_game_filter_exact(events, now, window_end);
    let games = games_in_window(events, now, window_end);
    if games.contains(events[i]) {
        let j = choose|j: int| 0 <= j < games.len() && games[j] == events[i];
        assert(is_game_in_window(games[j], now, window_end));
    }
}

/// The concatenation of a sequence of event lists.
pub open spec fn concat_events(s: Seq<Seq<Event>>) -> Seq<Event>
    decreases s.len(),
{
    if s.len() == 0 {
        Seq::empty()
    } else {
        concat_events(s.drop_last()) + s.last()
    }
}

/// The contents of each list of events.
pub open spec fn list_views(s: Seq<Vec<Event>>) -> Seq<Seq<Event>> {
    s.map_values(|v: Vec<Event>| v@)
}

/// Joins the event lists fetched for each tag into one list, in tag order.
pub fn collect_tag_results(per_tag: Vec<Vec<Event>>) -> (r: Vec<Event>)
    ensures
        r@ == concat_events(list_views(per_tag@)),
{
    let ghost orig = list_views(per_tag@);
    let mut rest = per_tag;
    let _n = rest.len();
    let mut out: Vec<Event> = Vec::new();
    let mut k: usize = 0;
    while rest.len() > 0
        invariant
            k <= orig.len(),
            orig.len() <= usize::MAX,
            list_views(rest@) == orig.skip(k as int),
            out@ == concat_events(orig.take(k as int)),
        decreases rest@.len(),
    {
        proof {
            assert(list_views(rest@).len() == rest@.len());
        }
        let ghost before = rest@;
        let mut first = rest.remove(0);
        proof {
            assert(orig.skip(k as int)[0] == first@);
            assert(orig.take(k + 1).drop_last() =~= orig.take(k as int));
            assert(orig.take(k + 1).last() == orig[k as int]);
        }
        out.append(&mut first);
        k = k + 1;
        proof {
            assert forall|m: int| 0 <= m < rest@.len() implies #[trigger] list_views(rest@)[m] == orig.skip(k as int)[m] by {
                assert(rest@[m] == before[m + 1]);
                assert(list_views(before)[m + 1] == orig.skip(k - 1)[m + 1]);
            }
            assert(list_views(rest@) =~= orig.skip(k as int));
        }
    }
    assert(orig.take(k as int) =~= orig);
    out
}

/// The strings of a market field that holds a JSON-encoded string list; a
/// missing field or a text that is no such list gives no strings.
pub open spec fn listed_texts(field: Option<String>) -> Seq<Seq<char>> {
    match field {
        Some(s) => match spec_json_string_list(s@) {
            Some(v) => v,
            None => Seq::empty(),
        },
        None => Seq::empty(),
    }
}

/// The sports market type that the bot follows.
pub open spec fn moneyline_type() -> Seq<char> {
    "moneyline"@
}

/// The question, token ids and outcomes of a moneyline market that has a question.
pub open spec fn moneyline_entry(m: Market) -> Option<(Seq<char>, Seq<Seq<char>>, Seq<Seq<char>>)> {
    if opt_text(m.sports_market_type) == Some(moneyline_type()) {
        match m.question {
            Some(q) => Some((q@, listed_texts(m.clob_token_ids), listed_texts(m.outcomes))),
            None => None,
        }
    } else {
        None
    }
}

/// The moneyline entries of an event's markets, in market order.
pub open spec fn moneyline_entries(e: Event) -> Seq<(Seq<char>, Seq<Seq<char>>, Seq<Seq<char>>)> {
    match e.markets {
        Some(ms) => ms@.filter_map(|m: Market| moneyline_entry(m)),
        None => Seq::empty(),
    }
}

/// The texts of an extracted market entry.
pub open spec fn entry_view(t: (String, Vec<String>, Vec<String>)) -> (
    Seq<char>,
    Seq<Seq<char>>,
    Seq<Seq<char>>,
) {
    (t.0@, texts(t.1@), texts(t.2@))
}

fn listed_strings(field: &Option<String>) -> (r: Vec<String>)
    ensures
        texts(r@) == listed_texts(*field),
{
    match field {
        Some(s) => match json_string_list(s.as_str()) {
            Some(v) => v,
            None => {
                let v: Vec<String> = Vec::new();
                assert(texts(v@) =~= Seq::<Seq<char>>::empty());
                v
            },
        },
        None => {
            let v: Vec<String> = Vec::new();
            assert(texts(v@) =~= Seq::<Seq<char>>::empty());
            v
        },
    }
}

/// The moneyline markets of an event, in order: for each market whose
/// `sportsMarketType` is "moneyline" and that has a question, the question, the
/// token ids and the outcomes (each list read from its JSON text, empty when
/// missing or unreadable).
pub fn extract_moneyline_markets(event: &Event) -> (r: Vec<(String, Vec<String>, Vec<String>)>)
    ensures
        r@.map_values(|t: (String, Vec<String>, Vec<String>)| entry_view(t)) == moneyline_entries(
            *event,
        ),
{
    let mut out: Vec<(String, Vec<String>, Vec<String>)> = Vec::new();
    match &event.markets {
        Some(markets) => {
            let ghost f = |m: Market| moneyline_entry(m);
            let mut i: usize = 0;
            while i < markets.len()
                invariant
                    i <= markets@.len(),
                    event.markets == Some(*markets),
                    f == (|m: Market| moneyline_entry(m)),
                    out@.map_values(|t: (String, Vec<String>, Vec<String>)| entry_view(t))
                        == markets@.take(i as int).filter_map(f),
                decreases markets@.len() - i,
            {
                proof {
                    markets@.lemma_filter_map_take_succ(f, i as int);
                }
                let m = &markets[i];
                let is_moneyline = match &m.sports_market_type {
                    Some(t) => text_eq(t, "moneyline"),
                    None => false,
                };
                if is_moneyline {
                    match &m.question {
                        Some(q) => {
                            let tokens = listed_strings(&m.clob_token_ids);
                            let outcomes = listed_strings(&m.outcomes);
                            out.push((q.clone(), tokens, outcomes));
                        },
                        None => {},
                    }
                }
                proof {
                    assert(out@.map_values(|t: (String, Vec<String>, Vec<String>)| entry_view(t))
                        =~= markets@.take(i + 1).filter_map(f));
                }
                i = i + 1;
            }
            assert(markets@.take(markets@.len() as int) =~= markets@);
        },
        None => {
            assert(out@.map_values(|t: (String, Vec<String>, Vec<String>)| entry_view(t))
                =~= Seq::<(Seq<char>, Seq<Seq<char>>, Seq<Seq<char>>)>::empty());
        },
    }
    out
}

/// The Gamma API query for the open events of a tag that end after `now_str`.
pub open spec fn tag_events_url_text(now_str: Seq<char>, tag_id: Seq<char>) -> Seq<char> {
    "https://gamma-api.polymarket.com/events?limit=50&end_date_min="@ + now_str
        + "&closed=false&tag_id="@ + tag_id
}

/// Builds the Gamma API query for the open events of a tag.
pub fn tag_events_url(now_str: &str, tag_id: &str) -> (r: String)
    ensures
        r@ == tag_events_url_text(now_str@, tag_id@),
{
    let mut url = "https://gamma-api.polymarket.com/events?limit=50&end_date_min=".to_owned();
    url.append(now_str);
    url.append("&closed=false&tag_id=");
    url.append(tag_id);
    url
}

} // verus!
