//! The steps of a "fetch games" run between its network calls: grouping the
//! moneyline markets of each game, flattening them into one wave of order book
//! fetches, and assembling the per-event summaries that are saved and shown.
use vstd::prelude::*;
use crate::events::{
    Event, Tag, entry_view, extract_moneyline_markets, games_in_window, is_game_in_window,
    lemma_game_filter_exact, moneyline_entries, opt_text, text_or_empty,
};
use crate::json::texts;
use crate::orderbook::{OrderbookEntry, entries_texts, entry_texts};
use crate::timestamp::{Timestamp, hst_text, spec_parse_rfc3339, spec_parse_utc, try_utc_to_hst};

verus! {

/// One moneyline market to look up: its question, token ids and outcomes.
pub struct MarketJob {
    pub question: String,
    pub tokens: Vec<String>,
    pub outcomes: Vec<String>,
}

/// A game event with its moneyline markets.
pub struct EventJob<'a> {
    pub event: &'a Event,
    pub markets: Vec<MarketJob>,
}

/// One market of the flattened wave, with the position of its event.
pub struct FlatJob<'a> {
    pub event_idx: usize,
    pub market: &'a MarketJob,
}

pub open spec fn market_job_texts(m: MarketJob) -> (Seq<char>, Seq<Seq<char>>, Seq<Seq<char>>) {
    (m.question@, texts(m.tokens@), texts(m.outcomes@))
}

pub open spec fn jobs_texts(s: Seq<MarketJob>) -> Seq<(Seq<char>, Seq<Seq<char>>, Seq<Seq<char>>)> {
    s.map_values(|m: MarketJob| market_job_texts(m))
}

/// Groups the moneyline markets of each game event, keeping the events' order.
pub fn build_event_jobs<'a>(game_events: &Vec<&'a Event>) -> (r: Vec<EventJob<'a>>)
    ensures
        r@.len() == game_events@.len(),
        forall|i: int|
            0 <= i < r@.len() ==> (#[trigger] r@[i]).event == game_events@[i] && jobs_texts(
                r@[i].markets@,
            ) == moneyline_entries(*game_events@[i]),
{
    let mut jobs: Vec<EventJob<'a>> = Vec::new();
    let mut i: usize = 0;
    while i < game_events.len()
        invariant
            i <= game_events@.len(),
            jobs@.len() == i,
            forall|k: int|
                0 <= k < i ==> (#[trigger] jobs@[k]).event == game_events@[k] && jobs_texts(
                    jobs@[k].markets@,
                ) == moneyline_entries(*game_events@[k]),
        decreases game_events@.len() - i,
    {
        let event: &'a Event = game_events[i];
        let mut found = extract_moneyline_markets(event);
        let ghost all = found@.map_values(|t: (String, Vec<String>, Vec<String>)| entry_view(t));
        let mut markets: Vec<MarketJob> = Vec::new();
        let mut k: usize = 0;
        let _n = found.len();
        while found.len() > 0
            invariant
                k <= all.len(),
                all.len() <= usize::MAX,
                found@.map_values(|t: (String, Vec<String>, Vec<String>)| entry_view(t))
                    == all.skip(k as int),
                jobs_texts(markets@) == all.take(k as int),
            decreases found@.len(),
        {
            let ghost before = found@;
            proof {
                assert(found@.map_values(|t: (String, Vec<String>, Vec<String>)| entry_view(t)).len()
                    == found@.len());
            }
            let t = found.remove(0);
            let ghost tv = entry_view(t);
            let (question, tokens, outcomes) = t;
            proof {
                assert(t == before[0]);
                assert(entry_view(before[0]) == all[k as int]) by {
                    assert(before.map_values(|t: (String, Vec<String>, Vec<String>)| entry_view(t))[0]
                        == all.skip(k as int)[0]);
                }
            }
            let ghost old_markets = markets@;
            let job = MarketJob { question, tokens, outcomes };
            assert(market_job_texts(job) == tv);
            markets.push(job);
            k = k + 1;
            proof {
                assert(markets@ == old_markets.push(job));
                assert(jobs_texts(markets@) =~= jobs_texts(old_markets).push(market_job_texts(job)));
                assert(all.take(k as int) =~= all.take(k - 1).push(all[k - 1]));
                assert(jobs_texts(markets@) =~= all.take(k as int));
                assert forall|m: int| 0 <= m < found@.len() implies entry_view(#[trigger] found@[m])
                    == all.skip(k as int)[m] by {
                    assert(found@[m] == before[m + 1]);
                    assert(before.map_values(|t: (String, Vec<String>, Vec<String>)| entry_view(t))[m
                        + 1] == all.skip(k - 1)[m + 1]);
                }
                assert(found@.map_values(|t: (String, Vec<String>, Vec<String>)| entry_view(t))
                    =~= all.skip(k as int));
            }
        }
        proof {
            assert(all.skip(k as int).len() == 0);
            assert(all.take(k as int) =~= all);
        }
        jobs.push(EventJob { event, markets });
        i = i + 1;
    }
    jobs
}

/// The (event position, market) pairs of the jobs, event by event.
pub open spec fn flat_spec(jobs: Seq<EventJob>) -> Seq<(int, MarketJob)>
    decreases jobs.len(),
{
    if jobs.len() == 0 {
        Seq::empty()
    } else {
        let last = jobs.len() - 1;
        flat_spec(jobs.drop_last()) + jobs.last().markets@.map_values(|m: MarketJob| (last, m))
    }
}

pub open spec fn flat_view(f: FlatJob) -> (int, MarketJob) {
    (f.event_idx as int, *f.market)
}

pub open spec fn flats_view(s: Seq<FlatJob>) -> Seq<(int, MarketJob)> {
    s.map_values(|f: FlatJob| flat_view(f))
}

/// Lists every market of every event, event by event, for one parallel wave.
pub fn flatten_jobs<'a, 'b>(jobs: &'a Vec<EventJob<'b>>) -> (r: Vec<FlatJob<'a>>)
    ensures
        flats_view(r@) == flat_spec(jobs@),
{
    let mut out: Vec<FlatJob<'a>> = Vec::new();
    let mut i: usize = 0;
    while i < jobs.len()
        invariant
            i <= jobs@.len(),
            flats_view(out@) == flat_spec(jobs@.take(i as int)),
        decreases jobs@.len() - i,
    {
        let job: &'a EventJob<'b> = &jobs[i];
        let ghost base = flat_spec(jobs@.take(i as int));
        let mut j: usize = 0;
        while j < job.markets.len()
            invariant
                j <= job.markets@.len(),
                i < jobs@.len(),
                *job == jobs@[i as int],
                base == flat_spec(jobs@.take(i as int)),
                flats_view(out@) == base + job.markets@.take(j as int).map_values(
                    |m: MarketJob| (i as int, m),
                ),
            decreases job.markets@.len() - j,
        {
            let ghost old_out = out@;
            let f = FlatJob { event_idx: i, market: &job.markets[j] };
            assert(flat_view(f) == (i as int, job.markets@[j as int]));
            out.push(f);
            j = j + 1;
            proof {
                assert(job.markets@.take(j as int) =~= job.markets@.take(j - 1).push(job.markets@[j - 1]));
                assert(flats_view(out@) =~= flats_view(old_out).push(flat_view(f)));
                assert(flats_view(out@) =~= base + job.markets@.take(j as int).map_values(
                    |m: MarketJob| (i as int, m),
                ));
            }
        }
        proof {
            assert(jobs@.take(i + 1).drop_last() =~= jobs@.take(i as int));
            assert(jobs@.take(i + 1).last() == jobs@[i as int]);
            assert(job.markets@.take(j as int) =~= job.markets@);
            assert(flats_view(out@) =~= flat_spec(jobs@.take(i + 1)));
        }
        i = i + 1;
    }
    assert(jobs@.take(jobs@.len() as int) =~= jobs@);
    out
}

/// Every flattened job names an event of the list and one of that event's own
/// markets, so no market is looked up under another event.
pub proof fn lemma_flat_jobs_stay_with_their_event(jobs: Seq<EventJob>)
    ensures
        forall|k: int|
            0 <= k < flat_spec(jobs).len() ==> 0 <= (#[trigger] flat_spec(jobs)[k]).0 < jobs.len()
                && jobs[flat_spec(jobs)[k].0].markets@.contains(flat_spec(jobs)[k].1),
    decreases jobs.len(),
{
    if jobs.len() > 0 {
        let init = jobs.drop_last();
        lemma_flat_jobs_stay_with_their_event(init);
        let last = jobs.len() - 1;
        let head = flat_spec(init);
        let tail = jobs.last().markets@.map_values(|m: MarketJob| (last, m));
        assert(flat_spec(jobs) == head + tail);
        assert forall|k: int| 0 <= k < flat_spec(jobs).len() implies 0 <= (
        #[trigger] flat_spec(jobs)[k]).0 < jobs.len() && jobs[flat_spec(jobs)[k].0].markets@.contains(
            flat_spec(jobs)[k].1,
        ) by {
            if k < head.len() {
                assert(flat_spec(jobs)[k] == head[k]);
                assert(jobs[head[k].0] == init[head[k].0]);
            } else {
                let m = k - head.len();
                assert(flat_spec(jobs)[k] == tail[m]);
                assert(jobs.last().markets@[m] == tail[m].1);
            }
        }
    }
}

/// The label of a tag that has both an id and a label: "id:label".
pub open spec fn tag_label(t: Tag) -> Option<Seq<char>> {
    match (t.id, t.label) {
        (Some(id), Some(label)) => Some(id@ + ":"@ + label@),
        _ => None,
    }
}

/// The labels of an event's tags, in order.
pub open spec fn tag_labels(e: Event) -> Seq<Seq<char>> {
    match e.tags {
        Some(tags) => tags@.filter_map(|t: Tag| tag_label(t)),
        None => Seq::empty(),
    }
}

/// The "id:label" texts of an event's tags that have both, in order.
pub fn event_tag_labels(event: &Event) -> (r: Vec<String>)
    ensures
        texts(r@) == tag_labels(*event),
{
    let mut out: Vec<String> = Vec::new();
    match &event.tags {
        Some(tags) => {
            let ghost f = |t: Tag| tag_label(t);
            let mut i: usize = 0;
            while i < tags.len()
                invariant
                    i <= tags@.len(),
                    event.tags == Some(*tags),
                    f == (|t: Tag| tag_label(t)),
                    texts(out@) == tags@.take(i as int).filter_map(f),
                decreases tags@.len() - i,
            {
                proof {
                    tags@.lemma_filter_map_take_succ(f, i as int);
                }
                match (&tags[i].id, &tags[i].label) {
                    (Some(id), Some(label)) => {
                        let mut text = id.clone();
                        text.append(":");
                        text.append(label.as_str());
                        out.push(text);
                    },
                    _ => {},
                }
                proof {
                    assert(texts(out@) =~= tags@.take(i + 1).filter_map(f));
                }
                i = i + 1;
            }
            assert(tags@.take(tags@.len() as int) =~= tags@);
        },
        None => {
            assert(texts(out@) =~= Seq::<Seq<char>>::empty());
        },
    }
    out
}

/// A market shown in a summary: its question, the best ask of each outcome,
/// and its sports market type.
pub struct MarketEntry {
    pub question: String,
    pub sides: Vec<OrderbookEntry>,
    pub sports_market_type: String,
}

/// The summary of a game event: id, tag labels, title, slug, end date in
/// Hawaii time and the markets with their asks.
pub struct EventSummary {
    pub id: String,
    pub tag_id: Vec<String>,
    pub title: String,
    pub slug: String,
    pub end_date_hst: String,
    pub market_entries: Vec<MarketEntry>,
}

/// The texts of a market entry.
pub struct MarketEntryText {
    pub question: Seq<char>,
    pub sides: Seq<(Seq<char>, Seq<char>)>,
    pub sports_market_type: Seq<char>,
}

/// The texts of an event summary.
pub struct EventSummaryText {
    pub id: Seq<char>,
    pub tag_id: Seq<Seq<char>>,
    pub title: Seq<char>,
    pub slug: Seq<char>,
    pub end_date_hst: Seq<char>,
    pub market_entries: Seq<MarketEntryText>,
}

impl View for MarketEntry {
    type V = MarketEntryText;

    open spec fn view(&self) -> MarketEntryText {
        MarketEntryText {
            question: self.question@,
            sides: entries_texts(self.sides@),
            sports_market_type: self.sports_market_type@,
        }
    }
}

pub open spec fn market_entries_texts(s: Seq<MarketEntry>) -> Seq<MarketEntryText> {
    s.map_values(|m: MarketEntry| m@)
}

impl View for EventSummary {
    type V = EventSummaryText;

    open spec fn view(&self) -> EventSummaryText {
        EventSummaryText {
            id: self.id@,
            tag_id: texts(self.tag_id@),
            title: self.title@,
            slug: self.slug@,
            end_date_hst: self.end_date_hst@,
            market_entries: market_entries_texts(self.market_entries@),
        }
    }
}

pub open spec fn summaries_texts(s: Seq<EventSummary>) -> Seq<EventSummaryText> {
    s.map_values(|e: EventSummary| e@)
}

/// The market entries of event `idx` among the first `n` flat jobs: those of
/// the event whose fetch found at least two sides.
pub open spec fn entries_upto(
    idx: int,
    flat: Seq<FlatJob>,
    books: Seq<Vec<OrderbookEntry>>,
    n: int,
) -> Seq<MarketEntryText>
    decreases n,
{
    if n <= 0 {
        Seq::empty()
    } else {
        let rest = entries_upto(idx, flat, books, n - 1);
        let j = n - 1;
        if flat[j].event_idx == idx && books[j]@.len() >= 2 {
            rest.push(
                MarketEntryText {
                    question: flat[j].market.question@,
                    sides: entries_texts(books[j]@),
                    sports_market_type: "moneyline"@,
                },
            )
        } else {
            rest
        }
    }
}

/// How many flat jobs have fetched books: the two lists are walked together.
pub open spec fn zipped_len(flat: Seq<FlatJob>, books: Seq<Vec<OrderbookEntry>>) -> int {
    if flat.len() <= books.len() {
        flat.len() as int
    } else {
        books.len() as int
    }
}

/// The market entries of event `idx`.
pub open spec fn event_entries(
    idx: int,
    flat: Seq<FlatJob>,
    books: Seq<Vec<OrderbookEntry>>,
) -> Seq<MarketEntryText> {
    entries_upto(idx, flat, books, zipped_len(flat, books))
}

/// The end date text of an event, or the empty text.
pub open spec fn end_date_text(e: Event) -> Seq<char> {
    text_or_empty(e.end_date)
}

/// The summary of event `idx`.
pub open spec fn summary_of(
    job: EventJob,
    idx: int,
    flat: Seq<FlatJob>,
    books: Seq<Vec<OrderbookEntry>>,
) -> EventSummaryText {
    EventSummaryText {
        id: text_or_empty(job.event.id),
        tag_id: tag_labels(*job.event),
        title: text_or_empty(job.event.title),
        slug: text_or_empty(job.event.slug),
        end_date_hst: hst_text(spec_parse_utc(end_date_text(*job.event))->0),
        market_entries: event_entries(idx, flat, books),
    }
}

/// The summaries of the events that have at least one market entry, in order.
pub open spec fn summaries(
    jobs: Seq<EventJob>,
    flat: Seq<FlatJob>,
    books: Seq<Vec<OrderbookEntry>>,
) -> Seq<EventSummaryText>
    decreases jobs.len(),
{
    if jobs.len() == 0 {
        Seq::empty()
    } else {
        let idx = jobs.len() - 1;
        let rest = summaries(jobs.drop_last(), flat, books);
        if event_entries(idx, flat, books).len() > 0 {
            rest.push(summary_of(jobs.last(), idx, flat, books))
        } else {
            rest
        }
    }
}

proof fn lemma_entries_upto_sides(
    idx: int,
    flat: Seq<FlatJob>,
    books: Seq<Vec<OrderbookEntry>>,
    n: int,
)
    requires
        n <= flat.len(),
        n <= books.len(),
    ensures
        forall|m: int|
            0 <= m < entries_upto(idx, flat, books, n).len() ==> (#[trigger] entries_upto(
                idx,
                flat,
                books,
                n,
            )[m]).sides.len() >= 2 && entries_upto(idx, flat, books, n)[m].sports_market_type
                == "moneyline"@,
    decreases n,
{
    if n > 0 {
        lemma_entries_upto_sides(idx, flat, books, n - 1);
        let rest = entries_upto(idx, flat, books, n - 1);
        assert forall|m: int| 0 <= m < entries_upto(idx, flat, books, n).len() implies (
        #[trigger] entries_upto(idx, flat, books, n)[m]).sides.len() >= 2 && entries_upto(
            idx,
            flat,
            books,
            n,
        )[m].sports_market_type == "moneyline"@ by {
            if m < rest.len() {
                assert(entries_upto(idx, flat, books, n)[m] == rest[m]);
            }
        }
    }
}

/// Every summary has at least one market, and every market shown has at least
/// two sides, each market being a moneyline market.
pub proof fn lemma_summaries_have_two_sided_markets(
    jobs: Seq<EventJob>,
    flat: Seq<FlatJob>,
    books: Seq<Vec<OrderbookEntry>>,
)
    ensures
        forall|k: int|
            0 <= k < summaries(jobs, flat, books).len() ==> (#[trigger] summaries(
                jobs,
                flat,
                books,
            )[k]).market_entries.len() > 0,
        forall|k: int, m: int|
            0 <= k < summaries(jobs, flat, books).len() && 0 <= m < summaries(
                jobs,
                flat,
                books,
            )[k].market_entries.len() ==> (#[trigger] summaries(jobs, flat, books)[k].market_entries[m]).sides.len()
                >= 2 && summaries(jobs, flat, books)[k].market_entries[m].sports_market_type
                == "moneyline"@,
    decreases jobs.len(),
{
    if jobs.len() > 0 {
        let init = jobs.drop_last();
        lemma_summaries_have_two_sided_markets(init, flat, books);
        let idx = jobs.len() - 1;
        let rest = summaries(init, flat, books);
        lemma_entries_upto_sides(idx, flat, books, zipped_len(flat, books));
        assert forall|k: int| 0 <= k < summaries(jobs, flat, books).len() implies (
        #[trigger] summaries(jobs, flat, books)[k]).market_entries.len() > 0 by {
            if k < rest.len() {
                assert(summaries(jobs, flat, books)[k] == rest[k]);
            }
        }
        assert forall|k: int, m: int|
            0 <= k < summaries(jobs, flat, books).len() && 0 <= m < summaries(
                jobs,
                flat,
                books,
            )[k].market_entries.len() implies (#[trigger] summaries(
            jobs,
            flat,
            books,
        )[k].market_entries[m]).sides.len() >= 2 && summaries(jobs, flat, books)[k].market_entries[m].sports_market_type
            == "moneyline"@ by {
            if k < rest.len() {
                assert(summaries(jobs, flat, books)[k] == rest[k]);
            } else {
                assert(summaries(jobs, flat, books)[k].market_entries == event_entries(idx, flat, books));
            }
        }
    }
}

/// One of the markets has the question.
pub open spec fn has_question(markets: Seq<MarketJob>, q: Seq<char>) -> bool {
    exists|k: int| 0 <= k < markets.len() && (#[trigger] markets[k]).question@ == q
}

proof fn lemma_entries_upto_belong(
    jobs: Seq<EventJob>,
    flat: Seq<FlatJob>,
    books: Seq<Vec<OrderbookEntry>>,
    idx: int,
    n: int,
)
    requires
        flats_view(flat) == flat_spec(jobs),
        0 <= idx < jobs.len(),
        n <= flat.len(),
    ensures
        forall|m: int|
            0 <= m < entries_upto(idx, flat, books, n).len() ==> has_question(
                jobs[idx].markets@,
                (#[trigger] entries_upto(idx, flat, books, n)[m]).question,
            ),
    decreases n,
{
    if n > 0 {
        lemma_entries_upto_belong(jobs, flat, books, idx, n - 1);
        lemma_flat_jobs_stay_with_their_event(jobs);
        let rest = entries_upto(idx, flat, books, n - 1);
        let j = n - 1;
        assert forall|m: int| 0 <= m < entries_upto(idx, flat, books, n).len() implies has_question(
            jobs[idx].markets@,
            (#[trigger] entries_upto(idx, flat, books, n)[m]).question,
        ) by {
            if m < rest.len() {
                assert(entries_upto(idx, flat, books, n)[m] == rest[m]);
            } else {
                assert(flats_view(flat)[j] == flat_view(flat[j]));
                assert(flat_spec(jobs)[j] == (flat[j].event_idx as int, *flat[j].market));
                assert(jobs[idx].markets@.contains(*flat[j].market));
                let k = choose|k: int| 0 <= k < jobs[idx].markets@.len() && jobs[idx].markets@[k]
                    == *flat[j].market;
                assert(jobs[idx].markets@[k].question@ == entries_upto(idx, flat, books, n)[m].question);
            }
        }
    }
}

/// Markets stay with their own event: every market entry assembled for an
/// event is one of that event's own moneyline markets, when the flat jobs are
/// those of `flatten_jobs`.
pub proof fn lemma_entries_belong_to_their_event(
    jobs: Seq<EventJob>,
    flat: Seq<FlatJob>,
    books: Seq<Vec<OrderbookEntry>>,
    idx: int,
)
    requires
        flats_view(flat) == flat_spec(jobs),
        0 <= idx < jobs.len(),
    ensures
        forall|m: int|
            0 <= m < event_entries(idx, flat, books).len() ==> has_question(
                jobs[idx].markets@,
                (#[trigger] event_entries(idx, flat, books)[m]).question,
            ),
{
    let n = zipped_len(flat, books);
    lemma_entries_upto_belong(jobs, flat, books, idx, n);
    assert(event_entries(idx, flat, books) == entries_upto(idx, flat, books, n));
    assert forall|m: int| 0 <= m < event_entries(idx, flat, books).len() implies has_question(
        jobs[idx].markets@,
        (#[trigger] event_entries(idx, flat, books)[m]).question,
    ) by {
        assert(event_entries(idx, flat, books)[m] == entries_upto(idx, flat, books, n)[m]);
    }
}

/// How many moneyline markets the first `i` events have: where the books of
/// event `i` start when the markets are fetched event by event.
pub open spec fn markets_before(events: Seq<Event>, i: int) -> int
    decreases i,
{
    if i <= 0 {
        0
    } else {
        markets_before(events, i - 1) + moneyline_entries(events[i - 1]).len()
    }
}

/// The entries shown for the first `n` of the markets, whose books stand in
/// `books` from `start` on: each market whose book has two sides or more, in order.
pub open spec fn shown_entries(
    markets: Seq<(Seq<char>, Seq<Seq<char>>, Seq<Seq<char>>)>,
    books: Seq<Vec<OrderbookEntry>>,
    start: int,
    n: int,
) -> Seq<MarketEntryText>
    decreases n,
{
    if n <= 0 {
        Seq::empty()
    } else {
        let rest = shown_entries(markets, books, start, n - 1);
        let book = books[start + n - 1];
        if book@.len() >= 2 {
            rest.push(
                MarketEntryText {
                    question: markets[n - 1].0,
                    sides: entries_texts(book@),
                    sports_market_type: "moneyline"@,
                },
            )
        } else {
            rest
        }
    }
}

/// The entries shown for event `i` of the list.
pub open spec fn event_shown_entries(events: Seq<Event>, books: Seq<Vec<OrderbookEntry>>, i: int) -> Seq<
    MarketEntryText,
> {
    shown_entries(
        moneyline_entries(events[i]),
        books,
        markets_before(events, i),
        moneyline_entries(events[i]).len() as int,
    )
}

/// What a run reports of game events, given the books fetched for their
/// moneyline markets, event by event and market by market: for each event with
/// at least one market whose book has two sides or more, in order, its id, tag
/// labels, title, slug, end date in Hawaii time and those markets.
pub open spec fn run_report(events: Seq<Event>, books: Seq<Vec<OrderbookEntry>>) -> Seq<
    EventSummaryText,
>
    decreases events.len(),
{
    if events.len() == 0 {
        Seq::empty()
    } else {
        let i = events.len() - 1;
        let rest = run_report(events.drop_last(), books);
        let shown = event_shown_entries(events, books, i);
        if shown.len() > 0 {
            rest.push(
                EventSummaryText {
                    id: text_or_empty(events[i].id),
                    tag_id: tag_labels(events[i]),
                    title: text_or_empty(events[i].title),
                    slug: text_or_empty(events[i].slug),
                    end_date_hst: hst_text(spec_parse_utc(end_date_text(events[i]))->0),
                    market_entries: shown,
                },
            )
        } else {
            rest
        }
    }
}

proof fn lemma_flat_prefix(jobs: Seq<EventJob>, i: int)
    requires
        0 <= i <= jobs.len(),
    ensures
        flat_spec(jobs.take(i)).len() <= flat_spec(jobs).len(),
        forall|p: int|
            0 <= p < flat_spec(jobs.take(i)).len() ==> #[trigger] flat_spec(jobs.take(i))[p]
                == flat_spec(jobs)[p],
    decreases jobs.len(),
{
    if i == jobs.len() {
        assert(jobs.take(i) =~= jobs);
    } else {
        let init = jobs.drop_last();
        assert(jobs.take(i) =~= init.take(i));
        lemma_flat_prefix(init, i);
        let last = jobs.len() - 1;
        assert(flat_spec(jobs) == flat_spec(init) + jobs.last().markets@.map_values(
            |m: MarketJob| (last, m),
        ));
        assert forall|p: int| 0 <= p < flat_spec(jobs.take(i)).len() implies #[trigger] flat_spec(
            jobs.take(i),
        )[p] == flat_spec(jobs)[p] by {
            assert(flat_spec(init.take(i))[p] == flat_spec(init)[p]);
        }
    }
}

proof fn lemma_flat_step(jobs: Seq<EventJob>, i: int)
    requires
        0 <= i < jobs.len(),
    ensures
        flat_spec(jobs.take(i + 1)).len() == flat_spec(jobs.take(i)).len() + jobs[i].markets@.len(),
        forall|p: int|
            flat_spec(jobs.take(i)).len() <= p < flat_spec(jobs.take(i + 1)).len() ==> #[trigger] flat_spec(
                jobs.take(i + 1),
            )[p] == (i, jobs[i].markets@[p - flat_spec(jobs.take(i)).len()]),
{
    assert(jobs.take(i + 1).drop_last() =~= jobs.take(i));
    assert(jobs.take(i + 1).last() == jobs[i]);
}

proof fn lemma_flat_monotone(jobs: Seq<EventJob>, i: int, j: int)
    requires
        0 <= i <= j <= jobs.len(),
    ensures
        flat_spec(jobs.take(i)).len() <= flat_spec(jobs.take(j)).len(),
{
    lemma_flat_prefix(jobs.take(j), i);
    assert(jobs.take(j).take(i) =~= jobs.take(i));
}

proof fn lemma_flat_position(jobs: Seq<EventJob>)
    ensures
        forall|p: int|
            0 <= p < flat_spec(jobs).len() ==> {
                let i = (#[trigger] flat_spec(jobs)[p]).0;
                &&& 0 <= i < jobs.len()
                &&& flat_spec(jobs.take(i)).len() <= p < flat_spec(jobs.take(i + 1)).len()
            },
    decreases jobs.len(),
{
    if jobs.len() > 0 {
        let init = jobs.drop_last();
        lemma_flat_position(init);
        let last = jobs.len() - 1;
        let head = flat_spec(init);
        let tail = jobs.last().markets@.map_values(|m: MarketJob| (last, m));
        assert(flat_spec(jobs) == head + tail);
        assert(jobs.take(last) =~= init);
        assert(jobs.take(last + 1) =~= jobs);
        assert forall|p: int| 0 <= p < flat_spec(jobs).len() implies {
            let i = (#[trigger] flat_spec(jobs)[p]).0;
            &&& 0 <= i < jobs.len()
            &&& flat_spec(jobs.take(i)).len() <= p < flat_spec(jobs.take(i + 1)).len()
        } by {
            if p < head.len() {
                assert(flat_spec(jobs)[p] == head[p]);
                let i = head[p].0;
                assert(jobs.take(i) =~= init.take(i));
                assert(jobs.take(i + 1) =~= init.take(i + 1));
            } else {
                assert(flat_spec(jobs)[p] == tail[p - head.len()]);
            }
        }
    }
}

proof fn lemma_entries_upto_own(
    jobs: Seq<EventJob>,
    flat: Seq<FlatJob>,
    books: Seq<Vec<OrderbookEntry>>,
    idx: int,
    n: int,
)
    requires
        flats_view(flat) == flat_spec(jobs),
        books.len() == flat.len(),
        0 <= idx < jobs.len(),
        0 <= n <= flat.len(),
    ensures
        ({
            let start = flat_spec(jobs.take(idx)).len() as int;
            let count = jobs[idx].markets@.len() as int;
            let c = if n <= start {
                0
            } else if n >= start + count {
                count
            } else {
                n - start
            };
            entries_upto(idx, flat, books, n) == shown_entries(
                jobs_texts(jobs[idx].markets@),
                books,
                start,
                c,
            )
        }),
    decreases n,
{
    let start = flat_spec(jobs.take(idx)).len() as int;
    let count = jobs[idx].markets@.len() as int;
    let markets = jobs_texts(jobs[idx].markets@);
    lemma_flat_step(jobs, idx);
    if n > 0 {
        lemma_entries_upto_own(jobs, flat, books, idx, n - 1);
        let p = n - 1;
        lemma_flat_position(jobs);
        assert(flats_view(flat)[p] == flat_view(flat[p]));
        let i = flat_spec(jobs)[p].0;
        assert(i == flat[p].event_idx);
        if i < idx {
            lemma_flat_monotone(jobs, i + 1, idx);
        } else if i > idx {
            lemma_flat_monotone(jobs, idx + 1, i);
        } else {
            lemma_flat_prefix(jobs, idx + 1);
            assert(flat_spec(jobs.take(idx + 1))[p] == flat_spec(jobs)[p]);
            assert(*flat[p].market == jobs[idx].markets@[p - start]);
            assert(markets[p - start] == market_job_texts(jobs[idx].markets@[p - start]));
        }
    }
}

/// Each event's market entries are its own moneyline markets, in order, whose
/// book has two sides or more, where the books are fetched for the flattened
/// jobs one by one: those of an event start after the markets of the events
/// before it.
pub proof fn lemma_event_entries_are_own_markets(
    jobs: Seq<EventJob>,
    flat: Seq<FlatJob>,
    books: Seq<Vec<OrderbookEntry>>,
    idx: int,
)
    requires
        flats_view(flat) == flat_spec(jobs),
        books.len() == flat.len(),
        0 <= idx < jobs.len(),
    ensures
        event_entries(idx, flat, books) == shown_entries(
            jobs_texts(jobs[idx].markets@),
            books,
            flat_spec(jobs.take(idx)).len() as int,
            jobs[idx].markets@.len() as int,
        ),
{
    lemma_flat_step(jobs, idx);
    lemma_flat_monotone(jobs, idx + 1, jobs.len() as int);
    assert(jobs.take(jobs.len() as int) =~= jobs);
    assert(flats_view(flat).len() == flat.len());
    lemma_entries_upto_own(jobs, flat, books, idx, flat.len() as int);
}

proof fn lemma_markets_before_prefix(events: Seq<Event>, k: int, i: int)
    requires
        0 <= i <= k <= events.len(),
    ensures
        markets_before(events.take(k), i) == markets_before(events, i),
    decreases i,
{
    if i > 0 {
        lemma_markets_before_prefix(events, k, i - 1);
        assert(events.take(k)[i - 1] == events[i - 1]);
    }
}

proof fn lemma_start_is_markets_before(jobs: Seq<EventJob>, games: Seq<Event>, i: int)
    requires
        jobs.len() == games.len(),
        forall|j: int|
            0 <= j < jobs.len() ==> jobs_texts((#[trigger] jobs[j]).markets@) == moneyline_entries(
                games[j],
            ),
        0 <= i <= jobs.len(),
    ensures
        flat_spec(jobs.take(i)).len() == markets_before(games, i),
    decreases i,
{
    if i > 0 {
        lemma_start_is_markets_before(jobs, games, i - 1);
        lemma_flat_step(jobs, i - 1);
        assert(jobs_texts(jobs[i - 1].markets@).len() == jobs[i - 1].markets@.len());
    } else {
        assert(jobs.take(0) =~= Seq::<EventJob>::empty());
    }
}

/// The whole run: the summaries assembled from the jobs of the game events in
/// the window (as `filter_game_events` and `build_event_jobs` give them), their
/// flattened markets (as `flatten_jobs` gives them) and one fetched book per
/// flattened market are, in order, those of the game events that end in the
/// window and have at least one moneyline market whose book has two sides or
/// more, each with exactly those markets. Every such event has an RFC 3339 end
/// date, so `assemble_summaries` gives them.
pub proof fn lemma_run_reports_games_in_window(
    events: Seq<Event>,
    now: Timestamp,
    window_end: Timestamp,
    jobs: Seq<EventJob>,
    flat: Seq<FlatJob>,
    books: Seq<Vec<OrderbookEntry>>,
)
    requires
        jobs.len() == games_in_window(events, now, window_end).len(),
        forall|i: int|
            0 <= i < jobs.len() ==> *(#[trigger] jobs[i]).event == games_in_window(
                events,
                now,
                window_end,
            )[i] && jobs_texts(jobs[i].markets@) == moneyline_entries(
                games_in_window(events, now, window_end)[i],
            ),
        flats_view(flat) == flat_spec(jobs),
        books.len() == flat.len(),
    ensures
        summaries(jobs, flat, books) == run_report(games_in_window(events, now, window_end), books),
        end_dates_rfc3339(jobs),
{
    let games = games_in_window(events, now, window_end);
    lemma_game_filter_exact(events, now, window_end);
    assert forall|i: int| 0 <= i < jobs.len() implies (spec_parse_rfc3339(
        end_date_text(*(#[trigger] jobs[i]).event),
    ) is Some) by {
        assert(is_game_in_window(games[i], now, window_end));
    }
    lemma_run_prefix(jobs, games, flat, books, jobs.len() as int);
    assert(jobs.take(jobs.len() as int) =~= jobs);
    assert(games.take(games.len() as int) =~= games);
}

proof fn lemma_run_prefix(
    jobs: Seq<EventJob>,
    games: Seq<Event>,
    flat: Seq<FlatJob>,
    books: Seq<Vec<OrderbookEntry>>,
    k: int,
)
    requires
        jobs.len() == games.len(),
        forall|i: int|
            0 <= i < jobs.len() ==> *(#[trigger] jobs[i]).event == games[i] && jobs_texts(
                jobs[i].markets@,
            ) == moneyline_entries(games[i]),
        flats_view(flat) == flat_spec(jobs),
        books.len() == flat.len(),
        0 <= k <= jobs.len(),
    ensures
        summaries(jobs.take(k), flat, books) == run_report(games.take(k), books),
    decreases k,
{
    if k > 0 {
        lemma_run_prefix(jobs, games, flat, books, k - 1);
        let i = k - 1;
        assert(jobs.take(k).drop_last() =~= jobs.take(i));
        assert(games.take(k).drop_last() =~= games.take(i));
        assert(jobs.take(k).last() == jobs[i]);
        assert(games.take(k)[i] == games[i]);
        lemma_event_entries_are_own_markets(jobs, flat, books, i);
        lemma_start_is_markets_before(jobs, games, i);
        lemma_markets_before_prefix(games, k, i);
        assert(event_entries(i, flat, books) == event_shown_entries(games.take(k), books, i));
    } else {
        assert(jobs.take(0) =~= Seq::<EventJob>::empty());
        assert(games.take(0) =~= Seq::<Event>::empty());
    }
}

/// Every event's end date (or the empty text, where it has none) is a date-time
/// that chrono reads; where one is not, the bot's run stops on it.
pub open spec fn end_dates_readable(jobs: Seq<EventJob>) -> bool {
    forall|i: int| 0 <= i < jobs.len() ==> (spec_parse_utc(end_date_text(*(#[trigger] jobs[i]).event)) is Some)
}

/// Every event's end date is an RFC 3339 date-time, as it is for each event that
/// the game filter keeps.
pub open spec fn end_dates_rfc3339(jobs: Seq<EventJob>) -> bool {
    forall|i: int|
        0 <= i < jobs.len() ==> (spec_parse_rfc3339(end_date_text(*(#[trigger] jobs[i]).event)) is Some)
}

fn copy_entries(v: &Vec<OrderbookEntry>) -> (r: Vec<OrderbookEntry>)
    ensures
        entries_texts(r@) == entries_texts(v@),
{
    let mut out: Vec<OrderbookEntry> = Vec::new();
    let mut i: usize = 0;
    while i < v.len()
        invariant
            i <= v@.len(),
            entries_texts(out@) == entries_texts(v@.take(i as int)),
        decreases v@.len() - i,
    {
        let ghost old_out = out@;
        let e = OrderbookEntry { outcome: v[i].outcome.clone(), best_ask: v[i].best_ask.clone() };
        assert(entry_texts(e) == entry_texts(v@[i as int]));
        out.push(e);
        i = i + 1;
        proof {
            assert(v@.take(i as int) =~= v@.take(i - 1).push(v@[i - 1]));
            assert(entries_texts(out@) =~= entries_texts(old_out).push(entry_texts(e)));
            assert(entries_texts(out@) =~= entries_texts(v@.take(i as int)));
        }
    }
    assert(v@.take(v@.len() as int) =~= v@);
    out
}

fn copy_text(o: &Option<String>) -> (r: String)
    ensures
        r@ == text_or_empty(*o),
{
    match o {
        Some(s) => s.clone(),
        None => String::new(),
    }
}

fn entries_for_event(idx: usize, flat: &Vec<FlatJob>, books: &Vec<Vec<OrderbookEntry>>) -> (r: Vec<
    MarketEntry,
>)
    ensures
        market_entries_texts(r@) == event_entries(idx as int, flat@, books@),
{
    let n: usize = if flat.len() <= books.len() {
        flat.len()
    } else {
        books.len()
    };
    let mut out: Vec<MarketEntry> = Vec::new();
    let mut j: usize = 0;
    while j < n
        invariant
            j <= n,
            n as int == zipped_len(flat@, books@),
            market_entries_texts(out@) == entries_upto(idx as int, flat@, books@, j as int),
        decreases n - j,
    {
        if flat[j].event_idx == idx && books[j].len() >= 2 {
            let question = flat[j].market.question.clone();
            let sides = copy_entries(&books[j]);
            out.push(MarketEntry { question, sides, sports_market_type: "moneyline".to_owned() });
        }
        j = j + 1;
        proof {
            assert(market_entries_texts(out@) =~= entries_upto(
                idx as int,
                flat@,
                books@,
                j as int,
            ));
        }
    }
    out
}

/// Assembles the summaries of the game events: for each event, in order, its
/// market entries (the markets of the event whose fetch found at least two
/// sides), and, where there is at least one, its summary. `None` where an
/// event's end date cannot be read, on which the bot's run stops.
pub fn assemble_summaries(
    jobs: &Vec<EventJob>,
    flat: &Vec<FlatJob>,
    books: &Vec<Vec<OrderbookEntry>>,
) -> (r: Option<Vec<EventSummary>>)
    ensures
        r is Some <==> end_dates_readable(jobs@),
        end_dates_rfc3339(jobs@) ==> r is Some,
        r matches Some(v) ==> summaries_texts(v@) == summaries(jobs@, flat@, books@),
{
    let mut out: Vec<EventSummary> = Vec::new();
    let mut i: usize = 0;
    while i < jobs.len()
        invariant
            i <= jobs@.len(),
            end_dates_readable(jobs@.take(i as int)),
            summaries_texts(out@) == summaries(jobs@.take(i as int), flat@, books@),
        decreases jobs@.len() - i,
    {
        let event: &Event = jobs[i].event;
        let end_str = copy_text(&event.end_date);
        let end_date_hst = match try_utc_to_hst(end_str.as_str()) {
            Some(text) => text,
            None => {
                proof {
                    assert(!end_dates_readable(jobs@));
                    assert(spec_parse_rfc3339(end_date_text(*jobs@[i as int].event)) is None);
                }
                return None;
            },
        };
        let tag_id = event_tag_labels(event);
        let market_entries = entries_for_event(i, flat, books);
        proof {
            assert(jobs@.take(i + 1).drop_last() =~= jobs@.take(i as int));
            assert(jobs@.take(i + 1).last() == jobs@[i as int]);
        }
        if market_entries.len() > 0 {
            out.push(
                EventSummary {
                    id: copy_text(&event.id),
                    tag_id,
                    title: copy_text(&event.title),
                    slug: copy_text(&event.slug),
                    end_date_hst,
                    market_entries,
                },
            );
        }
        proof {
            assert(summaries_texts(out@) =~= summaries(jobs@.take(i + 1), flat@, books@));
            assert forall|k: int| 0 <= k < i + 1 implies (spec_parse_utc(
                end_date_text(*(#[trigger] jobs@.take(i + 1)[k]).event),
            ) is Some) by {
                if k < i {
                    assert(jobs@.take(i + 1)[k] == jobs@.take(i as int)[k]);
                }
            }
        }
        i = i + 1;
    }
    assert(jobs@.take(jobs@.len() as int) =~= jobs@);
    Some(out)
}

/// Texts joined with a separator between each two.
pub open spec fn join_texts(list: Seq<Seq<char>>, sep: Seq<char>) -> Seq<char>
    decreases list.len(),
{
    if list.len() == 0 {
        Seq::empty()
    } else if list.len() == 1 {
        list[0]
    } else {
        join_texts(list.drop_last(), sep) + sep + list.last()
    }
}

/// Joining is made of its parts: the join of two nonempty lists is the join of
/// the first, the separator, then the join of the second; a single text is
/// itself, and no text joins to the empty text.
pub proof fn lemma_join_texts_parts(a: Seq<Seq<char>>, b: Seq<Seq<char>>, sep: Seq<char>, x: Seq<char>)
    ensures
        join_texts(Seq::empty(), sep) == Seq::<char>::empty(),
        join_texts(seq![x], sep) == x,
        a.len() > 0 && b.len() > 0 ==> join_texts(a + b, sep) == join_texts(a, sep) + sep
            + join_texts(b, sep),
    decreases b.len(),
{
    assert(join_texts(seq![x], sep) == x);
    if a.len() > 0 && b.len() > 0 {
        if b.len() == 1 {
            assert((a + b).drop_last() =~= a);
            assert((a + b).last() == b[0]);
        } else {
            lemma_join_texts_parts(a, b.drop_last(), sep, x);
            assert((a + b).drop_last() =~= a + b.drop_last());
            assert((a + b).last() == b.last());
            assert(join_texts(a + b, sep) =~= join_texts(a, sep) + sep + join_texts(b, sep));
        }
    }
}

/// Joins strings with a separator between each two.
pub fn join_strings(list: &Vec<String>, sep: &str) -> (r: String)
    ensures
        r@ == join_texts(texts(list@), sep@),
{
    let mut out = String::new();
    let mut i: usize = 0;
    while i < list.len()
        invariant
            i <= list@.len(),
            out@ == join_texts(texts(list@.take(i as int)), sep@),
        decreases list@.len() - i,
    {
        if i > 0 {
            out.append(sep);
        }
        out.append(list[i].as_str());
        i = i + 1;
        proof {
            let t = texts(list@.take(i as int));
            assert(t.drop_last() =~= texts(list@.take(i - 1)));
            assert(t.last() == list@[i - 1]@);
            if i == 1 {
                assert(t.len() == 1);
            }
        }
    }
    assert(list@.take(list@.len() as int) =~= list@);
    out
}

/// The line shown for one side of a market.
pub open spec fn side_line(p: (Seq<char>, Seq<char>)) -> Seq<char> {
    "    "@ + p.0 + " | Ask: "@ + p.1
}

/// The lines shown for a market: its question, then one line per side.
pub open spec fn market_lines(m: MarketEntryText) -> Seq<Seq<char>> {
    seq!["  Market: "@ + m.question] + m.sides.map_values(|p: (Seq<char>, Seq<char>)| side_line(p))
}

pub open spec fn markets_lines(s: Seq<MarketEntryText>) -> Seq<Seq<char>>
    decreases s.len(),
{
    if s.len() == 0 {
        Seq::empty()
    } else {
        markets_lines(s.drop_last()) + market_lines(s.last())
    }
}

/// How many sides the market entries have in all.
pub open spec fn total_sides(s: Seq<MarketEntryText>) -> int
    decreases s.len(),
{
    if s.len() == 0 {
        0
    } else {
        total_sides(s.drop_last()) + s.last().sides.len()
    }
}

/// The lines of a list of markets are those of its parts one after the other:
/// the lines of two lists joined are the lines of the first, then those of the
/// second.
pub proof fn lemma_markets_lines_join(a: Seq<MarketEntryText>, b: Seq<MarketEntryText>)
    ensures
        markets_lines(a + b) == markets_lines(a) + markets_lines(b),
        total_sides(a + b) == total_sides(a) + total_sides(b),
    decreases b.len(),
{
    if b.len() == 0 {
        assert(a + b =~= a);
        assert(markets_lines(a) + markets_lines(b) =~= markets_lines(a));
    } else {
        lemma_markets_lines_join(a, b.drop_last());
        assert((a + b).drop_last() =~= a + b.drop_last());
        assert((a + b).last() == b.last());
        assert(markets_lines(a + b) =~= markets_lines(a) + markets_lines(b));
    }
}

/// Every market is shown: the lines of a list of markets are, for each market
/// in order, the line "  Market: " and its question, followed by one line
/// "    <outcome> | Ask: <ask>" per side; there are as many lines as markets and
/// sides together.
pub proof fn lemma_every_market_shown(s: Seq<MarketEntryText>, m: MarketEntryText)
    ensures
        markets_lines(seq![m]) == seq!["  Market: "@ + m.question] + m.sides.map_values(
            |p: (Seq<char>, Seq<char>)| "    "@ + p.0 + " | Ask: "@ + p.1,
        ),
        markets_lines(s.push(m)) == markets_lines(s) + markets_lines(seq![m]),
        markets_lines(s).len() == s.len() + total_sides(s),
    decreases s.len(),
{
    let single = seq![m];
    assert(single.drop_last() =~= Seq::<MarketEntryText>::empty());
    assert(markets_lines(single.drop_last()) == Seq::<Seq<char>>::empty());
    assert(single.last() == m);
    assert(m.sides.map_values(|p: (Seq<char>, Seq<char>)| side_line(p)) =~= m.sides.map_values(
        |p: (Seq<char>, Seq<char>)| "    "@ + p.0 + " | Ask: "@ + p.1,
    ));
    assert(markets_lines(single) =~= seq!["  Market: "@ + m.question] + m.sides.map_values(
        |p: (Seq<char>, Seq<char>)| "    "@ + p.0 + " | Ask: "@ + p.1,
    ));
    assert(s.push(m) =~= s + single);
    lemma_markets_lines_join(s, single);
    if s.len() > 0 {
        lemma_every_market_shown(s.drop_last(), s.last());
    }
}

/// The lines shown for an event: a heading with its title and end date, its
/// tags, then its markets and their asks, e.g.
/// "EVENT: A vs. B | EndDate: February 23, 2026 08:00 AM HST",
/// "  Tags: 1:Sports, 100639:Games", "  Market: Will A win?", "    Yes | Ask: 0.5".
pub open spec fn event_lines(
    title: Seq<char>,
    end_date_hst: Seq<char>,
    tags: Seq<Seq<char>>,
    entries: Seq<MarketEntryText>,
) -> Seq<Seq<char>> {
    seq!["EVENT: "@ + title + " | EndDate: "@ + end_date_hst, "  Tags: "@ + join_texts(tags, ", "@)]
        + markets_lines(entries)
}

/// An event is shown as its heading, its tag line, then the lines of every one
/// of its markets: two lines more than its markets and their sides together.
pub proof fn lemma_event_lines_shape(
    title: Seq<char>,
    end_date_hst: Seq<char>,
    tags: Seq<Seq<char>>,
    entries: Seq<MarketEntryText>,
)
    ensures
        event_lines(title, end_date_hst, tags, entries).len() == 2 + entries.len() + total_sides(
            entries,
        ),
        event_lines(title, end_date_hst, tags, entries)[0] == "EVENT: "@ + title + " | EndDate: "@
            + end_date_hst,
        event_lines(title, end_date_hst, tags, entries)[1] == "  Tags: "@ + join_texts(tags, ", "@),
        event_lines(title, end_date_hst, tags, entries).skip(2) == markets_lines(entries),
{
    if entries.len() > 0 {
        lemma_every_market_shown(entries.drop_last(), entries.last());
        assert(entries.drop_last().push(entries.last()) =~= entries);
    } else {
        assert(entries =~= Seq::<MarketEntryText>::empty());
    }
    assert(event_lines(title, end_date_hst, tags, entries).skip(2) =~= markets_lines(entries));
}

/// Builds the lines shown on the terminal for an event.
pub fn event_report_lines(
    title: &str,
    end_date_hst: &str,
    tags: &Vec<String>,
    entries: &Vec<MarketEntry>,
) -> (r: Vec<String>)
    ensures
        texts(r@) == event_lines(title@, end_date_hst@, texts(tags@), market_entries_texts(entries@)),
{
    let mut lines: Vec<String> = Vec::new();
    let mut head = "EVENT: ".to_owned();
    head.append(title);
    head.append(" | EndDate: ");
    head.append(end_date_hst);
    lines.push(head);
    let mut tag_line = "  Tags: ".to_owned();
    let joined = join_strings(tags, ", ");
    tag_line.append(joined.as_str());
    lines.push(tag_line);
    let ghost all = market_entries_texts(entries@);
    let ghost top = seq![
        "EVENT: "@ + title@ + " | EndDate: "@ + end_date_hst@,
        "  Tags: "@ + join_texts(texts(tags@), ", "@),
    ];
    assert(texts(lines@) =~= top + markets_lines(all.take(0)));
    let mut i: usize = 0;
    while i < entries.len()
        invariant
            i <= entries@.len(),
            all == market_entries_texts(entries@),
            texts(lines@) == top + markets_lines(all.take(i as int)),
        decreases entries@.len() - i,
    {
        let entry = &entries[i];
        let ghost before = texts(lines@);
        let mut q = "  Market: ".to_owned();
        q.append(entry.question.as_str());
        lines.push(q);
        let mut j: usize = 0;
        while j < entry.sides.len()
            invariant
                j <= entry.sides@.len(),
                i < entries@.len(),
                *entry == entries@[i as int],
                texts(lines@) == before + seq!["  Market: "@ + entry.question@]
                    + crate::orderbook::entries_texts(entry.sides@.take(j as int)).map_values(
                    |p: (Seq<char>, Seq<char>)| side_line(p),
                ),
            decreases entry.sides@.len() - j,
        {
            let mut line = "    ".to_owned();
            line.append(entry.sides[j].outcome.as_str());
            line.append(" | Ask: ");
            line.append(entry.sides[j].best_ask.as_str());
            let ghost old_lines = texts(lines@);
            let ghost side = crate::orderbook::entry_texts(entry.sides@[j as int]);
            assert(line@ == side_line(side));
            lines.push(line);
            j = j + 1;
            proof {
                assert(texts(lines@) =~= old_lines.push(side_line(side)));
                assert(entry.sides@.take(j as int) =~= entry.sides@.take(j - 1).push(entry.sides@[j - 1]));
                assert(crate::orderbook::entries_texts(entry.sides@.take(j as int)) =~= crate::orderbook::entries_texts(entry.sides@.take(j - 1)).push(side));
                assert(texts(lines@) =~= before + seq!["  Market: "@ + entry.question@]
                    + crate::orderbook::entries_texts(entry.sides@.take(j as int)).map_values(
                    |p: (Seq<char>, Seq<char>)| side_line(p),
                ));
            }
        }
        proof {
            assert(entry.sides@.take(j as int) =~= entry.sides@);
            assert(all.take(i + 1).drop_last() =~= all.take(i as int));
            assert(all.take(i + 1).last() == entry@);
            assert(texts(lines@) =~= top + markets_lines(all.take(i + 1)));
        }
        i = i + 1;
    }
    assert(all.take(entries@.len() as int) =~= all);
    lines
}

} // verus!
