//! The bot's side of the Telegram Bot API: the request URLs it builds, how it
//! reads a batch of updates, and how it judges the reply to a document upload.
use vstd::prelude::*;
use vstd::string::StringSliceAdditionalSpecFns;
use crate::decimal::{i64_text, i64_to_text};
use crate::json::{json_ok_flag, spec_json_ok_flag};

verus! {

/// The bytes that urlencoding leaves as they are: ASCII letters and digits and
/// `-`, `.`, `_`, `~`.
pub open spec fn is_unreserved(b: u8) -> bool {
    (0x30 <= b && b <= 0x39) || (0x41 <= b && b <= 0x5a) || (0x61 <= b && b <= 0x7a) || b == 0x2d
        || b == 0x2e || b == 0x5f || b == 0x7e
}

/// An upper-case hexadecimal digit.
pub open spec fn hex_upper(d: int) -> char {
    if d < 10 {
        (0x30 + d) as char
    } else {
        (0x41 + d - 10) as char
    }
}

/// The text that percent-encodes one byte.
pub open spec fn encode_byte(b: u8) -> Seq<char> {
    if is_unreserved(b) {
        seq![b as char]
    } else {
        seq!['%', hex_upper(b as int / 16), hex_upper(b as int % 16)]
    }
}

/// Percent-encoding of a byte string: every byte but the unreserved ones becomes
/// `%` and two upper-case hexadecimal digits.
pub open spec fn percent_encode(bytes: Seq<u8>) -> Seq<char>
    decreases bytes.len(),
{
    if bytes.len() == 0 {
        Seq::empty()
    } else {
        percent_encode(bytes.drop_last()) + encode_byte(bytes.last())
    }
}

/// Calls `urlencoding::encode`. Trusted: as its documentation says, it
/// percent-encodes every byte of the UTF-8 text except ASCII alphanumerics and
/// `-`, `_`, `.`, `~`, with upper-case hexadecimal digits.
#[verifier::external_body]
fn url_encode(text: &str) -> (r: String)
    ensures
        r@ == percent_encode(text.spec_bytes()),
{
    urlencoding::encode(text).into_owned()
}

/// A character that may stand in a URL query value as it is.
pub open spec fn is_query_safe(c: char) -> bool {
    ('0' <= c && c <= '9') || ('A' <= c && c <= 'Z') || ('a' <= c && c <= 'z') || c == '-' || c
        == '.' || c == '_' || c == '~' || c == '%'
}

/// Percent-encoded text holds only query-safe characters, whatever the message.
pub proof fn lemma_percent_encode_query_safe(bytes: Seq<u8>)
    ensures
        forall|i: int|
            0 <= i < percent_encode(bytes).len() ==> is_query_safe(
                #[trigger] percent_encode(bytes)[i],
            ),
    decreases bytes.len(),
{
    if bytes.len() > 0 {
        lemma_percent_encode_query_safe(bytes.drop_last());
        let b = bytes.last();
        let prefix = percent_encode(bytes.drop_last());
        let tail = encode_byte(b);
        assert(percent_encode(bytes) == prefix + tail);
        assert(b as int / 16 < 16);
        assert forall|i: int| 0 <= i < tail.len() implies is_query_safe(#[trigger] tail[i]) by {
        }
        assert forall|i: int| 0 <= i < percent_encode(bytes).len() implies is_query_safe(
            #[trigger] percent_encode(bytes)[i],
        ) by {
            if i < prefix.len() {
                assert(percent_encode(bytes)[i] == prefix[i]);
            } else {
                assert(percent_encode(bytes)[i] == tail[i - prefix.len()]);
            }
        }
    }
}

/// The base of every Bot API request of a bot.
pub open spec fn api_base_text(token: Seq<char>) -> Seq<char> {
    "https://api.telegram.org/bot"@ + token
}

/// Builds the base of every Bot API request of a bot.
pub fn telegram_api_base(token: &str) -> (r: String)
    ensures
        r@ == api_base_text(token@),
{
    let mut url = "https://api.telegram.org/bot".to_owned();
    url.append(token);
    url
}

/// The `sendDocument` endpoint under a bot's base.
pub fn send_document_url(base_url: &str) -> (r: String)
    ensures
        r@ == base_url@ + "/sendDocument"@,
{
    let mut url = base_url.to_owned();
    url.append("/sendDocument");
    url
}

/// The `sendMessage` request that sends a text to a chat.
pub open spec fn send_message_url_text(token: Seq<char>, chat_id: Seq<char>, text: &str) -> Seq<
    char,
> {
    api_base_text(token) + "/sendMessage?chat_id="@ + chat_id + "&text="@ + percent_encode(
        text.spec_bytes(),
    )
}

/// Builds the `sendMessage` request that sends `text` to a chat, with the text
/// percent-encoded.
pub fn send_message_url(bot_token: &str, chat_id: &str, text: &str) -> (r: String)
    ensures
        r@ == send_message_url_text(bot_token@, chat_id@, text),
{
    let mut url = telegram_api_base(bot_token);
    url.append("/sendMessage?chat_id=");
    url.append(chat_id);
    url.append("&text=");
    let encoded = url_encode(text);
    url.append(encoded.as_str());
    url
}

/// The long-poll request for the updates from `offset` on, waiting at most 5 s.
pub open spec fn updates_url_text(token: Seq<char>, offset: i64) -> Seq<char> {
    api_base_text(token) + "/getUpdates?offset="@ + i64_text(offset) + "&timeout=5"@
}

/// Builds the long-poll request for the updates from `offset` on.
pub fn updates_url(bot_token: &str, offset: i64) -> (r: String)
    ensures
        r@ == updates_url_text(bot_token@, offset),
{
    let mut url = telegram_api_base(bot_token);
    url.append("/getUpdates?offset=");
    let number = i64_to_text(offset);
    url.append(number.as_str());
    url.append("&timeout=5");
    url
}

/// One update of a `getUpdates` reply: its `update_id` and its message's `text`.
pub struct Update {
    pub update_id: Option<i64>,
    pub text: Option<String>,
}

/// The command that starts a run.
pub open spec fn fetch_command() -> Seq<char> {
    "fetch games"@
}

/// Whether a command is the one that starts a run.
pub fn is_fetch_command(cmd: &str) -> (r: bool)
    ensures
        r == (cmd@ == fetch_command()),
{
    let a = cmd.to_owned();
    let b = "fetch games".to_owned();
    a.eq(&b)
}

pub open spec fn id_or_zero(u: Update) -> int {
    match u.update_id {
        Some(id) => id as int,
        None => 0,
    }
}

pub open spec fn asks_fetch(u: Update) -> bool {
    match u.text {
        Some(t) => t@ == fetch_command(),
        None => false,
    }
}

/// What a batch of updates asks of the bot.
pub struct UpdateBatch {
    /// The offset of the next poll.
    pub next_offset: i64,
    /// How many updates asked for a run; each is answered and run in turn.
    pub fetch_requests: usize,
}

/// The offset after a batch: one past the last update's id (an update without
/// an id counts as 0), or the old offset for an empty batch.
pub open spec fn next_offset_of(updates: Seq<Update>, offset: i64) -> int {
    if updates.len() == 0 {
        offset as int
    } else {
        id_or_zero(updates.last()) + 1
    }
}

/// Reads a batch of updates: the next offset, and the number of updates whose
/// text is the "fetch games" command.
pub fn process_updates(updates: &Vec<Update>, offset: i64) -> (r: UpdateBatch)
    requires
        forall|i: int| 0 <= i < updates@.len() ==> id_or_zero(#[trigger] updates@[i]) < i64::MAX,
    ensures
        r.next_offset == next_offset_of(updates@, offset),
        r.fetch_requests == updates@.filter(|u: Update| asks_fetch(u)).len(),
{
    let ghost pred = |u: Update| asks_fetch(u);
    let mut next: i64 = offset;
    let mut count: usize = 0;
    let mut i: usize = 0;
    while i < updates.len()
        invariant
            i <= updates@.len(),
            forall|k: int| 0 <= k < updates@.len() ==> id_or_zero(#[trigger] updates@[k]) < i64::MAX,
            pred == (|u: Update| asks_fetch(u)),
            next == next_offset_of(updates@.take(i as int), offset),
            count == updates@.take(i as int).filter(pred).len(),
            count <= i,
        decreases updates@.len() - i,
    {
        proof {
            reveal_with_fuel(Seq::<_>::filter, 1);
            assert(updates@.take(i + 1).drop_last() =~= updates@.take(i as int));
            assert(updates@.take(i + 1).last() == updates@[i as int]);
        }
        let u = &updates[i];
        let id: i64 = match u.update_id {
            Some(id) => id,
            None => 0,
        };
        assert(id_or_zero(updates@[i as int]) < i64::MAX);
        next = id + 1;
        let wants = match &u.text {
            Some(t) => is_fetch_command(t.as_str()),
            None => false,
        };
        if wants {
            count = count + 1;
        }
        i = i + 1;
    }
    assert(updates@.take(updates@.len() as int) =~= updates@);
    UpdateBatch { next_offset: next, fetch_requests: count }
}

/// Every batch is acknowledged: after a nonempty batch the next poll starts one
/// past the id of the batch's last update (an update without an id counting as
/// 0), whatever the updates' texts; only an empty batch leaves the offset as it
/// was. An update added to a batch moves the offset past its own id, and adds
/// one request exactly when its text is "fetch games".
pub proof fn lemma_batch_acknowledged(updates: Seq<Update>, offset: i64, u: Update)
    ensures
        updates.len() == 0 ==> next_offset_of(updates, offset) == offset as int,
        updates.len() > 0 ==> next_offset_of(updates, offset) == match updates[updates.len()
            - 1].update_id {
            Some(id) => id as int + 1,
            None => 1int,
        },
        next_offset_of(updates.push(u), offset) == match u.update_id {
            Some(id) => id as int + 1,
            None => 1int,
        },
        updates.push(u).filter(|v: Update| asks_fetch(v)).len() == updates.filter(
            |v: Update| asks_fetch(v),
        ).len() + if (u.text matches Some(t) && t@ == "fetch games"@) {
            1int
        } else {
            0int
        },
{
    reveal_with_fuel(Seq::<_>::filter, 1);
    assert(updates.push(u).drop_last() =~= updates);
}

/// Why the Bot API did not take a document.
pub enum SendDocumentError {
    /// The HTTP status was not a success (2xx).
    Status,
    /// The body of a successful reply was not JSON.
    InvalidJson,
    /// The reply was JSON, but its field `ok` was not the boolean `true`: the
    /// Bot API reported an error of its own.
    NotOk,
}

/// Whether an HTTP status code is a success (2xx).
pub open spec fn is_success_status(status: u16) -> bool {
    200 <= status && status <= 299
}

/// The judgement on a document upload, given its status and what its body
/// holds in the field `ok` (`None` for a body that is not JSON).
pub open spec fn spec_send_document_verdict(
    status: u16,
    ok_flag: Option<Option<bool>>,
) -> Result<(), SendDocumentError> {
    if !is_success_status(status) {
        Err(SendDocumentError::Status)
    } else {
        match ok_flag {
            None => Err(SendDocumentError::InvalidJson),
            Some(Some(true)) => Ok(()),
            Some(_) => Err(SendDocumentError::NotOk),
        }
    }
}

/// Judges a document upload from its status and the field `ok` of its body:
/// an error for a status that is not a success, else an error for a body that
/// is not JSON, else success exactly when `ok` is the boolean `true`.
pub fn send_document_verdict(
    status: u16,
    ok_flag: Option<Option<bool>>,
) -> (r: Result<(), SendDocumentError>)
    ensures
        r == spec_send_document_verdict(status, ok_flag),
        r is Ok <==> is_success_status(status) && ok_flag == Some(Some(true)),
{
    if !(200 <= status && status <= 299) {
        return Err(SendDocumentError::Status);
    }
    match ok_flag {
        None => Err(SendDocumentError::InvalidJson),
        Some(Some(true)) => Ok(()),
        Some(_) => Err(SendDocumentError::NotOk),
    }
}

/// Judges the reply to a document upload from its status and body: success
/// only for a 2xx status with a JSON body whose field `ok` is `true`.
pub fn check_send_document_reply(status: u16, body: &str) -> (r: Result<(), SendDocumentError>)
    ensures
        r == spec_send_document_verdict(status, spec_json_ok_flag(body@)),
        r is Ok <==> is_success_status(status) && spec_json_ok_flag(body@) == Some(Some(true)),
{
    if !(200 <= status && status <= 299) {
        return Err(SendDocumentError::Status);
    }
    send_document_verdict(status, json_ok_flag(body))
}

} // verus!
