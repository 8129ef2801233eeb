use latex_telegram_bot::telegram::{
    check_send_document_reply, is_fetch_command, send_document_verdict, process_updates, send_document_url,
    send_message_url, telegram_api_base, updates_url, SendDocumentError, Update,
};

fn update(id: Option<i64>, text: Option<&str>) -> Update {
    Update { update_id: id, text: text.map(|x| x.to_string()) }
}

#[test]
fn send_message_url_is_encoded() {
    let url = send_message_url("123:ABC", "-100", "Received 'fetch games' command, running...");
    assert_eq!(
        url,
        "https://api.telegram.org/bot123:ABC/sendMessage?chat_id=-100&text=Received%20%27fetch%20games%27%20command%2C%20running..."
    );
}

#[test]
fn send_message_url_encodes_utf8_bytes() {
    let url = send_message_url("t", "1", "é~a_b-c.d&");
    assert_eq!(url, "https://api.telegram.org/bott/sendMessage?chat_id=1&text=%C3%A9~a_b-c.d%26");
}

#[test]
fn encoded_text_is_query_safe() {
    let url = send_message_url("t", "1", "a b/c?d=e&f#g%h+i\n☃");
    let text = url.split("&text=").nth(1).unwrap();
    assert!(text.chars().all(|c| c.is_ascii_alphanumeric() || "-._~%".contains(c)));
    assert_eq!(text, "a%20b%2Fc%3Fd%3De%26f%23g%25h%2Bi%0A%E2%98%83");
}

#[test]
fn bot_api_urls() {
    assert_eq!(telegram_api_base("TOKEN"), "https://api.telegram.org/botTOKEN");
    assert_eq!(send_document_url("https://api.telegram.org/botTOKEN"), "https://api.telegram.org/botTOKEN/sendDocument");
    assert_eq!(updates_url("TOKEN", 0), "https://api.telegram.org/botTOKEN/getUpdates?offset=0&timeout=5");
    assert_eq!(updates_url("TOKEN", 987654321), "https://api.telegram.org/botTOKEN/getUpdates?offset=987654321&timeout=5");
    assert_eq!(updates_url("TOKEN", -3), "https://api.telegram.org/botTOKEN/getUpdates?offset=-3&timeout=5");
}

#[test]
fn fetch_command_recognised() {
    assert!(is_fetch_command("fetch games"));
    assert!(!is_fetch_command("fetch games "));
    assert!(!is_fetch_command("Fetch games"));
    assert!(!is_fetch_command(""));
}

#[test]
fn batch_of_updates() {
    let updates = vec![
        update(Some(10), Some("hello")),
        update(Some(11), Some("fetch games")),
        update(Some(12), None),
        update(Some(13), Some("fetch games")),
    ];
    let batch = process_updates(&updates, 5);
    assert_eq!(batch.next_offset, 14);
    assert_eq!(batch.fetch_requests, 2);
}

#[test]
fn empty_batch_keeps_offset() {
    let batch = process_updates(&Vec::new(), 77);
    assert_eq!(batch.next_offset, 77);
    assert_eq!(batch.fetch_requests, 0);
}

#[test]
fn update_without_id_counts_as_zero() {
    let batch = process_updates(&vec![update(Some(40), None), update(None, Some("fetch games"))], 3);
    assert_eq!(batch.next_offset, 1);
    assert_eq!(batch.fetch_requests, 1);
}

#[test]
fn document_reply_judged() {
    assert!(matches!(check_send_document_reply(404, "{\"ok\":false}"), Err(SendDocumentError::Status)));
    assert!(matches!(check_send_document_reply(500, "oops"), Err(SendDocumentError::Status)));
    assert!(matches!(check_send_document_reply(199, "{}"), Err(SendDocumentError::Status)));
    assert!(matches!(check_send_document_reply(200, "<html>"), Err(SendDocumentError::InvalidJson)));
    assert!(check_send_document_reply(200, "{\"ok\":true}").is_ok());
    assert!(check_send_document_reply(299, "{\"result\":{},\"ok\":true}").is_ok());
}

#[test]
fn document_reply_with_telegram_error_fails() {
    let body = "{\"ok\":false,\"error_code\":400,\"description\":\"Bad Request\"}";
    assert!(matches!(check_send_document_reply(200, body), Err(SendDocumentError::NotOk)));
    assert!(matches!(check_send_document_reply(299, "[1, 2]"), Err(SendDocumentError::NotOk)));
    assert!(matches!(check_send_document_reply(200, "{\"ok\":\"true\"}"), Err(SendDocumentError::NotOk)));
    assert!(matches!(check_send_document_reply(200, "{}"), Err(SendDocumentError::NotOk)));
}

#[test]
fn document_verdict_from_flag() {
    assert!(send_document_verdict(200, Some(Some(true))).is_ok());
    assert!(matches!(send_document_verdict(200, Some(Some(false))), Err(SendDocumentError::NotOk)));
    assert!(matches!(send_document_verdict(200, Some(None)), Err(SendDocumentError::NotOk)));
    assert!(matches!(send_document_verdict(200, None), Err(SendDocumentError::InvalidJson)));
    assert!(matches!(send_document_verdict(301, Some(Some(true))), Err(SendDocumentError::Status)));
}
