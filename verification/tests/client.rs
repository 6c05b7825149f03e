use gpt_reg::moemail::{
    check_delete_reply, check_reply, is_success_status, ApiRequest, DeleteReply, GenerateEmailRequest,
    HttpMethod, MoEmailClient, MoEmailError, OperationResult, RequestBody, ShareRequest,
};

fn pairs(v: &[gpt_reg::moemail::NameValue]) -> Vec<(String, String)> {
    v.iter().map(|p| (p.name.clone(), p.value.clone())).collect()
}

fn keyed_headers(key: &str) -> Vec<(String, String)> {
    vec![
        ("X-API-Key".to_string(), key.to_string()),
        ("accept".to_string(), "application/json".to_string()),
    ]
}

fn plain_headers() -> Vec<(String, String)> {
    vec![("accept".to_string(), "application/json".to_string())]
}

fn assert_request(r: &ApiRequest, method: HttpMethod, url: &str) {
    assert_eq!(r.method, method);
    assert_eq!(r.url, url);
}

#[test]
fn client_without_key() {
    let c = MoEmailClient::new("https://mail.example.org");
    assert_eq!(c.base_url(), "https://mail.example.org");
    assert_eq!(c.api_key(), None);
}

#[test]
fn client_with_key_and_key_changes() {
    let mut c = MoEmailClient::with_api_key("https://mail.example.org/", "k1");
    assert_eq!(c.api_key(), Some("k1"));
    c.set_api_key("k2");
    assert_eq!(c.api_key(), Some("k2"));
    assert_eq!(c.base_url(), "https://mail.example.org/");
    c.clear_api_key();
    assert_eq!(c.api_key(), None);
    let r = c.get_config_request();
    assert_eq!(pairs(&r.headers), plain_headers());
}

#[test]
fn config_request_is_addressed_under_base() {
    let c = MoEmailClient::with_api_key("https://mail.example.org///", "KEY");
    let r = c.get_config_request();
    assert_request(&r, HttpMethod::Get, "https://mail.example.org/api/config");
    assert_eq!(pairs(&r.headers), keyed_headers("KEY"));
    assert!(r.query.is_empty());
    assert!(r.body.is_none());
}

#[test]
fn trailing_slashes_of_base_do_not_matter() {
    let a = MoEmailClient::new("https://h.io");
    let b = MoEmailClient::new("https://h.io//");
    assert_eq!(a.list_emails_request(None).url, b.list_emails_request(None).url);
    assert_eq!(a.shared_email_url("t"), b.shared_email_url("t"));
}

#[test]
fn generate_email_request_carries_body() {
    let c = MoEmailClient::new("http://localhost:3000");
    let body = GenerateEmailRequest::new("lanu.eu.org").expiry_time(3_600_000);
    let r = c.generate_email_request(body.clone());
    assert_request(&r, HttpMethod::Post, "http://localhost:3000/api/emails/generate");
    assert_eq!(pairs(&r.headers), plain_headers());
    match r.body {
        Some(RequestBody::GenerateEmail(b)) => assert_eq!(b, body),
        _ => panic!("wrong body"),
    }
}

#[test]
fn listings_carry_the_cursor() {
    let c = MoEmailClient::new("https://m.io");
    let r = c.list_emails_request(Some("abc"));
    assert_request(&r, HttpMethod::Get, "https://m.io/api/emails");
    assert_eq!(pairs(&r.query), vec![("cursor".to_string(), "abc".to_string())]);
    let r = c.list_email_messages_request("e1", None);
    assert_request(&r, HttpMethod::Get, "https://m.io/api/emails/e1");
    assert!(r.query.is_empty());
    let r = c.list_email_messages_request("e1", Some("n2"));
    assert_eq!(pairs(&r.query), vec![("cursor".to_string(), "n2".to_string())]);
}

#[test]
fn every_call_has_its_address() {
    let c = MoEmailClient::with_api_key("https://m.io/", "K");
    assert_request(&c.delete_email_request("e"), HttpMethod::Delete, "https://m.io/api/emails/e");
    assert_request(&c.get_message_request("e", "m"), HttpMethod::Get, "https://m.io/api/emails/e/m");
    let r = c.create_email_share_request("e", ShareRequest::new().expires_in(60));
    assert_request(&r, HttpMethod::Post, "https://m.io/api/emails/e/share");
    match r.body {
        Some(RequestBody::Share(s)) => assert_eq!(s.expires_in, Some(60)),
        _ => panic!("wrong body"),
    }
    assert_request(&c.list_email_shares_request("e"), HttpMethod::Get, "https://m.io/api/emails/e/share");
    assert_request(
        &c.delete_email_share_request("e", "s"),
        HttpMethod::Delete,
        "https://m.io/api/emails/e/share/s",
    );
    assert_request(
        &c.create_message_share_request("e", "m", ShareRequest::new()),
        HttpMethod::Post,
        "https://m.io/api/emails/e/messages/m/share",
    );
    assert_request(
        &c.list_message_shares_request("e", "m"),
        HttpMethod::Get,
        "https://m.io/api/emails/e/messages/m/share",
    );
    let r = c.delete_message_share_request("e", "m", "s");
    assert_request(&r, HttpMethod::Delete, "https://m.io/api/emails/e/messages/m/share/s");
    assert_eq!(pairs(&r.headers), keyed_headers("K"));
}

#[test]
fn shared_urls() {
    let c = MoEmailClient::new("https://m.io/");
    assert_eq!(c.shared_email_url("tok"), "https://m.io/shared/tok");
    assert_eq!(c.shared_message_url("tok"), "https://m.io/shared/message/tok");
}

#[test]
fn success_statuses() {
    assert!(!is_success_status(199));
    assert!(is_success_status(200));
    assert!(is_success_status(204));
    assert!(is_success_status(299));
    assert!(!is_success_status(300));
    assert!(!is_success_status(404));
}

#[test]
fn reply_with_success_goes_on_to_decoding() {
    match check_reply(200, "{\"id\":\"1\"}".to_string()) {
        Ok(b) => assert_eq!(b, "{\"id\":\"1\"}"),
        Err(e) => panic!("{}", e.describe()),
    }
}

#[test]
fn reply_with_failure_is_api_error() {
    match check_reply(404, "missing".to_string()) {
        Err(MoEmailError::Api { status, body }) => {
            assert_eq!(status, 404);
            assert_eq!(body, "missing");
        },
        _ => panic!("expected an API error"),
    }
}

#[test]
fn delete_replies() {
    assert_eq!(
        check_delete_reply(200, " \n\t\u{3000}".to_string()).unwrap(),
        DeleteReply::Done(OperationResult { success: true })
    );
    assert_eq!(
        check_delete_reply(204, String::new()).unwrap(),
        DeleteReply::Done(OperationResult { success: true })
    );
    assert_eq!(
        check_delete_reply(200, "{\"success\":false}".to_string()).unwrap(),
        DeleteReply::Decode("{\"success\":false}".to_string())
    );
    match check_delete_reply(500, " ".to_string()) {
        Err(MoEmailError::Api { status, body }) => {
            assert_eq!(status, 500);
            assert_eq!(body, " ");
        },
        _ => panic!("expected an API error"),
    }
}

#[test]
fn api_error_text() {
    let e = MoEmailError::Api { status: 404, body: "no such mailbox".to_string() };
    assert_eq!(e.describe(), "API returned status 404 Not Found: no such mailbox");
    let e = MoEmailError::Api { status: 500, body: "  \n".to_string() };
    assert_eq!(e.describe(), "API returned status 500 Internal Server Error");
}

#[test]
fn json_error_text() {
    let err = serde_json::from_str::<u8>("x").unwrap_err();
    let text = err.to_string();
    let e = MoEmailError::from(err);
    assert!(matches!(e, MoEmailError::Json(_)));
    assert_eq!(e.describe(), format!("invalid JSON response: {}", text));
}

#[test]
fn request_builders() {
    let r = GenerateEmailRequest::new("d.org");
    assert_eq!(r.name, None);
    assert_eq!(r.expiry_time, None);
    assert_eq!(r.domain, "d.org");
    let r = r.name("box").expiry_time(5);
    assert_eq!(r.name.as_deref(), Some("box"));
    assert_eq!(r.expiry_time, Some(5));
    assert_eq!(r.domain, "d.org");
    assert_eq!(ShareRequest::new().expires_in, None);
    assert_eq!(ShareRequest::default(), ShareRequest::new());
    assert_eq!(ShareRequest::new().expires_in(9).expires_in, Some(9));
}
