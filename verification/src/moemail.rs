//! The MoEmail API: the data it exchanges, how each call is addressed, and
//! how its replies are judged. Sending and JSON decoding happen outside.

use vstd::prelude::*;
use vstd::string::*;
use vstd::utf8::encode_utf8;
use crate::numeric::{decimal, parse_i64, parse_i64_spec, u64_to_decimal, IntErrorKind};
use crate::text::{chars_of, lemma_trim_end_added_slashes, lemma_trim_start_added_slashes, lemma_trim_end_no_slash, lemma_trim_start_no_slash, slashes, is_blank, is_blank_str, trim_end_slashes, trim_end_slashes_str, trim_start_slashes, trim_start_slashes_str};

verus! {

// ---------------------------------------------------------------------------
// Addresses
// ---------------------------------------------------------------------------

/// The full address of `path` under the service rooted at `base`: the base
/// without trailing slashes, one slash, and the path without leading slashes.
pub open spec fn endpoint_url(base: Seq<char>, path: Seq<char>) -> Seq<char> {
    trim_end_slashes(base) + "/"@ + trim_start_slashes(path)
}

/// The public address of a shared mailbox or message: `kind` is `"/shared/"`
/// or `"/shared/message/"`.
pub open spec fn shared_url(base: Seq<char>, kind: Seq<char>, token: Seq<char>) -> Seq<char> {
    trim_end_slashes(base) + kind + token
}

/// A shared address is the base without trailing slashes, then the kind,
/// then the whole token: it starts with the trimmed base and the kind, ends
/// with the token, and is exactly as long as the three together.
pub proof fn lemma_shared_url_parts(base: Seq<char>, kind: Seq<char>, token: Seq<char>)
    ensures
        ({
            let u = shared_url(base, kind, token);
            let head = trim_end_slashes(base) + kind;
            &&& u.len() == head.len() + token.len()
            &&& u.subrange(0, head.len() as int) == head
            &&& u.subrange(u.len() - token.len(), u.len() as int) == token
        }),
{
    let u = shared_url(base, kind, token);
    let head = trim_end_slashes(base) + kind;
    assert(u.subrange(0, head.len() as int) =~= head);
    assert(u.subrange(u.len() - token.len(), u.len() as int) =~= token);
}

/// Trailing slashes on the base address change none of the addresses that
/// a client builds from it.
pub proof fn lemma_base_trailing_slashes_ignored(
    base: Seq<char>,
    n: nat,
    path: Seq<char>,
    kind: Seq<char>,
    token: Seq<char>,
)
    ensures
        endpoint_url(base + slashes(n), path) == endpoint_url(base, path),
        shared_url(base + slashes(n), kind, token) == shared_url(base, kind, token),
{
    lemma_trim_end_added_slashes(base, n);
}

/// Leading slashes on the path change no address: `/p` and `p` lead to the
/// same place.
pub proof fn lemma_path_leading_slashes_ignored(base: Seq<char>, n: nat, path: Seq<char>)
    ensures
        endpoint_url(base, slashes(n) + path) == endpoint_url(base, path),
{
    lemma_trim_start_added_slashes(path, n);
}

/// The base address and the path meet at exactly one slash: the character
/// before the joining slash and the one after it are not slashes.
pub proof fn lemma_single_slash_join(base: Seq<char>, path: Seq<char>)
    ensures
        ({
            let u = endpoint_url(base, path);
            let k: int = trim_end_slashes(base).len() as int;
            &&& u[k] == '/'
            &&& k > 0 ==> u[k - 1] != '/'
            &&& k + 1 < u.len() ==> u[k + 1] != '/'
        }),
{
    reveal_strlit("/");
    lemma_trim_end_no_slash(base);
    lemma_trim_start_no_slash(path);
    let b = trim_end_slashes(base);
    let p = trim_start_slashes(path);
    let u = endpoint_url(base, path);
    assert(u =~= b + seq!['/'] + p);
    let k: int = b.len() as int;
    if k > 0 {
        assert(u[k - 1] == b.last());
    }
    if k + 1 < u.len() {
        assert(u[k + 1] == p[0]);
    }
}

/// An optional string by its characters.
pub open spec fn opt_str_view(o: Option<&str>) -> Option<Seq<char>> {
    match o {
        Some(s) => Some(s@),
        None => None,
    }
}

/// What a client is made of: its base address and its optional API key.
pub ghost struct ClientView {
    pub base_url: Seq<char>,
    pub api_key: Option<Seq<char>>,
}

/// A client of one MoEmail service.
#[derive(Clone, Debug)]
pub struct MoEmailClient {
    base_url: String,
    api_key: Option<String>,
}

impl View for MoEmailClient {
    type V = ClientView;

    closed spec fn view(&self) -> ClientView {
        ClientView {
            base_url: self.base_url@,
            api_key: match self.api_key {
                Some(k) => Some(k@),
                None => None,
            },
        }
    }
}

// ---------------------------------------------------------------------------
// Requests
// ---------------------------------------------------------------------------

/// The HTTP methods the API uses.
#[derive(Clone, Copy, Debug, PartialEq, Eq)]
pub enum HttpMethod {
    Get,
    Post,
    Delete,
}

/// A header or a query parameter.
#[derive(Clone, Debug)]
pub struct NameValue {
    pub name: String,
    pub value: String,
}

impl NameValue {
    pub open spec fn pair(self) -> (Seq<char>, Seq<char>) {
        (self.name@, self.value@)
    }
}

/// Name/value entries by their characters.
pub open spec fn pairs_of(v: Seq<NameValue>) -> Seq<(Seq<char>, Seq<char>)> {
    v.map_values(|p: NameValue| p.pair())
}

/// The headers of every request: the API key when the client has one, and
/// the request for a JSON reply.
pub open spec fn request_headers(api_key: Option<Seq<char>>) -> Seq<(Seq<char>, Seq<char>)> {
    match api_key {
        Some(k) => seq![("X-API-Key"@, k), ("accept"@, "application/json"@)],
        None => seq![("accept"@, "application/json"@)],
    }
}

/// The API key travels as the `X-API-Key` header exactly when the client has
/// one, and then it is the client's key.
pub proof fn lemma_api_key_header(api_key: Option<Seq<char>>, v: Seq<char>)
    ensures
        request_headers(api_key).contains(("X-API-Key"@, v)) <==> api_key == Some(v),
{
    reveal_strlit("X-API-Key");
    reveal_strlit("accept");
    let h = request_headers(api_key);
    if h.contains(("X-API-Key"@, v)) {
        let i: int = choose|i: int| 0 <= i < h.len() && h[i] == ("X-API-Key"@, v);
        assert("X-API-Key"@.len() != "accept"@.len());
        match api_key {
            Some(k) => {
                assert(i == 0);
            },
            None => {
                assert(i == 0);
            },
        }
    }
    if api_key == Some(v) {
        assert(h[0] == ("X-API-Key"@, v));
    }
}

/// The query of a listing: the cursor when one is given.
pub open spec fn cursor_query(cursor: Option<Seq<char>>) -> Seq<(Seq<char>, Seq<char>)> {
    match cursor {
        Some(c) => seq![("cursor"@, c)],
        None => Seq::empty(),
    }
}

/// A listing passes the cursor on whole, as the single query parameter
/// `cursor`; without a cursor it has no query.
pub proof fn lemma_cursor_passed_whole(c: Seq<char>)
    ensures
        cursor_query(Some(c)).len() == 1,
        cursor_query(Some(c))[0].0 == "cursor"@,
        cursor_query(Some(c))[0].1 == c,
        cursor_query(None).len() == 0,
{
}

/// The JSON body that a request carries.
#[derive(Clone, Debug)]
pub enum RequestBody {
    GenerateEmail(GenerateEmailRequest),
    Share(ShareRequest),
}

/// One HTTP request to the API, ready to be sent.
#[derive(Clone, Debug)]
pub struct ApiRequest {
    pub method: HttpMethod,
    pub url: String,
    pub headers: Vec<NameValue>,
    pub query: Vec<NameValue>,
    pub body: Option<RequestBody>,
}

impl ApiRequest {
    /// This request has the given method, address, headers for `api_key`,
    /// query and body.
    pub open spec fn is(
        self,
        method: HttpMethod,
        url: Seq<char>,
        api_key: Option<Seq<char>>,
        query: Seq<(Seq<char>, Seq<char>)>,
        body: Option<RequestBody>,
    ) -> bool {
        &&& self.method == method
        &&& self.url@ == url
        &&& pairs_of(self.headers@) =~= request_headers(api_key)
        &&& pairs_of(self.query@) =~= query
        &&& self.body == body
    }
}

// ---------------------------------------------------------------------------
// The client
// ---------------------------------------------------------------------------

impl MoEmailClient {
    /// A client of the service at `base_url`, without an API key.
    pub fn new(base_url: &str) -> (c: Self)
        ensures
            c@ == (ClientView { base_url: base_url@, api_key: None }),
    {
        MoEmailClient { base_url: String::from_str(base_url), api_key: None }
    }

    /// A client of the service at `base_url` that sends `api_key`.
    pub fn with_api_key(base_url: &str, api_key: &str) -> (c: Self)
        ensures
            c@ == (ClientView { base_url: base_url@, api_key: Some(api_key@) }),
    {
        MoEmailClient {
            base_url: String::from_str(base_url),
            api_key: Some(String::from_str(api_key)),
        }
    }

    pub fn base_url(&self) -> (r: &str)
        ensures
            r@ == self@.base_url,
    {
        self.base_url.as_str()
    }

    pub fn api_key(&self) -> (r: Option<&str>)
        ensures
            opt_str_view(r) == self@.api_key,
    {
        match &self.api_key {
            Some(k) => Some(k.as_str()),
            None => None,
        }
    }

    pub fn set_api_key(&mut self, api_key: &str)
        ensures
            final(self)@ == (ClientView { api_key: Some(api_key@), ..old(self)@ }),
    {
        self.api_key = Some(String::from_str(api_key));
    }

    pub fn clear_api_key(&mut self)
        ensures
            final(self)@ == (ClientView { api_key: None, ..old(self)@ }),
    {
        self.api_key = None;
    }

    /// The public address of a shared mailbox.
    pub fn shared_email_url(&self, token: &str) -> (r: String)
        ensures
            r@ == shared_url(self@.base_url, "/shared/"@, token@),
            r@ == trim_end_slashes(self@.base_url) + "/shared/"@ + token@,
    {
        let mut r = String::from_str(trim_end_slashes_str(self.base_url.as_str()));
        r.append("/shared/");
        r.append(token);
        r
    }

    /// The public address of a shared message.
    pub fn shared_message_url(&self, token: &str) -> (r: String)
        ensures
            r@ == shared_url(self@.base_url, "/shared/message/"@, token@),
            r@ == trim_end_slashes(self@.base_url) + "/shared/message/"@ + token@,
    {
        let mut r = String::from_str(trim_end_slashes_str(self.base_url.as_str()));
        r.append("/shared/message/");
        r.append(token);
        r
    }

    /// The address of `path` under this client's service.
    fn url(&self, path: &str) -> (r: String)
        ensures
            r@ == endpoint_url(self@.base_url, path@),
    {
        let mut r = String::from_str(trim_end_slashes_str(self.base_url.as_str()));
        r.append("/");
        r.append(trim_start_slashes_str(path));
        r
    }

    /// A request with `method` to `path`, with this client's headers, no
    /// query and no body.
    fn request(&self, method: HttpMethod, path: &str) -> (r: ApiRequest)
        ensures
            r.is(method, endpoint_url(self@.base_url, path@), self@.api_key, Seq::empty(), None),
    {
        let mut headers: Vec<NameValue> = Vec::new();
        match &self.api_key {
            Some(k) => {
                headers.push(NameValue { name: String::from_str("X-API-Key"), value: k.clone() });
            },
            None => {},
        }
        headers.push(
            NameValue { name: String::from_str("accept"), value: String::from_str("application/json") },
        );
        let r = ApiRequest { method, url: self.url(path), headers, query: Vec::new(), body: None };
        assert(pairs_of(r.query@) =~= Seq::empty());
        r
    }
}

// ---------------------------------------------------------------------------
// The calls of the API
// ---------------------------------------------------------------------------

/// `a` followed by `b`.
fn concat(a: &str, b: &str) -> (r: String)
    ensures
        r@ == a@ + b@,
{
    let mut r = String::from_str(a);
    r.append(b);
    r
}

impl MoEmailClient {
    /// A GET request to `path`, with the cursor as its query when one is given.
    fn get_request(&self, path: &str, cursor: Option<&str>) -> (r: ApiRequest)
        ensures
            r.is(
                HttpMethod::Get,
                endpoint_url(self@.base_url, path@),
                self@.api_key,
                cursor_query(opt_str_view(cursor)),
                None,
            ),
            cursor matches Some(c) ==> (r.query@.len() == 1 && r.query@[0].name@ == "cursor"@
                && r.query@[0].value@ == c@),
            cursor is None ==> r.query@.len() == 0,
    {
        let mut r = self.request(HttpMethod::Get, path);
        match cursor {
            Some(c) => {
                r.query.push(NameValue { name: String::from_str("cursor"), value: String::from_str(c) });
                assert(pairs_of(r.query@) =~= cursor_query(opt_str_view(cursor)));
            },
            None => {},
        }
        r
    }

    /// A POST request to `path` carrying `body`.
    fn post_request(&self, path: &str, body: RequestBody) -> (r: ApiRequest)
        ensures
            r.is(
                HttpMethod::Post,
                endpoint_url(self@.base_url, path@),
                self@.api_key,
                Seq::empty(),
                Some(body),
            ),
    {
        let mut r = self.request(HttpMethod::Post, path);
        r.body = Some(body);
        r
    }

    /// `GET /api/config`: the service's configuration.
    pub fn get_config_request(&self) -> (r: ApiRequest)
        ensures
            r.is(
                HttpMethod::Get,
                endpoint_url(self@.base_url, "/api/config"@),
                self@.api_key,
                Seq::empty(),
                None,
            ),
    {
        self.get_request("/api/config", None)
    }

    /// `POST /api/emails/generate`: a new mailbox.
    pub fn generate_email_request(&self, request: GenerateEmailRequest) -> (r: ApiRequest)
        ensures
            r.is(
                HttpMethod::Post,
                endpoint_url(self@.base_url, "/api/emails/generate"@),
                self@.api_key,
                Seq::empty(),
                Some(RequestBody::GenerateEmail(request)),
            ),
    {
        self.post_request("/api/emails/generate", RequestBody::GenerateEmail(request))
    }

    /// `GET /api/emails`: one page of the mailboxes.
    pub fn list_emails_request(&self, cursor: Option<&str>) -> (r: ApiRequest)
        ensures
            r.is(
                HttpMethod::Get,
                endpoint_url(self@.base_url, "/api/emails"@),
                self@.api_key,
                cursor_query(opt_str_view(cursor)),
                None,
            ),
            cursor matches Some(c) ==> (r.query@.len() == 1 && r.query@[0].name@ == "cursor"@
                && r.query@[0].value@ == c@),
            cursor is None ==> r.query@.len() == 0,
    {
        self.get_request("/api/emails", cursor)
    }

    /// `GET /api/emails/{email_id}`: one page of a mailbox's messages.
    pub fn list_email_messages_request(&self, email_id: &str, cursor: Option<&str>) -> (r:
        ApiRequest)
        ensures
            r.is(
                HttpMethod::Get,
                endpoint_url(self@.base_url, "/api/emails/"@ + email_id@),
                self@.api_key,
                cursor_query(opt_str_view(cursor)),
                None,
            ),
            cursor matches Some(c) ==> (r.query@.len() == 1 && r.query@[0].name@ == "cursor"@
                && r.query@[0].value@ == c@),
            cursor is None ==> r.query@.len() == 0,
    {
        let path = concat("/api/emails/", email_id);
        self.get_request(path.as_str(), cursor)
    }

    /// `DELETE /api/emails/{email_id}`: removes a mailbox.
    pub fn delete_email_request(&self, email_id: &str) -> (r: ApiRequest)
        ensures
            r.is(
                HttpMethod::Delete,
                endpoint_url(self@.base_url, "/api/emails/"@ + email_id@),
                self@.api_key,
                Seq::empty(),
                None,
            ),
    {
        let path = concat("/api/emails/", email_id);
        self.request(HttpMethod::Delete, path.as_str())
    }

    /// `GET /api/emails/{email_id}/{message_id}`: one message in full.
    pub fn get_message_request(&self, email_id: &str, message_id: &str) -> (r: ApiRequest)
        ensures
            r.is(
                HttpMethod::Get,
                endpoint_url(self@.base_url, "/api/emails/"@ + email_id@ + "/"@ + message_id@),
                self@.api_key,
                Seq::empty(),
                None,
            ),
    {
        let mut path = concat("/api/emails/", email_id);
        path.append("/");
        path.append(message_id);
        self.get_request(path.as_str(), None)
    }

    /// `POST /api/emails/{email_id}/share`: shares a mailbox.
    pub fn create_email_share_request(&self, email_id: &str, request: ShareRequest) -> (r:
        ApiRequest)
        ensures
            r.is(
                HttpMethod::Post,
                endpoint_url(self@.base_url, "/api/emails/"@ + email_id@ + "/share"@),
                self@.api_key,
                Seq::empty(),
                Some(RequestBody::Share(request)),
            ),
    {
        let mut path = concat("/api/emails/", email_id);
        path.append("/share");
        self.post_request(path.as_str(), RequestBody::Share(request))
    }

    /// `GET /api/emails/{email_id}/share`: the shares of a mailbox.
    pub fn list_email_shares_request(&self, email_id: &str) -> (r: ApiRequest)
        ensures
            r.is(
                HttpMethod::Get,
                endpoint_url(self@.base_url, "/api/emails/"@ + email_id@ + "/share"@),
                self@.api_key,
                Seq::empty(),
                None,
            ),
    {
        let mut path = concat("/api/emails/", email_id);
        path.append("/share");
        self.get_request(path.as_str(), None)
    }

    /// `DELETE /api/emails/{email_id}/share/{share_id}`: withdraws a mailbox share.
    pub fn delete_email_share_request(&self, email_id: &str, share_id: &str) -> (r: ApiRequest)
        ensures
            r.is(
                HttpMethod::Delete,
                endpoint_url(
                    self@.base_url,
                    "/api/emails/"@ + email_id@ + "/share/"@ + share_id@,
                ),
                self@.api_key,
                Seq::empty(),
                None,
            ),
    {
        let mut path = concat("/api/emails/", email_id);
        path.append("/share/");
        path.append(share_id);
        self.request(HttpMethod::Delete, path.as_str())
    }

    /// `POST /api/emails/{email_id}/messages/{message_id}/share`: shares a message.
    pub fn create_message_share_request(
        &self,
        email_id: &str,
        message_id: &str,
        request: ShareRequest,
    ) -> (r: ApiRequest)
        ensures
            r.is(
                HttpMethod::Post,
                endpoint_url(
                    self@.base_url,
                    "/api/emails/"@ + email_id@ + "/messages/"@ + message_id@ + "/share"@,
                ),
                self@.api_key,
                Seq::empty(),
                Some(RequestBody::Share(request)),
            ),
    {
        let mut path = concat("/api/emails/", email_id);
        path.append("/messages/");
        path.append(message_id);
        path.append("/share");
        self.post_request(path.as_str(), RequestBody::Share(request))
    }

    /// `GET /api/emails/{email_id}/messages/{message_id}/share`: the shares of a message.
    pub fn list_message_shares_request(&self, email_id: &str, message_id: &str) -> (r:
        ApiRequest)
        ensures
            r.is(
                HttpMethod::Get,
                endpoint_url(
                    self@.base_url,
                    "/api/emails/"@ + email_id@ + "/messages/"@ + message_id@ + "/share"@,
                ),
                self@.api_key,
                Seq::empty(),
                None,
            ),
    {
        let mut path = concat("/api/emails/", email_id);
        path.append("/messages/");
        path.append(message_id);
        path.append("/share");
        self.get_request(path.as_str(), None)
    }

    /// `DELETE /api/emails/{email_id}/messages/{message_id}/share/{share_id}`:
    /// withdraws a message share.
    pub fn delete_message_share_request(
        &self,
        email_id: &str,
        message_id: &str,
        share_id: &str,
    ) -> (r: ApiRequest)
        ensures
            r.is(
                HttpMethod::Delete,
                endpoint_url(
                    self@.base_url,
                    "/api/emails/"@ + email_id@ + "/messages/"@ + message_id@ + "/share/"@
                        + share_id@,
                ),
                self@.api_key,
                Seq::empty(),
                None,
            ),
    {
        let mut path = concat("/api/emails/", email_id);
        path.append("/messages/");
        path.append(message_id);
        path.append("/share/");
        path.append(share_id);
        self.request(HttpMethod::Delete, path.as_str())
    }
}

// ---------------------------------------------------------------------------
// Replies
// ---------------------------------------------------------------------------

#[verifier::external_type_specification]
#[verifier::external_body]
pub struct ExHttpError(reqwest::Error);

#[verifier::external_type_specification]
#[verifier::external_body]
pub struct ExJsonError(serde_json::Error);

/// Why a call of the API failed.
#[derive(Debug)]
pub enum MoEmailError {
    /// The request could not be sent or its reply not read.
    Http(reqwest::Error),
    /// The reply was not the JSON that the call expects.
    Json(serde_json::Error),
    /// The service answered with a status outside 200..=299.
    Api { status: u16, body: String },
}

impl From<reqwest::Error> for MoEmailError {
    fn from(error: reqwest::Error) -> (r: Self) {
        MoEmailError::Http(error)
    }
}

impl vstd::std_specs::convert::FromSpecImpl<reqwest::Error> for MoEmailError {
    open spec fn obeys_from_spec() -> bool {
        true
    }

    open spec fn from_spec(error: reqwest::Error) -> Self {
        MoEmailError::Http(error)
    }
}

impl From<serde_json::Error> for MoEmailError {
    fn from(error: serde_json::Error) -> (r: Self) {
        MoEmailError::Json(error)
    }
}

impl vstd::std_specs::convert::FromSpecImpl<serde_json::Error> for MoEmailError {
    open spec fn obeys_from_spec() -> bool {
        true
    }

    open spec fn from_spec(error: serde_json::Error) -> Self {
        MoEmailError::Json(error)
    }
}

/// What `reqwest::StatusCode` displays for the valid status `code`: the
/// number and its canonical reason phrase.
pub uninterp spec fn status_display(code: u16) -> Seq<char>;

/// `Display` of `reqwest::StatusCode` (from the `http` crate) for a code in
/// 100..=999, the codes that `StatusCode::from_u16` accepts; the error arm
/// cannot be taken under `requires`.
#[verifier::external_body]
fn status_text(code: u16) -> (r: String)
    requires
        100 <= code <= 999,
    ensures
        r@ == status_display(code),
{
    match reqwest::StatusCode::from_u16(code) {
        Ok(status) => status.to_string(),
        Err(_) => String::new(),
    }
}

impl MoEmailError {
    /// The text of the error (what its `Display` shows). For an `Api` error
    /// the body is shown only when it is not blank; a status outside
    /// 100..=999, which no HTTP reply carries, is shown as a number.
    pub fn describe(&self) -> (r: String)
        ensures
            *self matches MoEmailError::Http(e) ==> exists|t: String|
                to_string_from_display_ensures::<reqwest::Error>(&e, t) && r@ == "request failed: "@
                    + t@,
            *self matches MoEmailError::Json(e) ==> exists|t: String|
                to_string_from_display_ensures::<serde_json::Error>(&e, t) && r@
                    == "invalid JSON response: "@ + t@,
            *self matches MoEmailError::Api { status, body } ==> r@ == "API returned status "@ + (
            if 100 <= status <= 999 {
                status_display(status)
            } else {
                decimal(status as nat)
            }) + if is_blank(body@) {
                Seq::<char>::empty()
            } else {
                ": "@ + body@
            },
    {
        match self {
            MoEmailError::Http(error) => {
                let mut r = String::from_str("request failed: ");
                let t = error.to_string();
                r.append(t.as_str());
                r
            },
            MoEmailError::Json(error) => {
                let mut r = String::from_str("invalid JSON response: ");
                let t = error.to_string();
                r.append(t.as_str());
                r
            },
            MoEmailError::Api { status, body } => {
                let mut r = String::from_str("API returned status ");
                let code = if 100 <= *status && *status <= 999 {
                    status_text(*status)
                } else {
                    u64_to_decimal(*status as u64)
                };
                r.append(code.as_str());
                if !is_blank_str(body.as_str()) {
                    r.append(": ");
                    r.append(body.as_str());
                }
                r
            },
        }
    }
}

/// A status in 200..=299, which `StatusCode::is_success` accepts.
pub open spec fn is_success(status: u16) -> bool {
    200 <= status < 300
}

/// Exactly the statuses 200 through 299 count as success: 200 OK, 201
/// Created, 204 No Content and the rest of the 2xx range, and nothing else.
pub proof fn lemma_success_statuses(status: u16)
    ensures
        is_success(status) <==> 200 <= status <= 299,
        is_success(200) && is_success(201) && is_success(204) && is_success(299),
        !is_success(199) && !is_success(300) && !is_success(404) && !is_success(500),
{
}

pub fn is_success_status(status: u16) -> (r: bool)
    ensures
        r == is_success(status),
        r <==> 200 <= status <= 299,
{
    200 <= status && status < 300
}

/// Judges a reply of a call that returns JSON: a successful status hands
/// the body on to be decoded; any other is an `Api` error with the status
/// and the body.
pub fn check_reply(status: u16, body: String) -> (r: Result<String, MoEmailError>)
    ensures
        is_success(status) ==> (r matches Ok(b) && b@ == body@),
        !is_success(status) ==> (r matches Err(MoEmailError::Api { status: s, body: b }) && s
            == status && b@ == body@),
{
    if !is_success_status(status) {
        return Err(MoEmailError::Api { status, body });
    }
    Ok(body)
}

/// What is left to do with the reply of a deletion.
#[derive(Debug, Clone, PartialEq, Eq)]
pub enum DeleteReply {
    /// The reply was empty: the deletion succeeded.
    Done(OperationResult),
    /// The reply holds JSON to be decoded as an `OperationResult`.
    Decode(String),
}

/// Judges the reply of a deletion: an unsuccessful status is an `Api` error;
/// a successful one with a blank body means success; otherwise the body is
/// to be decoded.
pub fn check_delete_reply(status: u16, body: String) -> (r: Result<DeleteReply, MoEmailError>)
    ensures
        !is_success(status) ==> (r matches Err(MoEmailError::Api { status: s, body: b }) && s
            == status && b@ == body@),
        is_success(status) && is_blank(body@) ==> r == Ok::<DeleteReply, MoEmailError>(
            DeleteReply::Done(OperationResult { success: true }),
        ),
        is_success(status) && !is_blank(body@) ==> (r matches Ok(DeleteReply::Decode(b)) && b@
            == body@),
{
    if !is_success_status(status) {
        return Err(MoEmailError::Api { status, body });
    }
    if is_blank_str(body.as_str()) {
        return Ok(DeleteReply::Done(OperationResult { success: true }));
    }
    Ok(DeleteReply::Decode(body))
}

// ---------------------------------------------------------------------------
// Data exchanged with the API
// ---------------------------------------------------------------------------

/// The body of a request for a new mailbox: an optional name, an optional
/// lifetime in milliseconds, and the mail domain.
#[derive(Debug, Clone, PartialEq, Eq)]
pub struct GenerateEmailRequest {
    pub name: Option<String>,
    pub expiry_time: Option<u64>,
    pub domain: String,
}

impl GenerateEmailRequest {
    /// A request for a mailbox under `domain`, with neither name nor lifetime.
    pub fn new(domain: &str) -> (r: Self)
        ensures
            r.name is None,
            r.expiry_time is None,
            r.domain@ == domain@,
    {
        GenerateEmailRequest { name: None, expiry_time: None, domain: String::from_str(domain) }
    }

    /// The same request, asking for the mailbox name `name`.
    pub fn name(self, name: &str) -> (r: Self)
        ensures
            r.name matches Some(n) && n@ == name@,
            r.expiry_time == self.expiry_time,
            r.domain == self.domain,
    {
        GenerateEmailRequest {
            name: Some(String::from_str(name)),
            expiry_time: self.expiry_time,
            domain: self.domain,
        }
    }

    /// The same request, asking for a lifetime of `expiry_time` milliseconds.
    pub fn expiry_time(self, expiry_time: u64) -> (r: Self)
        ensures
            r.name == self.name,
            r.expiry_time == Some(expiry_time),
            r.domain == self.domain,
    {
        GenerateEmailRequest { name: self.name, expiry_time: Some(expiry_time), domain: self.domain }
    }
}

/// The body of a request to share a mailbox or a message: an optional
/// lifetime of the share.
#[derive(Debug, Clone, PartialEq, Eq)]
pub struct ShareRequest {
    pub expires_in: Option<u64>,
}

impl Default for ShareRequest {
    fn default() -> (r: Self)
        ensures
            r.expires_in is None,
    {
        ShareRequest { expires_in: None }
    }
}

impl ShareRequest {
    /// A share without a lifetime.
    pub fn new() -> (r: Self)
        ensures
            r.expires_in is None,
    {
        Self::default()
    }

    /// The same request, with a lifetime of `expires_in`.
    pub fn expires_in(self, expires_in: u64) -> (r: Self)
        ensures
            r.expires_in == Some(expires_in),
    {
        ShareRequest { expires_in: Some(expires_in) }
    }
}

/// The configuration of the service.
#[derive(Debug, Clone, PartialEq, Eq)]
pub struct SystemConfig {
    pub default_role: UserRole,
    pub email_domains: String,
    pub admin_contact: String,
    pub max_emails: String,
}

/// A new mailbox.
#[derive(Debug, Clone, PartialEq, Eq)]
pub struct GeneratedEmail {
    pub id: String,
    pub email: String,
}

/// A mailbox in a listing.
#[derive(Debug, Clone, PartialEq, Eq)]
pub struct EmailSummary {
    pub id: String,
    pub address: String,
    pub created_at: String,
    pub expires_at: Option<String>,
    pub user_id: String,
}

/// One page of mailboxes.
#[derive(Debug, Clone, PartialEq, Eq)]
pub struct EmailListResponse {
    pub emails: Vec<EmailSummary>,
    pub next_cursor: Option<String>,
    pub total: u64,
}

/// A message in a listing.
#[derive(Debug, Clone, PartialEq, Eq)]
pub struct MessageSummary {
    pub id: String,
    pub from_address: String,
    pub subject: String,
    pub received_at: i64,
    pub content: String,
}

/// One page of the messages of a mailbox.
#[derive(Debug, Clone, PartialEq, Eq)]
pub struct MessageListResponse {
    pub messages: Vec<MessageSummary>,
    pub next_cursor: Option<String>,
    pub total: u64,
}

/// A message in full.
#[derive(Debug, Clone, PartialEq, Eq)]
pub struct MessageDetail {
    pub id: String,
    pub from_address: String,
    pub subject: String,
    pub content: String,
    pub html: String,
    pub received_at: i64,
}

/// A share of a mailbox.
#[derive(Debug, Clone, PartialEq, Eq)]
pub struct EmailShare {
    pub id: String,
    pub email_id: String,
    pub token: String,
    pub expires_at: Option<String>,
    pub created_at: String,
}

/// The shares of a mailbox.
#[derive(Debug, Clone, PartialEq, Eq)]
pub struct EmailShareListResponse {
    pub shares: Vec<EmailShare>,
    pub total: u64,
}

/// A share of a message.
#[derive(Debug, Clone, PartialEq, Eq)]
pub struct MessageShare {
    pub id: String,
    pub message_id: String,
    pub token: String,
    pub expires_at: Option<String>,
    pub created_at: String,
}

/// The shares of a message.
#[derive(Debug, Clone, PartialEq, Eq)]
pub struct MessageShareListResponse {
    pub shares: Vec<MessageShare>,
    pub total: u64,
}

/// The outcome of a deletion.
#[derive(Debug, Clone, PartialEq, Eq)]
pub struct OperationResult {
    pub success: bool,
}


// ---------------------------------------------------------------------------
// Values read from JSON by rules of this API
// ---------------------------------------------------------------------------

/// The role of a user of the service.
#[derive(Debug, Clone, PartialEq, Eq)]
pub enum UserRole {
    Civilian,
    Knight,
    Duke,
}

/// `c` with ASCII upper case letters turned to lower case.
pub open spec fn ascii_lower_char(c: char) -> char {
    if 'A' <= c <= 'Z' {
        ((c as u32) + 32) as char
    } else {
        c
    }
}

/// `s` with ASCII upper case letters turned to lower case (what
/// `to_ascii_lowercase` gives).
pub open spec fn ascii_lower(s: Seq<char>) -> Seq<char> {
    s.map_values(|c: char| ascii_lower_char(c))
}

/// Whether `s` turned to lower case is `lower`.
fn lowers_to(s: &str, lower: &str) -> (r: bool)
    ensures
        r == (ascii_lower(s@) == lower@),
{
    let cs = chars_of(s);
    let ls = chars_of(lower);
    let n: usize = cs.len();
    if n != ls.len() {
        assert(ascii_lower(s@).len() != lower@.len());
        return false;
    }
    let mut i: usize = 0;
    while i < n
        invariant
            i <= n,
            n == s@.len(),
            n == lower@.len(),
            cs@ == s@,
            ls@ == lower@,
            forall|j: int| 0 <= j < i ==> ascii_lower_char(#[trigger] s@[j]) == lower@[j],
        decreases n - i,
    {
        let c: char = cs[i];
        let l: char = if 'A' <= c && c <= 'Z' {
            ((c as u8) + 32) as char
        } else {
            c
        };
        if l != ls[i] {
            assert(ascii_lower(s@)[i as int] != lower@[i as int]);
            return false;
        }
        i = i + 1;
    }
    assert(ascii_lower(s@) =~= lower@);
    true
}

impl UserRole {
    /// The name that stands for the role in JSON written by this library.
    pub open spec fn name_spec(self) -> Seq<char> {
        match self {
            UserRole::Civilian => "CIVILIAN"@,
            UserRole::Knight => "KNIGHT"@,
            UserRole::Duke => "DUKE"@,
        }
    }

    /// The role that a name read from JSON stands for: its lower case form
    /// is `civilian`, `knight` or `duke`.
    pub open spec fn from_name_spec(name: Seq<char>) -> Option<UserRole> {
        if ascii_lower(name) == "civilian"@ {
            Some(UserRole::Civilian)
        } else if ascii_lower(name) == "knight"@ {
            Some(UserRole::Knight)
        } else if ascii_lower(name) == "duke"@ {
            Some(UserRole::Duke)
        } else {
            None
        }
    }

    /// The name of the role in JSON (SCREAMING_SNAKE_CASE).
    pub fn name(&self) -> (r: &'static str)
        ensures
            r@ == self.name_spec(),
    {
        match self {
            UserRole::Civilian => "CIVILIAN",
            UserRole::Knight => "KNIGHT",
            UserRole::Duke => "DUKE",
        }
    }

    /// The role named by `name`, whatever its ASCII case; `None` for an
    /// unknown name.
    pub fn from_name(name: &str) -> (r: Option<UserRole>)
        ensures
            r == UserRole::from_name_spec(name@),
    {
        if lowers_to(name, "civilian") {
            Some(UserRole::Civilian)
        } else if lowers_to(name, "knight") {
            Some(UserRole::Knight)
        } else if lowers_to(name, "duke") {
            Some(UserRole::Duke)
        } else {
            None
        }
    }
}

/// A role written by this library is read back as the same role.
pub proof fn lemma_role_name_round_trip(role: UserRole)
    ensures
        UserRole::from_name_spec(role.name_spec()) == Some(role),
{
    reveal_strlit("CIVILIAN");
    reveal_strlit("KNIGHT");
    reveal_strlit("DUKE");
    reveal_strlit("civilian");
    reveal_strlit("knight");
    reveal_strlit("duke");
    match role {
        UserRole::Civilian => {
            assert(ascii_lower("CIVILIAN"@) =~= "civilian"@);
        },
        UserRole::Knight => {
            assert(ascii_lower("KNIGHT"@) =~= "knight"@);
            assert(ascii_lower("KNIGHT"@).len() != "civilian"@.len());
        },
        UserRole::Duke => {
            assert(ascii_lower("DUKE"@) =~= "duke"@);
            assert(ascii_lower("DUKE"@).len() != "civilian"@.len());
            assert(ascii_lower("DUKE"@).len() != "knight"@.len());
        },
    }
}

/// `c` with ASCII lower case letters turned to upper case.
pub open spec fn ascii_upper_char(c: char) -> char {
    if 'a' <= c <= 'z' {
        ((c as u32) - 32) as char
    } else {
        c
    }
}

/// `s` with ASCII lower case letters turned to upper case (what
/// `to_ascii_uppercase` gives).
pub open spec fn ascii_upper(s: Seq<char>) -> Seq<char> {
    s.map_values(|c: char| ascii_upper_char(c))
}

/// ASCII letter case never changes the role that a name is read as: the
/// name upper-cased, or lower-cased, reads as the name itself does.
pub proof fn lemma_role_name_case_ignored(name: Seq<char>)
    ensures
        UserRole::from_name_spec(ascii_upper(name)) == UserRole::from_name_spec(name),
        UserRole::from_name_spec(ascii_lower(name)) == UserRole::from_name_spec(name),
{
    assert(ascii_lower(ascii_upper(name)) =~= ascii_lower(name));
    assert(ascii_lower(ascii_lower(name)) =~= ascii_lower(name));
}

/// A JSON scalar that a number field may hold: a string, a non-negative
/// integer or a negative integer (as the JSON reader hands them over).
#[derive(Debug, Clone, PartialEq, Eq)]
pub enum JsonScalar {
    Text(String),
    Unsigned(u64),
    Signed(i64),
}

/// Why a scalar does not fit a number field.
#[derive(Debug, Clone, Copy, PartialEq, Eq)]
pub enum ScalarError {
    /// A count was a negative integer.
    Negative,
    /// A timestamp was an integer above `i64::MAX`.
    TooLarge,
    /// A timestamp was a string that is not an `i64`.
    NotInteger(IntErrorKind),
}

impl ScalarError {
    /// The message that reading the field fails with.
    pub open spec fn message_spec(self) -> Seq<char> {
        match self {
            ScalarError::Negative => "expected a non-negative integer"@,
            ScalarError::TooLarge => "timestamp is too large"@,
            ScalarError::NotInteger(k) => k.message_spec(),
        }
    }

    pub fn message(&self) -> (r: &'static str)
        ensures
            r@ == self.message_spec(),
    {
        match self {
            ScalarError::Negative => "expected a non-negative integer",
            ScalarError::TooLarge => "timestamp is too large",
            ScalarError::NotInteger(k) => k.message(),
        }
    }
}

/// A count given as a string or as a non-negative integer, kept as text: a
/// string as it is, an integer in decimal, a negative integer refused.
pub fn string_or_u64(value: JsonScalar) -> (r: Result<String, ScalarError>)
    ensures
        value matches JsonScalar::Text(s) ==> (r matches Ok(t) && t@ == s@),
        value matches JsonScalar::Unsigned(n) ==> (r matches Ok(t) && t@ == decimal(n as nat)),
        value matches JsonScalar::Signed(n) ==> (n < 0 ==> r == Err::<String, ScalarError>(
            ScalarError::Negative)),
        value matches JsonScalar::Signed(n) ==> (n >= 0 ==> (r matches Ok(t) && t@ == decimal(
            n as nat,
        ))),
{
    match value {
        JsonScalar::Text(s) => Ok(s),
        JsonScalar::Unsigned(n) => Ok(u64_to_decimal(n)),
        JsonScalar::Signed(n) => {
            if n < 0 {
                Err(ScalarError::Negative)
            } else {
                Ok(u64_to_decimal(n as u64))
            }
        },
    }
}

/// A timestamp given as an integer or as a numeric string: an integer as it
/// is if it fits an `i64`, a string read as an `i64`.
pub fn i64_or_string(value: JsonScalar) -> (r: Result<i64, ScalarError>)
    ensures
        value matches JsonScalar::Signed(n) ==> r == Ok::<i64, ScalarError>(n),
        value matches JsonScalar::Unsigned(n) ==> (n <= i64::MAX ==> r == Ok::<i64, ScalarError>(
            n as i64,
        )),
        value matches JsonScalar::Unsigned(n) ==> (n > i64::MAX ==> r == Err::<i64, ScalarError>(
            ScalarError::TooLarge,
        )),
        value matches JsonScalar::Text(s) ==> r == match parse_i64_spec(encode_utf8(s@)) {
            Ok(v) => Ok::<i64, ScalarError>(v),
            Err(k) => Err(ScalarError::NotInteger(k)),
        },
{
    match value {
        JsonScalar::Signed(n) => Ok(n),
        JsonScalar::Unsigned(n) => {
            if n > 9223372036854775807 {
                Err(ScalarError::TooLarge)
            } else {
                Ok(n as i64)
            }
        },
        JsonScalar::Text(s) => {
            match parse_i64(s.as_str()) {
                Ok(v) => Ok(v),
                Err(k) => Err(ScalarError::NotInteger(k)),
            }
        },
    }
}

} // verus!
