//! The requests of the marketing service, and what its answers mean.
use crate::config::{host_of, marketplace_of, Config};
use crate::json::{Json, JsonModel};
use crate::text::{decimal, decimal_text, enclosed, joined};
use vstd::arithmetic::power2::*;
use vstd::prelude::*;
use vstd::string::*;

verus! {

/// What went wrong with a request.
#[derive(Debug, PartialEq, Eq)]
pub enum ApiError {
    /// The service answered with an error.
    Http { status: u16, body: String },
    /// There was no answer, for the reason given.
    Net(String),
    /// The answer could not be read, for the reason given.
    Json(String),
}

/// What is done with a resource.
#[derive(Clone, Copy, Debug, PartialEq, Eq, Structural)]
pub enum HttpMethod {
    Get,
    Put,
    Post,
}

/// A request to the marketing service.
#[derive(Debug, PartialEq, Eq)]
pub struct ApiRequest {
    pub method: HttpMethod,
    pub path: String,
    pub body: Option<Json>,
}

/// What a request says.
#[verifier::ext_equal]
pub struct RequestModel {
    pub method: HttpMethod,
    pub path: Seq<char>,
    pub body: Option<JsonModel>,
}

impl View for ApiRequest {
    type V = RequestModel;

    open spec fn view(&self) -> RequestModel {
        RequestModel {
            method: self.method,
            path: self.path@,
            body: match self.body {
                Some(body) => Some(body@),
                None => None,
            },
        }
    }
}

/// A request without a body.
pub open spec fn get_request(path: Seq<char>) -> RequestModel {
    RequestModel { method: HttpMethod::Get, path, body: None }
}

/// A request with a body.
pub open spec fn sending_request(
    method: HttpMethod,
    path: Seq<char>,
    body: JsonModel,
) -> RequestModel {
    RequestModel { method, path, body: Some(body) }
}

/// The address of a path of the service.
pub open spec fn url_of(host: Seq<char>, path: Seq<char>) -> Seq<char> {
    "https://"@ + host + "/sell/marketing/v1"@ + path
}

/// The path of one page of promotions.
pub open spec fn promotions_path(
    limit: nat,
    offset: nat,
    marketplace: Seq<char>,
) -> Seq<char> {
    "/promotion?limit="@ + decimal(limit) + "&offset="@ + decimal(offset) + "&marketplace_id="@
        + marketplace
}

/// The path of an item promotion.
pub open spec fn item_promotion_path(id: Seq<char>) -> Seq<char> {
    "/item_promotion/"@ + id
}

/// The path of a markdown sale.
pub open spec fn markdown_path(id: Seq<char>) -> Seq<char> {
    "/item_price_markdown/"@ + id
}

/// The path of the listings of a promotion.
pub open spec fn listing_set_path(id: Seq<char>) -> Seq<char> {
    "/promotion/"@ + id + "/get_listing_set"@
}

fn get(path: String) -> (r: ApiRequest)
    ensures
        r@ == get_request(path@),
{
    ApiRequest { method: HttpMethod::Get, path, body: None }
}

fn send(method: HttpMethod, path: String, body: Json) -> (r: ApiRequest)
    ensures
        r@ == sending_request(method, path@, body@),
{
    ApiRequest { method, path, body: Some(body) }
}

/// The marketing service as one configuration sees it.
#[derive(Debug, PartialEq, Eq)]
pub struct MarketingApi {
    pub cfg: Config,
}

impl MarketingApi {
    /// The service for a configuration, which has to allow requests at all.
    pub fn new(cfg: Config) -> (r: MarketingApi)
        requires
            cfg.requests_per_second > 0,
        ensures
            r.cfg == cfg,
    {
        MarketingApi { cfg }
    }

    /// Uses another access token from now on.
    pub fn set_token(&mut self, token: String)
        ensures
            final(self).cfg == (Config { access_token: token, ..old(self).cfg }),
    {
        self.cfg.access_token = token;
    }

    /// The address of a path of the service.
    pub fn url(&self, path: &str) -> (r: String)
        ensures
            r@ == url_of(host_of(self.cfg.env), path@),
    {
        let mut s: String = enclosed("https://", self.cfg.base_host(), "/sell/marketing/v1");
        s.append(path);
        s
    }

    /// Asks for one page of promotions.
    pub fn list_promotions(&self, limit: u32, offset: u32) -> (r: ApiRequest)
        ensures
            r@ == get_request(
                promotions_path(limit as nat, offset as nat, marketplace_of(self.cfg.env)),
            ),
    {
        let limit_text: String = decimal_text(limit as u64);
        let mut path: String = enclosed("/promotion?limit=", limit_text.as_str(), "&offset=");
        path.append(decimal_text(offset as u64).as_str());
        path.append("&marketplace_id=");
        path.append(self.cfg.marketplace_id());
        get(path)
    }

    /// Asks for an item promotion.
    pub fn get_item_promotion(&self, id: &str) -> (r: ApiRequest)
        ensures
            r@ == get_request(item_promotion_path(id@)),
    {
        get(joined("/item_promotion/", id))
    }

    /// Asks for a markdown sale.
    pub fn get_markdown_promotion(&self, id: &str) -> (r: ApiRequest)
        ensures
            r@ == get_request(markdown_path(id@)),
    {
        get(joined("/item_price_markdown/", id))
    }

    /// Replaces an item promotion.
    pub fn update_item_promotion(&self, id: &str, body: Json) -> (r: ApiRequest)
        ensures
            r@ == sending_request(HttpMethod::Put, item_promotion_path(id@), body@),
    {
        send(HttpMethod::Put, joined("/item_promotion/", id), body)
    }

    /// Replaces a markdown sale.
    pub fn update_markdown_promotion(&self, id: &str, body: Json) -> (r: ApiRequest)
        ensures
            r@ == sending_request(HttpMethod::Put, markdown_path(id@), body@),
    {
        send(HttpMethod::Put, joined("/item_price_markdown/", id), body)
    }

    /// Asks for the listings of a promotion.
    pub fn get_listing_set(&self, promotion_id: &str) -> (r: ApiRequest)
        ensures
            r@ == get_request(listing_set_path(promotion_id@)),
    {
        get(enclosed("/promotion/", promotion_id, "/get_listing_set"))
    }

    /// Starts an item promotion.
    pub fn create_item_promotion(&self, body: Json) -> (r: ApiRequest)
        ensures
            r@ == sending_request(HttpMethod::Post, "/item_promotion"@, body@),
    {
        send(HttpMethod::Post, "/item_promotion".to_owned(), body)
    }

    /// Starts a markdown sale.
    pub fn create_markdown_promotion(&self, body: Json) -> (r: ApiRequest)
        ensures
            r@ == sending_request(HttpMethod::Post, "/item_price_markdown"@, body@),
    {
        send(HttpMethod::Post, "/item_price_markdown".to_owned(), body)
    }
}

/// The message of an error.
pub open spec fn error_message(e: ApiError) -> Seq<char> {
    match e {
        ApiError::Http { status, body } => "http "@ + decimal(status as nat) + ": "@ + body@,
        ApiError::Net(reason) => reason@,
        ApiError::Json(reason) => reason@,
    }
}

impl ApiError {
    /// The message of the error.
    pub fn message(&self) -> (r: String)
        ensures
            r@ == error_message(*self),
    {
        match self {
            ApiError::Http { status, body } => {
                let number: String = decimal_text(*status as u64);
                let mut s: String = enclosed("http ", number.as_str(), ": ");
                s.append(body.as_str());
                s
            },
            ApiError::Net(reason) => reason.clone(),
            ApiError::Json(reason) => reason.clone(),
        }
    }
}

/// How often a request is attempted at most.
pub const MAX_ATTEMPTS: usize = 3;

/// What came of an attempt.
#[derive(Debug, PartialEq, Eq)]
pub enum Reply {
    /// The service answered.
    Response { status: u16, body: String },
    /// There was no answer, for the reason given.
    Failure(String),
}

/// What to do after an attempt.
#[derive(Debug, PartialEq, Eq)]
pub enum ReplyStep {
    /// Read this answer.
    Accept(String),
    /// Attempt again after so many milliseconds.
    Retry(u64),
    /// Stop with this error.
    Fail(ApiError),
}

/// Whether a status reports success.
pub open spec fn reports_success(status: u16) -> bool {
    200 <= status < 300
}

/// Whether a status may pass: too many requests, or a failure of the server.
pub open spec fn may_pass(status: u16) -> bool {
    status == 429 || 500 <= status < 600
}

/// The milliseconds to wait after an attempt: twice as long each time.
pub open spec fn backoff(attempt: nat) -> nat {
    1_000 * pow2(attempt)
}

/// Whether a status reports success.
pub fn is_success(status: u16) -> (r: bool)
    ensures
        r == reports_success(status),
{
    200 <= status && status < 300
}

fn backoff_millis(attempt: usize) -> (r: u64)
    requires
        attempt < MAX_ATTEMPTS,
    ensures
        r == backoff(attempt as nat),
{
    proof {
        lemma2_to64();
    }
    if attempt == 0 {
        1_000
    } else if attempt == 1 {
        2_000
    } else {
        4_000
    }
}

/// What to do after the attempt with the given number, counted from one: read
/// an answer that reports success, attempt again where the trouble may pass
/// and attempts are left, and stop otherwise.
pub open spec fn step_after(attempt: nat, reply: Reply) -> ReplyStep {
    match reply {
        Reply::Response { status, body } => if reports_success(status) {
            ReplyStep::Accept(body)
        } else if may_pass(status) && attempt < MAX_ATTEMPTS {
            ReplyStep::Retry(backoff(attempt) as u64)
        } else {
            ReplyStep::Fail(ApiError::Http { status, body })
        },
        Reply::Failure(reason) => if attempt < MAX_ATTEMPTS {
            ReplyStep::Retry(backoff(attempt) as u64)
        } else {
            ReplyStep::Fail(ApiError::Net(reason))
        },
    }
}

impl MarketingApi {
    /// What to do after the attempt of a request with the given number,
    /// counted from one.
    pub fn request_json(&self, attempt: usize, reply: Reply) -> (r: ReplyStep)
        ensures
            r == step_after(attempt as nat, reply),
    {
        match reply {
            Reply::Response { status, body } => {
                if is_success(status) {
                    return ReplyStep::Accept(body);
                }
                if (status == 429 || (500 <= status && status < 600)) && attempt < MAX_ATTEMPTS {
                    return ReplyStep::Retry(backoff_millis(attempt));
                }
                ReplyStep::Fail(ApiError::Http { status, body })
            },
            Reply::Failure(reason) => {
                if attempt < MAX_ATTEMPTS {
                    ReplyStep::Retry(backoff_millis(attempt))
                } else {
                    ReplyStep::Fail(ApiError::Net(reason))
                }
            },
        }
    }
}

/// The third attempt is the last, whatever comes of it.
pub proof fn law_third_attempt_is_the_last(attempt: nat, reply: Reply)
    requires
        attempt >= 3,
    ensures
        !(step_after(attempt, reply) is Retry),
{
}

/// A refusal that will not pass is not tried again: it is handed on with its
/// status and its text.
pub proof fn law_refusal_is_handed_on(attempt: nat, status: u16, body: String)
    requires
        !reports_success(status),
        !may_pass(status),
    ensures
        step_after(attempt, Reply::Response { status, body }) == ReplyStep::Fail(
            ApiError::Http { status, body },
        ),
{
}

/// An answer that reports success is read at once, in whichever attempt.
pub proof fn law_success_is_read(attempt: nat, status: u16, body: String)
    requires
        reports_success(status),
    ensures
        step_after(attempt, Reply::Response { status, body }) == ReplyStep::Accept(body),
{
}

/// The waits before the second and the third attempt are two and four seconds.
pub proof fn law_waits_double(reply: Reply)
    requires
        reply matches Reply::Response { status, .. } ==> may_pass(status),
    ensures
        step_after(1, reply) == ReplyStep::Retry(2_000),
        step_after(2, reply) == ReplyStep::Retry(4_000),
{
    lemma2_to64();
}

/// A request asks for a path without a body, or sends a body to it by the
/// method given.
pub proof fn law_request_says_what_it_holds(request: ApiRequest, path: Seq<char>, body: JsonModel)
    ensures
        request@.method == request.method,
        request@.path == request.path@,
        request.body matches Some(sent) ==> request@.body == Some(sent@),
        request.body is None ==> request@.body is None,
        get_request(path).method is Get,
        get_request(path).path == path,
        get_request(path).body is None,
        sending_request(HttpMethod::Put, path, body).method is Put,
        sending_request(HttpMethod::Post, path, body).method is Post,
        sending_request(HttpMethod::Put, path, body).path == path,
        sending_request(HttpMethod::Post, path, body).path == path,
        sending_request(HttpMethod::Put, path, body).body == Some(body),
        sending_request(HttpMethod::Post, path, body).body == Some(body),
{
}

/// The addresses of the service, for every host, identifier, page and
/// marketplace.
pub proof fn law_addresses_name_the_resource(
    host: Seq<char>,
    path: Seq<char>,
    id: Seq<char>,
    limit: nat,
    offset: nat,
    marketplace: Seq<char>,
)
    ensures
        url_of(host, path) == "https://"@ + host + "/sell/marketing/v1"@ + path,
        promotions_path(limit, offset, marketplace) == "/promotion?limit="@ + decimal(limit)
            + "&offset="@ + decimal(offset) + "&marketplace_id="@ + marketplace,
        item_promotion_path(id) == "/item_promotion/"@ + id,
        markdown_path(id) == "/item_price_markdown/"@ + id,
        listing_set_path(id) == "/promotion/"@ + id + "/get_listing_set"@,
{
}

/// The message of a refusal names its status and repeats its whole text; any
/// other message is the reason given.
pub proof fn law_message_tells_what_went_wrong(status: u16, text: String)
    ensures
        error_message(ApiError::Http { status, body: text }) == "http "@ + decimal(status as nat)
            + ": "@ + text@,
        error_message(ApiError::Net(text)) == text@,
        error_message(ApiError::Json(text)) == text@,
{
}

/// What comes of every status in every attempt: 200 to 299 is read, 429 and
/// 500 to 599 are tried again after two and after four seconds and then handed
/// on, and everything else is handed on at once.
pub proof fn law_status_decides(attempt: nat, status: u16, body: String)
    ensures
        ({
            let step = step_after(attempt, Reply::Response { status, body });
            let passes = status == 429 || (500 <= status && status <= 599);
            &&& 200 <= status <= 299 ==> step == ReplyStep::Accept(body)
            &&& passes && attempt == 0 ==> step == ReplyStep::Retry(1_000)
            &&& passes && attempt == 1 ==> step == ReplyStep::Retry(2_000)
            &&& passes && attempt == 2 ==> step == ReplyStep::Retry(4_000)
            &&& passes && attempt >= 3 ==> step == ReplyStep::Fail(ApiError::Http { status, body })
            &&& !passes && !(200 <= status <= 299) ==> step == ReplyStep::Fail(
                ApiError::Http { status, body },
            )
        }),
        reports_success(status) <==> 200 <= status <= 299,
{
    lemma2_to64();
}

/// A request without an answer is tried again after two and after four
/// seconds, and the reason is handed on after the third attempt.
pub proof fn law_lost_request_is_tried_three_times(attempt: nat, reason: String)
    ensures
        ({
            let step = step_after(attempt, Reply::Failure(reason));
            &&& attempt == 0 ==> step == ReplyStep::Retry(1_000)
            &&& attempt == 1 ==> step == ReplyStep::Retry(2_000)
            &&& attempt == 2 ==> step == ReplyStep::Retry(4_000)
            &&& attempt >= 3 ==> step == ReplyStep::Fail(ApiError::Net(reason))
        }),
{
    lemma2_to64();
}

} // verus!
