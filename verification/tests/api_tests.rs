use ebay_marketing_lib::api::{is_success, ApiRequest, HttpMethod, Reply, ReplyStep};
use ebay_marketing_lib::json::Json;
use ebay_marketing_lib::{ApiError, Config, Environment, MarketingApi};

fn api(env: Environment) -> MarketingApi {
    MarketingApi::new(Config {
        access_token: "t".to_string(),
        env,
        requests_per_second: 5,
        alert_window_hours: 48,
    })
}

fn get(path: &str) -> ApiRequest {
    ApiRequest { method: HttpMethod::Get, path: path.to_string(), body: None }
}

fn sending(method: HttpMethod, path: &str) -> ApiRequest {
    ApiRequest { method, path: path.to_string(), body: Some(Json::Null) }
}

fn response(status: u16) -> Reply {
    Reply::Response { status, body: "b".to_string() }
}

#[test]
fn addresses_name_the_host() {
    assert_eq!(
        api(Environment::Production).url("/promotion"),
        "https://api.ebay.com/sell/marketing/v1/promotion"
    );
    assert_eq!(
        api(Environment::Sandbox).url(""),
        "https://api.sandbox.ebay.com/sell/marketing/v1"
    );
}

#[test]
fn token_is_replaced() {
    let mut a = api(Environment::Sandbox);
    a.set_token("u".to_string());
    assert_eq!(a.cfg.access_token, "u");
    assert_eq!(a.cfg.env, Environment::Sandbox);
}

#[test]
fn promotions_are_listed_by_page() {
    assert_eq!(
        api(Environment::Production).list_promotions(50, 100),
        get("/promotion?limit=50&offset=100&marketplace_id=EBAY_US")
    );
    assert_eq!(
        api(Environment::Sandbox).list_promotions(1, 0),
        get("/promotion?limit=1&offset=0&marketplace_id=EBAY_AT")
    );
}

#[test]
fn promotions_have_paths() {
    let a = api(Environment::Sandbox);
    assert_eq!(a.get_item_promotion("1"), get("/item_promotion/1"));
    assert_eq!(a.get_markdown_promotion("1"), get("/item_price_markdown/1"));
    assert_eq!(a.get_listing_set("1"), get("/promotion/1/get_listing_set"));
    assert_eq!(
        a.update_item_promotion("1", Json::Null),
        sending(HttpMethod::Put, "/item_promotion/1")
    );
    assert_eq!(
        a.update_markdown_promotion("1", Json::Null),
        sending(HttpMethod::Put, "/item_price_markdown/1")
    );
    assert_eq!(
        a.create_item_promotion(Json::Null),
        sending(HttpMethod::Post, "/item_promotion")
    );
    assert_eq!(
        a.create_markdown_promotion(Json::Null),
        sending(HttpMethod::Post, "/item_price_markdown")
    );
}

#[test]
fn success_is_read() {
    let a = api(Environment::Sandbox);
    for attempt in 1..4 {
        for status in [200, 204, 299] {
            assert_eq!(
                a.request_json(attempt, response(status)),
                ReplyStep::Accept("b".to_string())
            );
        }
    }
    assert!(is_success(200) && is_success(299) && !is_success(199) && !is_success(300));
}

#[test]
fn trouble_that_may_pass_is_waited_out() {
    let a = api(Environment::Sandbox);
    for status in [429, 500, 503, 599] {
        assert_eq!(a.request_json(1, response(status)), ReplyStep::Retry(2_000));
        assert_eq!(a.request_json(2, response(status)), ReplyStep::Retry(4_000));
        assert_eq!(
            a.request_json(3, response(status)),
            ReplyStep::Fail(ApiError::Http { status, body: "b".to_string() })
        );
    }
    let lost = || Reply::Failure("lost".to_string());
    assert_eq!(a.request_json(1, lost()), ReplyStep::Retry(2_000));
    assert_eq!(a.request_json(2, lost()), ReplyStep::Retry(4_000));
    assert_eq!(
        a.request_json(3, lost()),
        ReplyStep::Fail(ApiError::Net("lost".to_string()))
    );
}

#[test]
fn refusal_is_handed_on() {
    let a = api(Environment::Sandbox);
    for status in [301, 400, 401, 404, 428, 430, 600] {
        assert_eq!(
            a.request_json(1, response(status)),
            ReplyStep::Fail(ApiError::Http { status, body: "b".to_string() })
        );
    }
}

#[test]
fn errors_have_messages() {
    let http = ApiError::Http { status: 404, body: "gone".to_string() };
    assert_eq!(http.message(), "http 404: gone");
    assert_eq!(ApiError::Net("lost".to_string()).message(), "lost");
    assert_eq!(ApiError::Json("bad".to_string()).message(), "bad");
}
