use ebay_marketing_lib::action::{FallbackType, PromotionAction};
use ebay_marketing_lib::api::{ApiRequest, HttpMethod};
use ebay_marketing_lib::json::Json;
use ebay_marketing_lib::listing::ListingInfo;
use ebay_marketing_lib::request::{
    first_step, first_step_at, first_step_from, lookup_request, short_desc_tag_at, start_fallback_body,
    start_markdown_body, update_request, update_request_with, updated_promotion, ActionStep,
};
use ebay_marketing_lib::time::{UtcTime, LAST_SECOND};
use ebay_marketing_lib::{short_desc_tag, Config, Environment, MarketingApi};

const NOW: UtcTime = UtcTime { secs: 1_704_067_200, nanos: 500_000_000 };

fn api() -> MarketingApi {
    MarketingApi::new(Config {
        access_token: "t".to_string(),
        env: Environment::Production,
        requests_per_second: 5,
        alert_window_hours: 48,
    })
}

fn listings() -> Vec<ListingInfo> {
    vec![
        ListingInfo { listing_id: "1".to_string(), cohort: "A".to_string() },
        ListingInfo { listing_id: "2".to_string(), cohort: "B".to_string() },
    ]
}

fn object(entries: &[(&str, Json)]) -> Json {
    Json::Object(entries.iter().map(|(k, v)| (k.to_string(), v.clone())).collect())
}

fn text(s: &str) -> Json {
    Json::Text(s.to_string())
}

fn criterion() -> Json {
    object(&[
        ("inventoryCriterionType", text("INVENTORY_BY_VALUE")),
        ("listingIds", Json::Array(vec![text("1"), text("2")])),
    ])
}

fn markdown() -> Json {
    let discount = object(&[
        ("discountBenefit", object(&[("percentageOffItem", text("20"))])),
        ("inventoryCriterion", criterion()),
    ]);
    object(&[
        ("name", text("Markdown Sale - 2024-01-01T00:00:00Z")),
        ("description", text("Auto-generated, 2024-01-01T00:00:00Z")),
        ("startDate", text("s")),
        ("endDate", text("e")),
        ("marketplaceId", text("EBAY_US")),
        ("promotionType", text("MARKDOWN_SALE")),
        ("promotionStatus", text("SCHEDULED")),
        ("selectedInventoryDiscounts", Json::Array(vec![discount])),
    ])
}

fn fallback(kind: &str) -> Json {
    let amount = object(&[("value", text("50")), ("currency", text("USD"))]);
    let rule = object(&[
        ("discountBenefit", object(&[("percentageOffOrder", text("10"))])),
        ("discountSpecification", object(&[("minAmount", amount)])),
    ]);
    object(&[
        ("name", text("Fallback Promotion - 2024-01-01T00:00:00Z")),
        ("description", text("Auto-generated, 2024-01-01T00:00:00Z")),
        ("startDate", text("s")),
        ("endDate", text("e")),
        ("marketplaceId", text("EBAY_US")),
        ("promotionType", text(kind)),
        ("promotionStatus", text("SCHEDULED")),
        ("discountRules", Json::Array(vec![rule])),
        ("inventoryCriterion", criterion()),
    ])
}

#[test]
fn tags_name_the_time() {
    assert_eq!(short_desc_tag_at(NOW), "Auto-generated, 2024-01-01T00:00:00Z");
    let far = UtcTime { secs: LAST_SECOND, nanos: 0 };
    assert_eq!(short_desc_tag_at(far), "Auto-generated, +262142-12-31T23:59:");
    let tag = short_desc_tag();
    assert!(tag.starts_with("Auto-generated, 2"));
    assert!(tag.ends_with('Z'));
    assert_eq!(tag.chars().count(), 36);
}

#[test]
fn sales_are_described_in_full() {
    let body = start_markdown_body(&listings(), "s", "e", "EBAY_US", NOW, NOW);
    assert_eq!(body, markdown());
}

#[test]
fn fallbacks_are_described_in_full() {
    let body = |kind| start_fallback_body(kind, &listings(), "s", "e", "EBAY_US", NOW, NOW);
    assert_eq!(body(FallbackType::Order), fallback("ORDER_DISCOUNT"));
    assert_eq!(body(FallbackType::Coupon), fallback("CODED_COUPON"));
}

#[test]
fn identifiers_decide_where_to_look() {
    assert_eq!(lookup_request("1@2").path, "/item_promotion/1@2");
    assert_eq!(lookup_request("12").path, "/item_price_markdown_promotion/12");
}

#[test]
fn update_keeps_other_fields() {
    let detail = object(&[
        ("endDate", text("old")),
        ("discountRules", Json::Array(vec![Json::Bool(true)])),
        ("description", text("mine")),
    ]);
    let updated = updated_promotion(detail, "new", "tag");
    assert_eq!(updated.get("endDate"), Some(&text("new")));
    assert_eq!(updated.get("promotionStatus"), Some(&text("SCHEDULED")));
    assert_eq!(updated.get("description"), Some(&text("mine")));
    assert_eq!(updated.get("discountRules"), Some(&Json::Array(vec![Json::Bool(true)])));
}

#[test]
fn missing_description_is_added() {
    let without = updated_promotion(Json::object(), "new", "tag");
    assert_eq!(without.get("description"), Some(&text("tag")));
    let null = updated_promotion(object(&[("description", Json::Null)]), "new", "tag");
    assert_eq!(null.get("description"), Some(&text("tag")));
    let nothing = updated_promotion(Json::Null, "new", "tag");
    assert_eq!(nothing.get("endDate"), Some(&text("new")));
}

#[test]
fn type_decides_where_to_update() {
    let sale = object(&[("promotionType", text("MARKDOWN_SALE"))]);
    let request = update_request_with(&api(), "1", sale, "new", "tag");
    assert_eq!(request.method, HttpMethod::Put);
    assert_eq!(request.path, "/item_price_markdown/1");
    for detail in [Json::Null, object(&[("promotionType", Json::Bool(true))])] {
        let request = update_request(&api(), "1", detail, "new");
        assert_eq!(request.path, "/item_promotion/1");
        let body = request.body.unwrap();
        assert_eq!(body.get("endDate"), Some(&text("new")));
        assert_eq!(body.get("promotionStatus"), Some(&text("SCHEDULED")));
        assert!(body.get("description").is_some());
    }
}

#[test]
fn actions_begin_with_requests() {
    let step = |action| first_step_at(&api(), &action, NOW, NOW);
    assert_eq!(
        step(PromotionAction::RemoveListing("1".to_string(), "2".to_string())),
        ActionStep::Nothing
    );
    assert_eq!(
        step(PromotionAction::UpdateEnd("1".to_string(), "new".to_string())),
        ActionStep::Change(lookup_request("1"), "1".to_string(), "new".to_string())
    );
    assert_eq!(
        step(PromotionAction::End("1".to_string())),
        ActionStep::Change(
            lookup_request("1"),
            "1".to_string(),
            "2024-01-01T00:05:00.500+00:00".to_string()
        )
    );
    let start = ("s".to_string(), "e".to_string());
    assert_eq!(
        step(PromotionAction::StartMarkdown(listings(), start.0.clone(), start.1.clone())),
        ActionStep::Start(ApiRequest {
            method: HttpMethod::Post,
            path: "/item_price_markdown".to_string(),
            body: Some(markdown()),
        })
    );
    assert_eq!(
        step(PromotionAction::StartFallback(FallbackType::Coupon, listings(), start.0, start.1)),
        ActionStep::Start(ApiRequest {
            method: HttpMethod::Post,
            path: "/item_promotion".to_string(),
            body: Some(fallback("CODED_COUPON")),
        })
    );
}

#[test]
fn ending_needs_five_minutes_of_the_calendar() {
    let last = |seconds: i64| UtcTime { secs: LAST_SECOND - seconds, nanos: 0 };
    let end = PromotionAction::End("1".to_string());
    assert!(first_step_from(&api(), &end, last(300), NOW).is_some());
    assert!(first_step_from(&api(), &end, last(299), NOW).is_none());
    let update = PromotionAction::UpdateEnd("1".to_string(), "new".to_string());
    assert!(first_step_from(&api(), &update, last(0), NOW).is_some());
}

#[test]
fn promotion_ends_five_minutes_from_now() {
    let before = ebay_marketing_lib::time::utc_now();
    let step = first_step(&api(), &PromotionAction::End("1".to_string()));
    match step {
        Some(ActionStep::Change(_, _, end)) => {
            let end = ebay_marketing_lib::parse_rfc3339(&end).unwrap();
            let left = end.since(&before).minutes;
            assert!(left == 5 || left == 6);
        }
        other => panic!("{:?}", other),
    }
}
