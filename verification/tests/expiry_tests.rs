use ebay_marketing_lib::api::{ApiRequest, HttpMethod};
use ebay_marketing_lib::expiry::{filter_expiring_at, filter_expiring_from, should_plan};
use ebay_marketing_lib::fetch::PromotionFetch;
use ebay_marketing_lib::time::{utc_now, UtcTime, LAST_SECOND};
use ebay_marketing_lib::{
    fetch_all_promotions, filter_expiring, Config, Environment, MarketingApi, PromotionList,
    PromotionSummary,
};

const NOW: UtcTime = UtcTime { secs: 1_704_067_200, nanos: 0 };

fn promotion(id: &str, status: &str, end: &str) -> PromotionSummary {
    PromotionSummary {
        promotionId: id.to_string(),
        promotionStatus: status.to_string(),
        promotionType: "ORDER_DISCOUNT".to_string(),
        name: Some(id.to_string()),
        description: None,
        startDate: String::new(),
        endDate: end.to_string(),
        inventoryCriterion: None,
        selectedInventoryDiscounts: None,
        discountBenefit: None,
        discountSpecification: None,
        marketplaceId: None,
        promotionImageUrl: None,
        priority: None,
    }
}

fn ids(list: &[PromotionSummary]) -> Vec<&str> {
    list.iter().map(|p| p.promotionId.as_str()).collect()
}

#[test]
fn expiring_promotions_are_sorted_by_end() {
    let all = [
        promotion("late", "RUNNING", "2024-01-02T20:00:00Z"),
        promotion("early", "PAUSED", "2024-01-01T10:00:00Z"),
        promotion("outside", "RUNNING", "2024-01-03T00:00:01Z"),
        promotion("limit", "SCHEDULED", "2024-01-03T00:00:00Z"),
        promotion("past", "RUNNING", "2023-06-01T00:00:00Z"),
    ];
    let out = filter_expiring_at(&all, NOW, 48);
    assert_eq!(ids(&out), vec!["past", "early", "late", "limit"]);
    assert_eq!(out[1], all[1]);
}

#[test]
fn promotions_with_the_same_end_keep_their_order() {
    let all = [
        promotion("1", "RUNNING", "2024-01-01T10:00:00Z"),
        promotion("2", "RUNNING", "2024-01-01T09:00:00Z"),
        promotion("3", "RUNNING", "2024-01-01T11:00:00+01:00"),
        promotion("4", "RUNNING", "2024-01-01T10:00:00Z"),
    ];
    assert_eq!(ids(&filter_expiring_at(&all, NOW, 48)), vec!["2", "1", "3", "4"]);
}

#[test]
fn other_states_and_unreadable_ends_do_not_expire() {
    let all = [
        promotion("1", "ENDED", "2024-01-01T10:00:00Z"),
        promotion("2", "running", "2024-01-01T10:00:00Z"),
        promotion("3", "RUNNING", ""),
        promotion("4", "RUNNING", "2024-01-01"),
    ];
    assert_eq!(ids(&filter_expiring_at(&all, NOW, 48)), Vec::<&str>::new());
}

#[test]
fn window_may_lie_in_the_past() {
    let all = [
        promotion("1", "RUNNING", "2023-12-31T23:00:00Z"),
        promotion("2", "RUNNING", "2023-12-31T23:00:01Z"),
    ];
    assert_eq!(ids(&filter_expiring_at(&all, NOW, -1)), vec!["1"]);
}

#[test]
fn wider_window_reports_more() {
    let all = [
        promotion("1", "RUNNING", "2024-01-01T10:00:00Z"),
        promotion("2", "RUNNING", "2024-01-05T10:00:00Z"),
    ];
    assert_eq!(ids(&filter_expiring_at(&all, NOW, 24)), vec!["1"]);
    assert_eq!(ids(&filter_expiring_at(&all, NOW, 240)), vec!["1", "2"]);
}

#[test]
fn window_outside_the_calendar_has_no_answer() {
    let late = UtcTime { secs: LAST_SECOND - 3_600, nanos: 0 };
    assert_eq!(filter_expiring_from(&[], late, 1), Some(vec![]));
    assert_eq!(filter_expiring_from(&[], late, 2), None);
    assert_eq!(filter_expiring_from(&[], NOW, i64::MAX), None);
    assert_eq!(filter_expiring_from(&[], NOW, i64::MIN), None);
    let all = [promotion("1", "RUNNING", "2024-01-01T10:00:00Z")];
    assert_eq!(ids(&filter_expiring_from(&all, NOW, 48).unwrap()), vec!["1"]);
}

#[test]
fn narrower_window_reports_the_beginning() {
    let all = [
        promotion("c", "RUNNING", "2024-01-03T00:00:00Z"),
        promotion("a", "PAUSED", "2024-01-01T01:00:00Z"),
        promotion("d", "SCHEDULED", "2024-01-04T00:00:00Z"),
        promotion("b", "RUNNING", "2024-01-02T00:00:00Z"),
    ];
    let wide = filter_expiring_at(&all, NOW, 72);
    assert_eq!(ids(&wide), vec!["a", "b", "c", "d"]);
    for hours in 0..73 {
        let narrow = filter_expiring_at(&all, NOW, hours);
        assert_eq!(narrow, wide[..narrow.len()]);
        assert_eq!(filter_expiring_at(&narrow, NOW, hours), narrow);
    }
}

#[test]
fn window_starts_now() {
    let soon = utc_now().moved(3_600).to_rfc3339();
    let later = utc_now().moved(360_000).to_rfc3339();
    let all = [promotion("later", "RUNNING", &later), promotion("soon", "RUNNING", &soon)];
    assert_eq!(ids(&filter_expiring(&all, 48).unwrap()), vec!["soon"]);
    assert!(filter_expiring(&all, i64::MAX).is_none());
    assert!(filter_expiring(&all, i64::MIN).is_none());
    assert!(filter_expiring(&all, 100_000_000_000).is_none());
}

#[test]
fn actions_are_planned_for_running_promotions() {
    assert!(should_plan(&promotion("1", "RUNNING", "")));
    assert!(!should_plan(&promotion("1", "SCHEDULED", "")));
    assert!(!should_plan(&promotion("1", "PAUSED", "")));
    assert!(!should_plan(&promotion("1", "", "")));
}

fn next(fetch: &PromotionFetch) -> Option<ApiRequest> {
    let cfg = Config {
        access_token: String::new(),
        env: Environment::Production,
        requests_per_second: 5,
        alert_window_hours: 48,
    };
    fetch.next_request(&MarketingApi::new(cfg))
}

fn page(offset: usize) -> Option<ApiRequest> {
    Some(ApiRequest {
        method: HttpMethod::Get,
        path: format!("/promotion?limit=50&offset={}&marketplace_id=EBAY_US", offset),
        body: None,
    })
}

#[test]
fn all_pages_are_fetched() {
    for total in [0usize, 1, 49, 50, 51, 100, 120] {
        let all: Vec<PromotionSummary> =
            (0..total).map(|i| promotion(&i.to_string(), "RUNNING", "")).collect();
        let mut fetch = fetch_all_promotions();
        let mut offset = 0;
        while next(&fetch).is_some() {
            assert_eq!(next(&fetch), page(offset));
            assert!(fetch.can_take_page());
            let end = (offset + 50).min(total);
            fetch.take_page(PromotionList { promotions: all[offset.min(end)..end].to_vec() });
            offset += 50;
        }
        assert_eq!(offset, total / 50 * 50 + 50);
        assert_eq!(fetch.into_promotions(), all);
    }
}
