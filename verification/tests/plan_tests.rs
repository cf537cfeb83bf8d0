use ebay_marketing_lib::action::{FallbackType, PromotionAction};
use ebay_marketing_lib::listing::ListingInfo;
use ebay_marketing_lib::plan::{
    build_actions, can_plan, can_plan_period, classify_promotion, decide_fallback,
    decide_markdown_sale, decide_volume_discount, plan_fallback, plan_markdown_sale, plan_period,
    plan_promotion, plan_volume_discount, Period, PromotionClassification,
};
use ebay_marketing_lib::time::{UtcTime, LAST_SECOND};
use ebay_marketing_lib::PromotionSummary;

const NOW: UtcTime = UtcTime { secs: 1_704_067_200, nanos: 0 };

fn promotion(kind: &str, start: &str, end: &str) -> PromotionSummary {
    PromotionSummary {
        promotionId: "p-1".to_string(),
        promotionStatus: "RUNNING".to_string(),
        promotionType: kind.to_string(),
        name: None,
        description: None,
        startDate: start.to_string(),
        endDate: end.to_string(),
        inventoryCriterion: None,
        selectedInventoryDiscounts: None,
        discountBenefit: None,
        discountSpecification: None,
        marketplaceId: None,
        promotionImageUrl: None,
        priority: None,
    }
}

fn listings() -> Vec<ListingInfo> {
    vec![ListingInfo { listing_id: "l-1".to_string(), cohort: "B".to_string() }]
}

fn plan(p: &PromotionSummary, listings: Vec<ListingInfo>) -> Vec<PromotionAction> {
    assert!(can_plan(p, !listings.is_empty(), NOW, 48));
    plan_promotion(p, listings, NOW, FallbackType::Order, 48).unwrap()
}

fn end() -> PromotionAction {
    PromotionAction::End("p-1".to_string())
}

fn move_to(date: &str) -> PromotionAction {
    PromotionAction::UpdateEnd("p-1".to_string(), date.to_string())
}

fn fallback() -> PromotionAction {
    PromotionAction::StartFallback(
        FallbackType::Order,
        listings(),
        "2024-01-01T00:00:00+00:00".to_string(),
        "2024-01-15T00:00:00+00:00".to_string(),
    )
}

#[test]
fn types_have_classes() {
    let class = |kind: &str| classify_promotion(&promotion(kind, "", ""));
    assert_eq!(class("CODED_COUPON"), PromotionClassification::Coupon);
    assert_eq!(class("VOLUME_DISCOUNT"), PromotionClassification::VolumeDiscount);
    assert_eq!(class("MARKDOWN_SALE"), PromotionClassification::MarkdownSale);
    assert_eq!(class("ORDER_DISCOUNT"), PromotionClassification::Fallback);
    assert_eq!(class("markdown_sale"), PromotionClassification::Other);
    assert_eq!(class(""), PromotionClassification::Other);
}

#[test]
fn coupon_is_left_alone() {
    let p = promotion("CODED_COUPON", "2023-01-01T00:00:00Z", "2023-02-01T00:00:00Z");
    assert_eq!(plan(&p, listings()), vec![]);
}

#[test]
fn sale_of_45_days_ends_and_is_replaced() {
    let p = promotion("MARKDOWN_SALE", "2023-12-01T00:00:00Z", "2024-01-15T00:00:00Z");
    assert_eq!(plan_markdown_sale(&p, NOW, 48), (true, false, true));
    assert_eq!(plan(&p, listings()), vec![end(), fallback()]);
}

#[test]
fn sale_of_45_days_without_listings_is_kept() {
    let p = promotion("MARKDOWN_SALE", "2023-12-01T00:00:00Z", "2024-01-15T00:00:00Z");
    assert_eq!(plan(&p, vec![]), vec![]);
}

#[test]
fn sale_just_under_45_days_is_not_over() {
    let p = promotion("MARKDOWN_SALE", "2023-12-01T00:00:00Z", "2024-01-14T23:59:59Z");
    assert_eq!(plan_markdown_sale(&p, NOW, 48), (false, false, false));
    assert_eq!(plan(&p, listings()), vec![]);
}

#[test]
fn expiring_sale_gets_14_days() {
    let p = promotion("MARKDOWN_SALE", "2023-12-20T00:00:00Z", "2024-01-02T00:00:00Z");
    assert_eq!(plan_markdown_sale(&p, NOW, 48), (false, true, false));
    assert_eq!(plan(&p, listings()), vec![move_to("2024-01-16T00:00:00+00:00")]);
}

#[test]
fn expiring_sale_is_extended_to_45_days_at_most() {
    let p = promotion("MARKDOWN_SALE", "2023-11-25T00:00:00Z", "2024-01-02T00:00:00Z");
    assert_eq!(plan(&p, listings()), vec![move_to("2024-01-09T00:00:00+00:00")]);
}

#[test]
fn sale_that_is_long_over_ends() {
    let p = promotion("MARKDOWN_SALE", "2023-10-01T00:00:00Z", "2023-10-20T00:00:00Z");
    assert_eq!(plan(&p, listings()), vec![end(), fallback()]);
    assert_eq!(plan(&p, vec![]), vec![end()]);
}

#[test]
fn hours_left_are_counted_whole() {
    let within = promotion("MARKDOWN_SALE", "2023-12-20T00:00:00Z", "2024-01-03T00:59:59Z");
    assert!(plan_markdown_sale(&within, NOW, 48).1);
    let outside = promotion("MARKDOWN_SALE", "2023-12-20T00:00:00Z", "2024-01-03T01:00:00Z");
    assert!(!plan_markdown_sale(&outside, NOW, 48).1);
}

#[test]
fn volume_discount_continues_for_two_weeks() {
    let p = promotion("VOLUME_DISCOUNT", "2020-01-01T00:00:00Z", "2024-01-02T00:00:00Z");
    assert_eq!(plan_volume_discount(&p, NOW, 48), (false, true, false));
    assert_eq!(plan(&p, listings()), vec![move_to("2024-01-16T00:00:00+00:00")]);
    assert_eq!(plan(&p, vec![]), vec![move_to("2024-01-16T00:00:00+00:00")]);
    let past = promotion("VOLUME_DISCOUNT", "2020-01-01T00:00:00Z", "2023-01-02T00:00:00Z");
    assert_eq!(plan(&past, listings()), vec![move_to("2024-01-15T00:00:00+00:00")]);
    let later = promotion("VOLUME_DISCOUNT", "2020-01-01T00:00:00Z", "2024-02-02T00:00:00Z");
    assert_eq!(plan_volume_discount(&later, NOW, 48), (false, false, false));
    assert_eq!(plan(&later, listings()), vec![]);
}

#[test]
fn fallback_of_14_days_makes_way_for_a_sale() {
    let p = promotion("ORDER_DISCOUNT", "2023-12-20T00:00:00Z", "2024-01-03T00:00:00Z");
    assert_eq!(plan_fallback(&p, NOW, 48), (true, false, false));
    let sale = PromotionAction::StartMarkdown(
        listings(),
        "2024-01-01T00:00:00+00:00".to_string(),
        "2024-02-15T00:00:00+00:00".to_string(),
    );
    assert_eq!(plan(&p, listings()), vec![end(), sale]);
    assert_eq!(plan(&p, vec![]), vec![end()]);
}

#[test]
fn expiring_fallback_gets_14_days() {
    let p = promotion("ORDER_DISCOUNT", "2023-12-25T00:00:00Z", "2024-01-02T00:00:00Z");
    assert_eq!(plan_fallback(&p, NOW, 48), (false, true, false));
    assert_eq!(plan(&p, listings()), vec![move_to("2024-01-16T00:00:00+00:00")]);
    let old = promotion("ORDER_DISCOUNT", "2023-11-25T00:00:00Z", "2023-12-01T00:00:00Z");
    assert_eq!(plan(&old, listings()), vec![end()]);
}

#[test]
fn other_promotion_gets_two_weeks() {
    let p = promotion("SHIPPING", "2020-01-01T00:00:00Z", "2024-01-02T12:00:00Z");
    assert_eq!(plan(&p, listings()), vec![move_to("2024-01-16T12:00:00+00:00")]);
    let old = promotion("SHIPPING", "2020-01-01T00:00:00Z", "2023-12-18T00:00:00Z");
    assert_eq!(plan(&old, listings()), vec![end()]);
    assert_eq!(build_actions(&p, vec![], NOW, FallbackType::Coupon, 35), vec![]);
    assert_eq!(
        build_actions(&p, vec![], NOW, FallbackType::Coupon, 36),
        vec![move_to("2024-01-16T12:00:00+00:00")]
    );
}

#[test]
fn unreadable_dates_count_as_now() {
    let p = promotion("SHIPPING", "", "not a date");
    assert_eq!(plan(&p, listings()), vec![move_to("2024-01-15T00:00:00+00:00")]);
    let sale = promotion("MARKDOWN_SALE", "", "");
    assert_eq!(plan(&sale, vec![]), vec![move_to("2024-01-15T00:00:00+00:00")]);
}

#[test]
fn plans_stay_in_the_calendar() {
    let late = |days: i64| UtcTime { secs: LAST_SECOND - days * 86_400, nanos: 0 };
    let sale = promotion("MARKDOWN_SALE", "", "");
    assert!(can_plan(&sale, true, late(45), 48));
    assert!(!can_plan(&sale, true, late(44), 48));
    let old_sale = promotion("MARKDOWN_SALE", "2023-01-01T00:00:00Z", "2023-12-01T00:00:00Z");
    assert!(can_plan(&old_sale, true, late(14), 48));
    assert!(!can_plan(&old_sale, true, late(13), 48));
    assert!(can_plan(&old_sale, false, late(0), 48));
    let short_sale = promotion("MARKDOWN_SALE", "2023-12-01T00:00:00Z", "2023-12-02T00:00:00Z");
    assert!(can_plan(&short_sale, true, late(14), 48));
    assert!(!can_plan(&short_sale, true, late(13), 48));
    assert!(can_plan(&short_sale, false, late(13), 48));
    let volume = promotion("VOLUME_DISCOUNT", "", "");
    assert!(can_plan(&volume, true, late(14), 48));
    assert!(!can_plan(&volume, true, late(13), 48));
    let running = promotion("VOLUME_DISCOUNT", "", "9999-12-31T00:00:00Z");
    assert!(can_plan(&running, true, UtcTime { secs: 253_402_128_000, nanos: 0 }, 48));
    assert!(!can_plan(&running, true, late(13), 48));
    let fallback = promotion("ORDER_DISCOUNT", "2023-01-01T00:00:00Z", "2023-12-01T00:00:00Z");
    assert!(can_plan(&fallback, true, late(45), 48));
    assert!(!can_plan(&fallback, true, late(44), 48));
    assert!(can_plan(&fallback, false, late(44), 48));
    assert!(!can_plan(&promotion("ORDER_DISCOUNT", "", ""), false, late(13), 48));
    let other = promotion("SHIPPING", "", "");
    assert!(can_plan(&other, true, late(14), 48));
    assert!(!can_plan(&other, true, late(13), 48));
    assert!(can_plan(&other, true, late(13), -1));
    assert!(!can_plan(&other, true, NOW, i64::MAX));
    assert!(can_plan(&promotion("CODED_COUPON", "", ""), true, late(0), i64::MAX));
    assert_eq!(plan_promotion(&other, vec![], late(13), FallbackType::Order, 48), None);
}

#[test]
fn expiring_volume_discount_moves_from_its_end() {
    let mut p = promotion("VOLUME_DISCOUNT", "2025-01-01T00:00:00Z", "2025-01-10T00:00:00Z");
    p.promotionId = "V1".to_string();
    let now = UtcTime { secs: 1_736_380_800, nanos: 0 };
    assert_eq!(
        plan_promotion(&p, vec![], now, FallbackType::Order, 48),
        Some(vec![PromotionAction::UpdateEnd(
            "V1".to_string(),
            "2025-01-24T00:00:00+00:00".to_string()
        )])
    );
}

#[test]
fn alert_window_decides_what_expires() {
    let mut p = promotion("ORDER_DISCOUNT", "2025-01-01T00:00:00Z", "2025-01-10T00:00:00Z");
    p.promotionId = "F2".to_string();
    let now = UtcTime { secs: 1_736_251_200, nanos: 0 };
    let moved = |date: &str| {
        Some(vec![PromotionAction::UpdateEnd("F2".to_string(), date.to_string())])
    };
    for kind in ["ORDER_DISCOUNT", "MARKDOWN_SALE", "VOLUME_DISCOUNT", "SHIPPING"] {
        p.promotionType = kind.to_string();
        let plan = |window: i64| plan_promotion(&p, vec![], now, FallbackType::Order, window);
        assert_eq!(plan(48), Some(vec![]));
        assert_eq!(plan(59), Some(vec![]));
        assert_eq!(plan(60), moved("2025-01-24T00:00:00+00:00"));
        assert_eq!(plan(72), moved("2025-01-24T00:00:00+00:00"));
    }
    assert_eq!(plan_fallback(&p, now, 59), (false, false, false));
    assert_eq!(plan_fallback(&p, now, 60), (false, true, false));
    assert_eq!(plan_markdown_sale(&p, now, 60), (false, true, false));
    assert_eq!(plan_volume_discount(&p, now, 59), (false, false, false));
}

#[test]
fn periods_are_planned_without_their_texts() {
    let day = |n: i64| UtcTime { secs: NOW.secs + n * 86_400, nanos: 0 };
    let sale = Period { start: day(-30), end: day(2) };
    assert_eq!(decide_markdown_sale(sale, NOW, 48), (false, true, false));
    assert_eq!(decide_markdown_sale(sale, NOW, 47), (false, false, false));
    assert_eq!(decide_fallback(sale, NOW, 48), (true, false, false));
    assert_eq!(decide_volume_discount(sale, NOW, 48), (false, true, false));
    let class = PromotionClassification::MarkdownSale;
    assert!(can_plan_period(class, sale, true, NOW, 48));
    assert_eq!(
        plan_period(class, "p-1", sale, listings(), NOW, FallbackType::Order, 48),
        vec![move_to("2024-01-16T00:00:00+00:00")]
    );
    let long = Period { start: day(-45), end: day(0) };
    assert_eq!(
        plan_period(class, "p-1", long, listings(), NOW, FallbackType::Order, 48),
        vec![end(), fallback()]
    );
}

#[test]
fn end_never_moves_back() {
    for days in 1..45 {
        let end_day = UtcTime { secs: NOW.secs + 3_600, nanos: 0 };
        let start = UtcTime { secs: end_day.secs - days * 86_400, nanos: 0 };
        let period = Period { start, end: end_day };
        let class = PromotionClassification::MarkdownSale;
        let actions = plan_period(class, "p-1", period, vec![], NOW, FallbackType::Order, 48);
        match &actions[..] {
            [PromotionAction::UpdateEnd(_, date)] => {
                let moved = ebay_marketing_lib::parse_rfc3339(date).unwrap();
                assert!(end_day.is_before(&moved));
                assert_eq!(moved, end_day.moved(86_400 * (45 - days).min(14)));
            }
            other => panic!("{:?}", other),
        }
    }
}
