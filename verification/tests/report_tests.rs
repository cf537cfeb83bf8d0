use ebay_marketing_lib::report::{describe_discount, display, urgency};
use ebay_marketing_lib::tally::{tally, text_order, TextOrder};
use ebay_marketing_lib::time::UtcTime;
use ebay_marketing_lib::PromotionSummary;

const NOW: UtcTime = UtcTime { secs: 1_704_067_200, nanos: 0 };

fn promotion(kind: &str, status: &str, end: &str) -> PromotionSummary {
    PromotionSummary {
        promotionId: "p-1".to_string(),
        promotionStatus: status.to_string(),
        promotionType: kind.to_string(),
        name: None,
        description: None,
        startDate: "2023-12-01T00:00:00Z".to_string(),
        endDate: end.to_string(),
        inventoryCriterion: None,
        selectedInventoryDiscounts: None,
        discountBenefit: None,
        discountSpecification: None,
        marketplaceId: None,
        promotionImageUrl: None,
        priority: None,
    }
}

#[test]
fn urgency_grows_with_time() {
    assert_eq!(urgency(-1), "[!!!]");
    assert_eq!(urgency(6), "[!!!]");
    assert_eq!(urgency(7), "[!!] ");
    assert_eq!(urgency(12), "[!!] ");
    assert_eq!(urgency(13), "[!]");
    assert_eq!(urgency(24), "[!]");
    assert_eq!(urgency(25), "[*]");
}

#[test]
fn discount_is_described() {
    let mut p = promotion("ORDER_DISCOUNT", "RUNNING", "2024-01-02T03:04:05Z");
    p.name = Some("Winter".to_string());
    p.description = Some("All lenses".to_string());
    assert_eq!(
        describe_discount(&p, 3, false, NOW),
        vec![
            "\n[*] DISCOUNT #3".to_string(),
            "Promotion ID: p-1".to_string(),
            "Type: ORDER_DISCOUNT".to_string(),
            "Status: RUNNING".to_string(),
            "Name: Winter".to_string(),
            "Description: All lenses".to_string(),
            "Start: 2023-12-01T00:00:00Z".to_string(),
            "End:   2024-01-02T03:04:05Z".to_string(),
            "Time Remaining: 1d 3h 4m".to_string(),
            "-".repeat(80),
        ]
    );
}

#[test]
fn passed_discount_has_no_time_left() {
    let p = promotion("X", "RUNNING", "2023-12-30T22:58:00Z");
    let lines = describe_discount(&p, 1, true, NOW);
    assert_eq!(lines.len(), 8);
    assert_eq!(lines[0], "\n[!!!] DISCOUNT #1");
    assert_eq!(lines[4], "Name: Unnamed Promotion");
    assert_eq!(lines[7], "Time Remaining: 0d 0h 0m");
    let unreadable = promotion("X", "RUNNING", "?");
    assert_eq!(describe_discount(&unreadable, 1, true, NOW)[7], "Time Remaining: 0d 0h 0m");
}

#[test]
fn labels_are_counted_in_order() {
    let list = [
        promotion("b", "RUNNING", ""),
        promotion("a", "RUNNING", ""),
        promotion("b", "PAUSED", ""),
        promotion("", "RUNNING", ""),
        promotion("aa", "RUNNING", ""),
    ];
    let (total, types, statuses) = tally(&list);
    assert_eq!(total, 5);
    assert_eq!(types.lines("T"), vec!["T:", "  : 1", "  a: 1", "  aa: 1", "  b: 2"]);
    assert_eq!(statuses.lines("S"), vec!["S:", "  PAUSED: 1", "  RUNNING: 4"]);
    let (none, no_types, _) = tally(&[]);
    assert_eq!(none, 0);
    assert_eq!(no_types.lines("T"), vec!["T:"]);
}

#[test]
fn texts_are_ordered_as_strings_are() {
    let samples = ["", "a", "A", "aa", "ab", "b", "é", "z", "\u{ffff}", "\u{10000}"];
    for a in samples {
        for b in samples {
            let expected = if a < b {
                TextOrder::Before
            } else if a == b {
                TextOrder::Same
            } else {
                TextOrder::Behind
            };
            assert_eq!(text_order(a, b), expected);
        }
    }
}

#[test]
fn nothing_to_show_is_said() {
    assert_eq!(display(&[], 48, &[]), vec!["No discounts expiring within 48 hours."]);
    assert_eq!(display(&[], -3, &[]), vec!["No discounts expiring within -3 hours."]);
}

#[test]
fn discounts_are_shown_with_counts() {
    let shown = [promotion("b", "RUNNING", ""), promotion("a", "PAUSED", "")];
    let all = [
        promotion("b", "RUNNING", ""),
        promotion("a", "PAUSED", ""),
        promotion("a", "ENDED", ""),
    ];
    let lines = display(&shown, 48, &all);
    let rule = "=".repeat(80);
    assert_eq!(
        lines[..4],
        [
            rule.clone(),
            "DISCOUNTS EXPIRING WITHIN 48 HOURS".to_string(),
            rule.clone(),
            "\n[!!!] DISCOUNT #1".to_string(),
        ]
    );
    assert_eq!(lines[11], "-".repeat(80));
    assert_eq!(lines[12], "\n[!!!] DISCOUNT #2");
    let counts: Vec<&str> = lines[20..].iter().map(|l| l.as_str()).collect();
    assert_eq!(
        counts,
        vec![
            rule.as_str(),
            "TALLY",
            rule.as_str(),
            "Recognized discounts (all): 3",
            "By type (all):",
            "  a: 2",
            "  b: 1",
            "By status (all):",
            "  ENDED: 1",
            "  PAUSED: 1",
            "  RUNNING: 1",
            "---",
            "Expiring within window: 2",
            "By type (expiring):",
            "  a: 1",
            "  b: 1",
            "By status (expiring):",
            "  PAUSED: 1",
            "  RUNNING: 1",
            rule.as_str(),
        ]
    );
}
