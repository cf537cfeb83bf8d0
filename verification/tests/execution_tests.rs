use ebay_marketing_lib::action::{FallbackType, PromotionAction};
use ebay_marketing_lib::execution::{dry_run_counts, Execution, IdempotencyManager};
use ebay_marketing_lib::listing::ListingInfo;
use ebay_marketing_lib::order::execution_order;

fn end(id: &str) -> PromotionAction {
    PromotionAction::End(id.to_string())
}

fn update(id: &str, date: &str) -> PromotionAction {
    PromotionAction::UpdateEnd(id.to_string(), date.to_string())
}

fn entry(id: &str, cohort: &str) -> ListingInfo {
    ListingInfo { listing_id: id.to_string(), cohort: cohort.to_string() }
}

fn samples() -> Vec<PromotionAction> {
    let sale = |l: Vec<ListingInfo>| {
        PromotionAction::StartMarkdown(l, "s".to_string(), "e".to_string())
    };
    let fallback = |kind: FallbackType| {
        PromotionAction::StartFallback(kind, vec![], "s".to_string(), "e".to_string())
    };
    vec![
        end(""),
        end("1"),
        end("11"),
        update("1", "1"),
        update("11", ""),
        update("", "11"),
        PromotionAction::RemoveListing("1".to_string(), "1".to_string()),
        sale(vec![]),
        sale(vec![entry("1", "A")]),
        sale(vec![entry("1", "A"), entry("1", "A")]),
        sale(vec![entry("1A", "")]),
        fallback(FallbackType::Order),
        fallback(FallbackType::Coupon),
    ]
}

#[test]
fn keys_are_unique() {
    let manager = IdempotencyManager::new();
    let actions = samples();
    for (i, a) in actions.iter().enumerate() {
        for (j, b) in actions.iter().enumerate() {
            assert_eq!(manager.generate_key(a) == manager.generate_key(b), i == j);
        }
    }
}

#[test]
fn keys_spell_out_actions() {
    let manager = IdempotencyManager::new();
    assert_eq!(manager.generate_key(&update("p-1", "soon")), "U3:p-14:soon");
    assert_eq!(manager.generate_key(&end("été")), "E3:été");
    let sale = PromotionAction::StartMarkdown(
        vec![entry("l", "A")],
        "s".to_string(),
        "e".to_string(),
    );
    assert_eq!(manager.generate_key(&sale), "M1:1:l1:A1:s1:e");
}

#[test]
fn executed_actions_are_remembered() {
    let mut manager = IdempotencyManager::new();
    assert!(!manager.is_executed(&end("1")));
    manager.mark_executed(&end("1"));
    manager.mark_executed(&end("1"));
    assert!(manager.is_executed(&end("1")));
    assert!(!manager.is_executed(&end("2")));
    assert!(!manager.is_executed(&update("1", "")));
}

fn run(actions: &[PromotionAction], outcomes: &[bool]) -> (Vec<usize>, (usize, usize)) {
    let mut execution = Execution::new();
    let mut attempted = vec![];
    for (i, action) in actions.iter().enumerate() {
        if execution.should_attempt(action) {
            attempted.push(i);
            execution.record(action, outcomes[i]);
        }
    }
    (attempted, execution.counts())
}

#[test]
fn success_is_not_repeated() {
    let actions = [end("1"), end("2"), end("1")];
    assert_eq!(run(&actions, &[true, true, true]), (vec![0, 1], (2, 0)));
}

#[test]
fn failure_is_tried_again() {
    let actions = [end("1"), end("1"), end("1")];
    assert_eq!(run(&actions, &[false, true, true]), (vec![0, 1], (1, 1)));
    assert_eq!(run(&actions, &[false, false, false]), (vec![0, 1, 2], (0, 3)));
}

#[test]
fn dry_run_counts_all_actions() {
    assert_eq!(dry_run_counts(&samples()), (13, 0));
    assert_eq!(dry_run_counts(&vec![]), (0, 0));
}

#[test]
fn actions_run_kind_by_kind() {
    let remove = |id: &str| PromotionAction::RemoveListing(id.to_string(), "l".to_string());
    let sale = |id: &str| {
        PromotionAction::StartMarkdown(vec![entry(id, "A")], "s".to_string(), "e".to_string())
    };
    let fallback = |kind: FallbackType| {
        PromotionAction::StartFallback(kind, vec![], "s".to_string(), "e".to_string())
    };
    let given = vec![
        sale("2"),
        end("2"),
        fallback(FallbackType::Order),
        update("2", "x"),
        remove("2"),
        end("1"),
        sale("1"),
        update("1", "x"),
        remove("1"),
        fallback(FallbackType::Coupon),
        end("2"),
    ];
    let expected = vec![
        remove("2"),
        remove("1"),
        end("2"),
        end("1"),
        end("2"),
        update("2", "x"),
        update("1", "x"),
        fallback(FallbackType::Order),
        fallback(FallbackType::Coupon),
        sale("2"),
        sale("1"),
    ];
    assert_eq!(execution_order(given), expected);
    assert_eq!(execution_order(vec![]), vec![]);
}
