use ebay_marketing_lib::json::Json;
use ebay_marketing_lib::listing::{
    extract_cohort_tag, extract_listing_ids, needs_listing_set, ListingInfo,
};
use ebay_marketing_lib::{ListingDetail, ListingSet, PromotionSummary};

fn promotion(kind: &str, criterion: Option<Json>) -> PromotionSummary {
    PromotionSummary {
        promotionId: "p-1".to_string(),
        promotionStatus: "RUNNING".to_string(),
        promotionType: kind.to_string(),
        name: None,
        description: None,
        startDate: String::new(),
        endDate: String::new(),
        inventoryCriterion: criterion,
        selectedInventoryDiscounts: None,
        discountBenefit: None,
        discountSpecification: None,
        marketplaceId: None,
        promotionImageUrl: None,
        priority: None,
    }
}

fn detail(id: &str, title: &str) -> ListingDetail {
    ListingDetail {
        listingId: id.to_string(),
        inventoryReferenceId: None,
        title: title.to_string(),
        quantity: Some(1),
        currentPrice: None,
        freeShipping: None,
        listingCategoryId: None,
        listingCondition: None,
        listingConditionId: None,
        storeCategoryId: None,
        listingPromotionStatuses: None,
    }
}

fn set(listings: Vec<ListingDetail>) -> Option<ListingSet> {
    Some(ListingSet { listings, total: 0, limit: 0, offset: 0, href: None, next: None, prev: None })
}

fn entry(id: &str, cohort: &str) -> ListingInfo {
    ListingInfo { listing_id: id.to_string(), cohort: cohort.to_string() }
}

fn criterion(ids: Json) -> Option<Json> {
    Some(Json::object().with("listingIds", ids))
}

#[test]
fn titles_name_cohorts() {
    assert_eq!(extract_cohort_tag("Camera [A]"), "A");
    assert_eq!(extract_cohort_tag("[B] Camera"), "B");
    assert_eq!(extract_cohort_tag("Camera [C] used"), "C");
    assert_eq!(extract_cohort_tag("Camera"), "A");
    assert_eq!(extract_cohort_tag("Camera [D]"), "A");
    assert_eq!(extract_cohort_tag("[C][B]"), "B");
    assert_eq!(extract_cohort_tag("[C][A]"), "A");
    assert_eq!(extract_cohort_tag("[b]"), "A");
    assert_eq!(extract_cohort_tag(""), "A");
}

#[test]
fn sale_takes_its_listings_from_the_set() {
    let p = promotion("MARKDOWN_SALE", criterion(Json::list_of(Json::text("x"))));
    assert!(needs_listing_set(&p));
    let fetched = set(vec![detail("1", "Lens [B]"), detail("2", "Lens")]);
    assert_eq!(extract_listing_ids(&p, &fetched), vec![entry("1", "B"), entry("2", "A")]);
    assert_eq!(extract_listing_ids(&p, &None), vec![]);
}

#[test]
fn other_promotions_take_listings_from_the_criterion() {
    let ids = Json::Array(vec![
        Json::text("1"),
        Json::Number("2".to_string()),
        Json::Null,
        Json::text("3"),
    ]);
    let p = promotion("ORDER_DISCOUNT", criterion(ids));
    assert!(!needs_listing_set(&p));
    let fetched = set(vec![detail("9", "Lens [B]")]);
    assert_eq!(extract_listing_ids(&p, &fetched), vec![entry("1", "A"), entry("3", "A")]);
}

#[test]
fn criterion_without_ids_gives_no_listings() {
    for c in [None, criterion(Json::text("1")), Some(Json::object()), Some(Json::Null)] {
        assert_eq!(extract_listing_ids(&promotion("ORDER_DISCOUNT", c), &None), vec![]);
    }
}
