//! What the marketing service reports: promotions, the listings in them, and
//! access tokens.
use crate::json::{Json, JsonModel};
use vstd::prelude::*;

verus! {

/// One page of promotions.
#[derive(Debug, Clone, PartialEq, Eq)]
pub struct PromotionList {
    pub promotions: Vec<PromotionSummary>,
}

/// The listings of one promotion.
#[derive(Debug, Clone, PartialEq, Eq)]
pub struct ListingSet {
    pub listings: Vec<ListingDetail>,
    pub total: i32,
    pub limit: i32,
    pub offset: i32,
    pub href: Option<String>,
    pub next: Option<String>,
    pub prev: Option<String>,
}

/// One listing of a promotion.
#[allow(non_snake_case)]
#[derive(Debug, Clone, PartialEq, Eq)]
pub struct ListingDetail {
    pub listingId: String,
    pub inventoryReferenceId: Option<String>,
    pub title: String,
    pub quantity: Option<i32>,
    pub currentPrice: Option<Json>,
    pub freeShipping: Option<bool>,
    pub listingCategoryId: Option<String>,
    pub listingCondition: Option<String>,
    pub listingConditionId: Option<String>,
    pub storeCategoryId: Option<String>,
    pub listingPromotionStatuses: Option<Vec<ItemMarkdownStatus>>,
}

/// The state of a listing in a markdown sale.
#[allow(non_snake_case)]
#[derive(Debug, Clone, PartialEq, Eq)]
pub struct ItemMarkdownStatus {
    pub listingMarkdownStatus: String,
    pub statusChangedDate: String,
    pub statusMessage: Option<String>,
}

/// One promotion.
#[allow(non_snake_case)]
#[derive(Debug, PartialEq, Eq)]
pub struct PromotionSummary {
    pub promotionId: String,
    pub promotionStatus: String,
    pub promotionType: String,
    pub name: Option<String>,
    pub description: Option<String>,
    pub startDate: String,
    pub endDate: String,
    pub inventoryCriterion: Option<Json>,
    pub selectedInventoryDiscounts: Option<Json>,
    pub discountBenefit: Option<Json>,
    pub discountSpecification: Option<Json>,
    pub marketplaceId: Option<String>,
    pub promotionImageUrl: Option<String>,
    pub priority: Option<Json>,
}

/// The answer to a token request.
#[derive(Debug, Clone, PartialEq, Eq)]
pub struct TokenResponse {
    pub access_token: String,
}

/// What a promotion says.
#[allow(non_snake_case)]
#[verifier::ext_equal]
pub struct PromotionModel {
    pub promotionId: Seq<char>,
    pub promotionStatus: Seq<char>,
    pub promotionType: Seq<char>,
    pub name: Option<Seq<char>>,
    pub description: Option<Seq<char>>,
    pub startDate: Seq<char>,
    pub endDate: Seq<char>,
    pub inventoryCriterion: Option<JsonModel>,
    pub selectedInventoryDiscounts: Option<JsonModel>,
    pub discountBenefit: Option<JsonModel>,
    pub discountSpecification: Option<JsonModel>,
    pub marketplaceId: Option<Seq<char>>,
    pub promotionImageUrl: Option<Seq<char>>,
    pub priority: Option<JsonModel>,
}

/// The contents of a text that may be missing.
pub open spec fn optional_text(t: Option<String>) -> Option<Seq<char>> {
    match t {
        Some(s) => Some(s@),
        None => None,
    }
}

/// What a document that may be missing says.
pub open spec fn optional_json(j: Option<Json>) -> Option<JsonModel> {
    match j {
        Some(v) => Some(v@),
        None => None,
    }
}

impl View for PromotionSummary {
    type V = PromotionModel;

    open spec fn view(&self) -> PromotionModel {
        PromotionModel {
            promotionId: self.promotionId@,
            promotionStatus: self.promotionStatus@,
            promotionType: self.promotionType@,
            name: optional_text(self.name),
            description: optional_text(self.description),
            startDate: self.startDate@,
            endDate: self.endDate@,
            inventoryCriterion: optional_json(self.inventoryCriterion),
            selectedInventoryDiscounts: optional_json(self.selectedInventoryDiscounts),
            discountBenefit: optional_json(self.discountBenefit),
            discountSpecification: optional_json(self.discountSpecification),
            marketplaceId: optional_text(self.marketplaceId),
            promotionImageUrl: optional_text(self.promotionImageUrl),
            priority: optional_json(self.priority),
        }
    }
}

/// What the promotions of a list say.
pub open spec fn promotions_model(list: Seq<PromotionSummary>) -> Seq<PromotionModel> {
    Seq::new(list.len(), |i: int| list[i]@)
}

fn copied_text(t: &Option<String>) -> (r: Option<String>)
    ensures
        optional_text(r) == optional_text(*t),
{
    match t {
        Some(s) => Some(s.clone()),
        None => None,
    }
}

fn copied_json(j: &Option<Json>) -> (r: Option<Json>)
    ensures
        optional_json(r) == optional_json(*j),
{
    match j {
        Some(v) => Some(v.clone()),
        None => None,
    }
}

impl Clone for PromotionSummary {
    fn clone(&self) -> (r: PromotionSummary)
        ensures
            r@ == self@,
    {
        PromotionSummary {
            promotionId: self.promotionId.clone(),
            promotionStatus: self.promotionStatus.clone(),
            promotionType: self.promotionType.clone(),
            name: copied_text(&self.name),
            description: copied_text(&self.description),
            startDate: self.startDate.clone(),
            endDate: self.endDate.clone(),
            inventoryCriterion: copied_json(&self.inventoryCriterion),
            selectedInventoryDiscounts: copied_json(&self.selectedInventoryDiscounts),
            discountBenefit: copied_json(&self.discountBenefit),
            discountSpecification: copied_json(&self.discountSpecification),
            marketplaceId: copied_text(&self.marketplaceId),
            promotionImageUrl: copied_text(&self.promotionImageUrl),
            priority: copied_json(&self.priority),
        }
    }
}

/// What a promotion says is what stands in its fields, each under its own name.
pub proof fn law_promotion_says_what_it_holds(p: PromotionSummary)
    ensures
        p@.promotionId == p.promotionId@,
        p@.promotionStatus == p.promotionStatus@,
        p@.promotionType == p.promotionType@,
        p@.startDate == p.startDate@,
        p@.endDate == p.endDate@,
        p.name matches Some(t) ==> p@.name == Some(t@),
        p.name is None ==> p@.name is None,
        p.description matches Some(t) ==> p@.description == Some(t@),
        p.description is None ==> p@.description is None,
        p.inventoryCriterion matches Some(j) ==> p@.inventoryCriterion == Some(j@),
        p.inventoryCriterion is None ==> p@.inventoryCriterion is None,
        p.selectedInventoryDiscounts matches Some(j) ==> p@.selectedInventoryDiscounts == Some(j@),
        p.selectedInventoryDiscounts is None ==> p@.selectedInventoryDiscounts is None,
        p.discountBenefit matches Some(j) ==> p@.discountBenefit == Some(j@),
        p.discountBenefit is None ==> p@.discountBenefit is None,
        p.discountSpecification matches Some(j) ==> p@.discountSpecification == Some(j@),
        p.discountSpecification is None ==> p@.discountSpecification is None,
        p.marketplaceId matches Some(t) ==> p@.marketplaceId == Some(t@),
        p.marketplaceId is None ==> p@.marketplaceId is None,
        p.promotionImageUrl matches Some(t) ==> p@.promotionImageUrl == Some(t@),
        p.promotionImageUrl is None ==> p@.promotionImageUrl is None,
        p.priority matches Some(j) ==> p@.priority == Some(j@),
        p.priority is None ==> p@.priority is None,
{
}

/// What a list of promotions says is what each of them says, at its place.
pub proof fn law_list_says_what_its_promotions_say(list: Seq<PromotionSummary>, i: int)
    requires
        0 <= i < list.len(),
    ensures
        promotions_model(list).len() == list.len(),
        promotions_model(list)[i] == list[i]@,
{
}

} // verus!
