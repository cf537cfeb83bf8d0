//! The listings that a promotion covers, and the cohort of each.
use crate::json::{lemma_array_model, Json, JsonModel};
use crate::model::{ListingDetail, ListingSet, PromotionModel, PromotionSummary};
use crate::text::{contains_text, law_found_text_stands_in_between, occurs_in, same_text};
use vstd::prelude::*;

verus! {

/// A listing and its cohort: `A`, `B` or `C`.
#[derive(Debug, PartialEq, Eq, Hash)]
pub struct ListingInfo {
    pub listing_id: String,
    pub cohort: String,
}

/// What a listing entry says.
#[verifier::ext_equal]
pub struct ListingModel {
    pub listing_id: Seq<char>,
    pub cohort: Seq<char>,
}

impl View for ListingInfo {
    type V = ListingModel;

    open spec fn view(&self) -> ListingModel {
        ListingModel { listing_id: self.listing_id@, cohort: self.cohort@ }
    }
}

impl Clone for ListingInfo {
    fn clone(&self) -> (r: ListingInfo)
        ensures
            r@ == self@,
    {
        ListingInfo { listing_id: self.listing_id.clone(), cohort: self.cohort.clone() }
    }
}

/// What the entries of a list say.
pub open spec fn listings_model(list: Seq<ListingInfo>) -> Seq<ListingModel> {
    Seq::new(list.len(), |i: int| list[i]@)
}

/// The cohort that a title names in square brackets: the first of `A`, `B` and
/// `C` that it names, and `A` where it names none.
pub open spec fn cohort_of(title: Seq<char>) -> Seq<char> {
    if occurs_in(title, "[A]"@) {
        "A"@
    } else if occurs_in(title, "[B]"@) {
        "B"@
    } else if occurs_in(title, "[C]"@) {
        "C"@
    } else {
        "A"@
    }
}

/// The cohort that a title names.
pub fn extract_cohort_tag(title: &str) -> (r: String)
    ensures
        r@ == cohort_of(title@),
{
    if contains_text(title, "[A]") {
        "A".to_owned()
    } else if contains_text(title, "[B]") {
        "B".to_owned()
    } else if contains_text(title, "[C]") {
        "C".to_owned()
    } else {
        "A".to_owned()
    }
}

/// The entries for the listings of a markdown sale.
pub open spec fn listings_of_set(listings: Seq<ListingDetail>) -> Seq<ListingModel> {
    Seq::new(
        listings.len(),
        |i: int|
            ListingModel {
                listing_id: listings[i].listingId@,
                cohort: cohort_of(listings[i].title@),
            },
    )
}

/// The entries for the strings among the items of an array, all in cohort `A`.
pub open spec fn listings_of_items(items: Seq<JsonModel>) -> Seq<ListingModel>
    decreases items.len(),
{
    if items.len() == 0 {
        Seq::empty()
    } else {
        match items.last() {
            JsonModel::Text(id) => listings_of_items(items.drop_last()).push(
                ListingModel { listing_id: id, cohort: "A"@ },
            ),
            _ => listings_of_items(items.drop_last()),
        }
    }
}

/// The entries for the identifiers under `listingIds` of an inventory criterion.
pub open spec fn listings_of_criterion(criterion: JsonModel) -> Seq<ListingModel> {
    match criterion.field("listingIds"@) {
        Some(JsonModel::Array(items)) => listings_of_items(items),
        _ => Seq::empty(),
    }
}

/// Whether the listings of a promotion come from its listing set.
pub open spec fn has_listing_set(promotion: PromotionModel) -> bool {
    promotion.promotionType == "MARKDOWN_SALE"@
}

/// The entries for the listings of a promotion, where `fetched` is its listing
/// set as far as the service gave one.
pub open spec fn listings_in(
    promotion: PromotionModel,
    fetched: Option<Seq<ListingDetail>>,
) -> Seq<ListingModel> {
    if has_listing_set(promotion) {
        match fetched {
            Some(listings) => listings_of_set(listings),
            None => Seq::empty(),
        }
    } else {
        match promotion.inventoryCriterion {
            Some(criterion) => listings_of_criterion(criterion),
            None => Seq::empty(),
        }
    }
}

/// Whether the listing set of a promotion has to be fetched.
pub fn needs_listing_set(promotion: &PromotionSummary) -> (r: bool)
    ensures
        r == has_listing_set(promotion@),
{
    same_text(promotion.promotionType.as_str(), "MARKDOWN_SALE")
}

fn entries_of_set(listings: &Vec<ListingDetail>) -> (r: Vec<ListingInfo>)
    ensures
        listings_model(r@) == listings_of_set(listings@),
{
    let mut entries: Vec<ListingInfo> = Vec::new();
    let mut i: usize = 0;
    while i < listings.len()
        invariant
            i <= listings@.len(),
            listings_model(entries@) == listings_of_set(listings@).take(i as int),
        decreases listings.len() - i,
    {
        let ghost before = entries@;
        let cohort: String = extract_cohort_tag(listings[i].title.as_str());
        entries.push(ListingInfo { listing_id: listings[i].listingId.clone(), cohort });
        proof {
            assert(listings_model(entries@) =~= listings_model(before).push(entries@.last()@));
            assert(listings_of_set(listings@).take(i + 1) =~= listings_of_set(listings@).take(
                i as int,
            ).push(listings_of_set(listings@)[i as int]));
        }
        i += 1;
    }
    proof {
        assert(listings_of_set(listings@).take(listings@.len() as int) =~= listings_of_set(
            listings@,
        ));
    }
    entries
}

fn entries_of_items(items: &Vec<Json>) -> (r: Vec<ListingInfo>)
    ensures
        listings_model(r@) == listings_of_items(crate::json::array_model(items@)),
{
    let ghost model = crate::json::array_model(items@);
    proof {
        lemma_array_model(items@);
    }
    let mut entries: Vec<ListingInfo> = Vec::new();
    let mut i: usize = 0;
    proof {
        assert(listings_model(entries@) =~= listings_of_items(model.take(0)));
    }
    while i < items.len()
        invariant
            i <= items@.len(),
            model.len() == items@.len(),
            forall|k: int| 0 <= k < items@.len() ==> #[trigger] model[k] == items@[k].model(),
            listings_model(entries@) == listings_of_items(model.take(i as int)),
        decreases items.len() - i,
    {
        let ghost before = entries@;
        proof {
            assert(model.take(i + 1).drop_last() =~= model.take(i as int));
            assert(model.take(i + 1).last() == items@[i as int].model());
        }
        if let Some(id) = items[i].as_text() {
            entries.push(ListingInfo { listing_id: id.to_owned(), cohort: "A".to_owned() });
            proof {
                assert(listings_model(entries@) =~= listings_model(before).push(entries@.last()@));
            }
        }
        i += 1;
    }
    proof {
        assert(model.take(items@.len() as int) =~= model);
    }
    entries
}

/// The entries for the listings of a promotion. `fetched` is its listing set
/// as far as the service gave one; it counts for a markdown sale only.
pub fn extract_listing_ids(promotion: &PromotionSummary, fetched: &Option<ListingSet>) -> (r: Vec<
    ListingInfo,
>)
    ensures
        listings_model(r@) == listings_in(
            promotion@,
            match *fetched {
                Some(set) => Some(set.listings@),
                None => None,
            },
        ),
{
    if needs_listing_set(promotion) {
        return match fetched {
            Some(set) => entries_of_set(&set.listings),
            None => Vec::new(),
        };
    }
    if let Some(criterion) = &promotion.inventoryCriterion {
        if let Some(Json::Array(items)) = criterion.get("listingIds") {
            return entries_of_items(items);
        }
    }
    Vec::new()
}

/// A listing entry says its identifier and its cohort, and a list of entries
/// what each of them says.
pub proof fn law_entry_says_what_it_holds(list: Seq<ListingInfo>, i: int)
    requires
        0 <= i < list.len(),
    ensures
        listings_model(list).len() == list.len(),
        listings_model(list)[i].listing_id == list[i].listing_id@,
        listings_model(list)[i].cohort == list[i].cohort@,
{
}

/// A title with `[A]` in it names cohort `A`, wherever it stands; one with
/// `[B]` names `B` unless `[A]` stands in it too, and one with `[C]` names `C`
/// unless one of the others does. A title with none of them counts as `A`.
pub proof fn law_title_names_the_cohort(before: Seq<char>, after: Seq<char>, title: Seq<char>)
    ensures
        cohort_of(before + "[A]"@ + after) == "A"@,
        !occurs_in(before + "[B]"@ + after, "[A]"@) ==> cohort_of(before + "[B]"@ + after)
            == "B"@,
        !occurs_in(before + "[C]"@ + after, "[A]"@) && !occurs_in(
            before + "[C]"@ + after,
            "[B]"@,
        ) ==> cohort_of(before + "[C]"@ + after) == "C"@,
        !occurs_in(title, "[A]"@) && !occurs_in(title, "[B]"@) && !occurs_in(title, "[C]"@)
            ==> cohort_of(title) == "A"@,
{
    law_found_text_stands_in_between(before + "[A]"@ + after, "[A]"@);
    law_found_text_stands_in_between(before + "[B]"@ + after, "[B]"@);
    law_found_text_stands_in_between(before + "[C]"@ + after, "[C]"@);
}

/// A markdown sale covers all listings of its listing set, in their order, each
/// in the cohort that its title names, and none where there is no listing set.
pub proof fn law_sale_covers_its_listing_set(
    promotion: PromotionModel,
    set: Seq<ListingDetail>,
    i: int,
)
    requires
        promotion.promotionType == "MARKDOWN_SALE"@,
        0 <= i < set.len(),
    ensures
        has_listing_set(promotion),
        listings_in(promotion, Some(set)).len() == set.len(),
        listings_in(promotion, Some(set))[i].listing_id == set[i].listingId@,
        listings_in(promotion, Some(set))[i].cohort == cohort_of(set[i].title@),
        listings_in(promotion, None).len() == 0,
{
}

/// A promotion of another type covers the listings that its criterion lists by
/// identifier, in their order and all in cohort `A`: one for each text under
/// `listingIds`, and none for anything else. What was fetched plays no part.
pub proof fn law_other_promotions_cover_the_listed_identifiers(
    promotion: PromotionModel,
    criterion: JsonModel,
    fetched: Option<Seq<ListingDetail>>,
    front: Seq<JsonModel>,
    item: JsonModel,
)
    requires
        promotion.promotionType != "MARKDOWN_SALE"@,
        promotion.inventoryCriterion == Some(criterion),
        criterion.field("listingIds"@) == Some(JsonModel::Array(front.push(item))),
    ensures
        !has_listing_set(promotion),
        ({
            let shorter = PromotionModel {
                inventoryCriterion: Some(
                    JsonModel::Object(
                        Map::empty().insert("listingIds"@, JsonModel::Array(front)),
                    ),
                ),
                ..promotion
            };
            listings_in(promotion, fetched) == (match item {
                JsonModel::Text(id) => listings_in(shorter, fetched).push(
                    ListingModel { listing_id: id, cohort: "A"@ },
                ),
                _ => listings_in(shorter, fetched),
            })
        }),
{
    assert(front.push(item).drop_last() =~= front);
}

/// A promotion of another type whose criterion lists no identifiers covers
/// no listings.
pub proof fn law_promotions_without_identifiers_cover_nothing(
    promotion: PromotionModel,
    fetched: Option<Seq<ListingDetail>>,
)
    requires
        promotion.promotionType != "MARKDOWN_SALE"@,
        promotion.inventoryCriterion matches Some(criterion) ==> (criterion.field(
            "listingIds"@,
        ) matches Some(JsonModel::Array(items)) ==> items.len() == 0),
    ensures
        listings_in(promotion, fetched).len() == 0,
{
}

} // verus!
