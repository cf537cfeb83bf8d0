//! What can be done to a promotion.
use crate::listing::{listings_model, ListingInfo, ListingModel};
use vstd::prelude::*;

verus! {

/// The kind of promotion that stands in for a markdown sale that has ended.
#[derive(Clone, Copy, Debug, PartialEq, Eq, Hash, Structural)]
pub enum FallbackType {
    Order,
    Coupon,
}

/// A change to the promotions of the account.
#[derive(Debug, PartialEq, Eq, Hash)]
pub enum PromotionAction {
    /// Move the end of a promotion: its identifier, and the new end date.
    UpdateEnd(String, String),
    /// End a promotion, given by its identifier.
    End(String),
    /// Start a markdown sale: its listings, start date and end date.
    StartMarkdown(Vec<ListingInfo>, String, String),
    /// Start a fallback promotion: its kind, listings, start date and end date.
    StartFallback(FallbackType, Vec<ListingInfo>, String, String),
    /// Take a listing out of a promotion: the identifiers of both.
    RemoveListing(String, String),
}

/// What an action says.
#[verifier::ext_equal]
pub enum ActionModel {
    UpdateEnd(Seq<char>, Seq<char>),
    End(Seq<char>),
    StartMarkdown(Seq<ListingModel>, Seq<char>, Seq<char>),
    StartFallback(FallbackType, Seq<ListingModel>, Seq<char>, Seq<char>),
    RemoveListing(Seq<char>, Seq<char>),
}

impl View for PromotionAction {
    type V = ActionModel;

    open spec fn view(&self) -> ActionModel {
        match self {
            PromotionAction::UpdateEnd(id, end) => ActionModel::UpdateEnd(id@, end@),
            PromotionAction::End(id) => ActionModel::End(id@),
            PromotionAction::StartMarkdown(listings, start, end) => ActionModel::StartMarkdown(
                listings_model(listings@),
                start@,
                end@,
            ),
            PromotionAction::StartFallback(kind, listings, start, end) =>
                ActionModel::StartFallback(*kind, listings_model(listings@), start@, end@),
            PromotionAction::RemoveListing(id, listing) => ActionModel::RemoveListing(
                id@,
                listing@,
            ),
        }
    }
}

/// What the actions of a list say.
pub open spec fn actions_model(list: Seq<PromotionAction>) -> Seq<ActionModel> {
    Seq::new(list.len(), |i: int| list[i]@)
}

/// An action says what it holds, under its own kind.
pub proof fn law_action_says_what_it_holds(
    kind: FallbackType,
    listings: Vec<ListingInfo>,
    first: String,
    second: String,
)
    ensures
        PromotionAction::UpdateEnd(first, second)@ == ActionModel::UpdateEnd(first@, second@),
        PromotionAction::End(first)@ == ActionModel::End(first@),
        PromotionAction::StartMarkdown(listings, first, second)@ == ActionModel::StartMarkdown(
            listings_model(listings@),
            first@,
            second@,
        ),
        PromotionAction::StartFallback(kind, listings, first, second)@
            == ActionModel::StartFallback(kind, listings_model(listings@), first@, second@),
        PromotionAction::RemoveListing(first, second)@ == ActionModel::RemoveListing(
            first@,
            second@,
        ),
{
}

/// A list of actions says what each of them says, at its place.
pub proof fn law_list_says_what_its_actions_say(list: Seq<PromotionAction>, i: int)
    requires
        0 <= i < list.len(),
    ensures
        actions_model(list).len() == list.len(),
        actions_model(list)[i] == list[i]@,
{
}

} // verus!
