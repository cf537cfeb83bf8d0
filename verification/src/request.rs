//! The requests that carry out an action.
use crate::action::{ActionModel, FallbackType, PromotionAction};
use crate::api::{
    get_request, item_promotion_path, markdown_path, sending_request, ApiRequest, HttpMethod,
    MarketingApi, RequestModel,
};
use crate::config::marketplace_of;
use crate::json::{array_model, lemma_array_model, Json, JsonModel};
use crate::listing::{listings_model, ListingInfo, ListingModel};
use crate::text::{
    contains_text, first_chars, joined, law_found_text_stands_in_between, occurs_in, same_text,
    truncated,
};
use crate::time::{moment_in, rfc3339_seconds_text, utc_now, UtcTime};
use vstd::prelude::*;

verus! {

/// The most characters of a description.
pub const DESCRIPTION_LENGTH: usize = 36;

/// The seconds after which a promotion ends that is to end at once.
pub const ENDING_SECONDS: i64 = 300;

/// The description of a promotion that was made at a point in time.
pub open spec fn tag_text(now: UtcTime) -> Seq<char> {
    first_chars("Auto-generated, "@ + rfc3339_seconds_text(now.secs, now.nanos), 36)
}

/// The description of a promotion that is made at a point in time. In a year
/// of four digits nothing of it is cut off.
pub fn short_desc_tag_at(now: UtcTime) -> (r: String)
    requires
        now.valid(),
    ensures
        r@ == tag_text(now),
        r@.len() <= 36,
        now.has_four_digit_year() ==> r@ == "Auto-generated, "@ + rfc3339_seconds_text(
            now.secs,
            now.nanos,
        ),
{
    let stamp: String = now.to_rfc3339_seconds();
    proof {
        reveal_strlit("Auto-generated, ");
    }
    truncated(joined("Auto-generated, ", stamp.as_str()).as_str(), DESCRIPTION_LENGTH)
}

/// The description of a promotion that is made now.
pub fn short_desc_tag() -> (r: String)
    ensures
        exists|now: UtcTime| now.valid() && r@ == #[trigger] tag_text(now),
        r@.len() <= 36,
{
    let now: UtcTime = utc_now();
    short_desc_tag_at(now)
}

/// An object without entries.
pub open spec fn no_fields() -> JsonModel {
    JsonModel::Object(Map::empty())
}

/// The identifiers of listings, as an array of strings.
pub open spec fn ids_model(listings: Seq<ListingModel>) -> JsonModel {
    JsonModel::Array(
        Seq::new(listings.len(), |i: int| JsonModel::Text(listings[i].listing_id)),
    )
}

/// The criterion that picks listings by their identifiers.
pub open spec fn criterion_model(listings: Seq<ListingModel>) -> JsonModel {
    no_fields().with(
        "inventoryCriterionType"@,
        JsonModel::Text("INVENTORY_BY_VALUE"@),
    ).with("listingIds"@, ids_model(listings))
}

/// What all promotions that are started have in common.
pub open spec fn promotion_head(
    name: Seq<char>,
    description: Seq<char>,
    start: Seq<char>,
    end: Seq<char>,
    marketplace: Seq<char>,
    promotion_type: Seq<char>,
) -> JsonModel {
    no_fields().with("name"@, JsonModel::Text(name)).with(
        "description"@,
        JsonModel::Text(description),
    ).with("startDate"@, JsonModel::Text(start)).with("endDate"@, JsonModel::Text(end)).with(
        "marketplaceId"@,
        JsonModel::Text(marketplace),
    ).with("promotionType"@, JsonModel::Text(promotion_type)).with(
        "promotionStatus"@,
        JsonModel::Text("SCHEDULED"@),
    )
}

/// A markdown sale of twenty per cent, named and described at two points in
/// time.
pub open spec fn markdown_body(
    listings: Seq<ListingModel>,
    start: Seq<char>,
    end: Seq<char>,
    marketplace: Seq<char>,
    named: UtcTime,
    described: UtcTime,
) -> JsonModel {
    promotion_head(
        "Markdown Sale - "@ + rfc3339_seconds_text(named.secs, named.nanos),
        tag_text(described),
        start,
        end,
        marketplace,
        "MARKDOWN_SALE"@,
    ).with(
        "selectedInventoryDiscounts"@,
        JsonModel::Array(
            seq![
                no_fields().with(
                    "discountBenefit"@,
                    no_fields().with("percentageOffItem"@, JsonModel::Text("20"@)),
                ).with("inventoryCriterion"@, criterion_model(listings)),
            ],
        ),
    )
}

/// The type of promotion that a kind of fallback is.
pub open spec fn fallback_type_text(kind: FallbackType) -> Seq<char> {
    match kind {
        FallbackType::Order => "ORDER_DISCOUNT"@,
        FallbackType::Coupon => "CODED_COUPON"@,
    }
}

/// Ten per cent off orders of fifty dollars and more.
pub open spec fn fallback_rule() -> JsonModel {
    no_fields().with(
        "discountBenefit"@,
        no_fields().with("percentageOffOrder"@, JsonModel::Text("10"@)),
    ).with(
        "discountSpecification"@,
        no_fields().with(
            "minAmount"@,
            no_fields().with("value"@, JsonModel::Text("50"@)).with(
                "currency"@,
                JsonModel::Text("USD"@),
            ),
        ),
    )
}

/// A fallback promotion, named and described at two points in time.
pub open spec fn fallback_body(
    kind: FallbackType,
    listings: Seq<ListingModel>,
    start: Seq<char>,
    end: Seq<char>,
    marketplace: Seq<char>,
    named: UtcTime,
    described: UtcTime,
) -> JsonModel {
    promotion_head(
        "Fallback Promotion - "@ + rfc3339_seconds_text(named.secs, named.nanos),
        tag_text(described),
        start,
        end,
        marketplace,
        fallback_type_text(kind),
    ).with("discountRules"@, JsonModel::Array(seq![fallback_rule()])).with(
        "inventoryCriterion"@,
        criterion_model(listings),
    )
}

fn ids_json(listings: &Vec<ListingInfo>) -> (r: Json)
    ensures
        r@ == ids_model(listings_model(listings@)),
{
    let mut items: Vec<Json> = Vec::new();
    let mut i: usize = 0;
    while i < listings.len()
        invariant
            i <= listings@.len(),
            items@.len() == i,
            forall|k: int|
                0 <= k < i ==> (#[trigger] items@[k]).model() == JsonModel::Text(
                    listings@[k].listing_id@,
                ),
        decreases listings.len() - i,
    {
        items.push(Json::text(listings[i].listing_id.as_str()));
        i += 1;
    }
    proof {
        lemma_array_model(items@);
        let expected = Seq::new(
            listings@.len(),
            |k: int| JsonModel::Text(listings_model(listings@)[k].listing_id),
        );
        assert forall|k: int| 0 <= k < expected.len() implies array_model(items@)[k]
            == expected[k] by {
            assert(items@[k].model() == JsonModel::Text(listings@[k].listing_id@));
        }
        assert(array_model(items@) =~= expected);
    }
    Json::Array(items)
}

fn criterion_json(listings: &Vec<ListingInfo>) -> (r: Json)
    ensures
        r@ == criterion_model(listings_model(listings@)),
{
    Json::object().with("inventoryCriterionType", Json::text("INVENTORY_BY_VALUE")).with(
        "listingIds",
        ids_json(listings),
    )
}

fn head_json(
    name: &str,
    description: &str,
    start: &str,
    end: &str,
    marketplace: &str,
    promotion_type: &str,
) -> (r: Json)
    ensures
        r@ == promotion_head(
            name@,
            description@,
            start@,
            end@,
            marketplace@,
            promotion_type@,
        ),
{
    Json::object().with("name", Json::text(name)).with("description", Json::text(description)).with(
        "startDate",
        Json::text(start),
    ).with("endDate", Json::text(end)).with("marketplaceId", Json::text(marketplace)).with(
        "promotionType",
        Json::text(promotion_type),
    ).with("promotionStatus", Json::text("SCHEDULED"))
}

/// The body that starts a markdown sale.
pub fn start_markdown_body(
    listings: &Vec<ListingInfo>,
    start: &str,
    end: &str,
    marketplace: &str,
    named: UtcTime,
    described: UtcTime,
) -> (r: Json)
    requires
        named.valid(),
        described.valid(),
    ensures
        r@ == markdown_body(
            listings_model(listings@),
            start@,
            end@,
            marketplace@,
            named,
            described,
        ),
{
    let name: String = joined("Markdown Sale - ", named.to_rfc3339_seconds().as_str());
    let description: String = short_desc_tag_at(described);
    let benefit: Json = Json::object().with("percentageOffItem", Json::text("20"));
    let discount: Json = Json::object().with("discountBenefit", benefit).with(
        "inventoryCriterion",
        criterion_json(listings),
    );
    head_json(
        name.as_str(),
        description.as_str(),
        start,
        end,
        marketplace,
        "MARKDOWN_SALE",
    ).with("selectedInventoryDiscounts", Json::list_of(discount))
}

/// The body that starts a fallback promotion.
pub fn start_fallback_body(
    kind: FallbackType,
    listings: &Vec<ListingInfo>,
    start: &str,
    end: &str,
    marketplace: &str,
    named: UtcTime,
    described: UtcTime,
) -> (r: Json)
    requires
        named.valid(),
        described.valid(),
    ensures
        r@ == fallback_body(
            kind,
            listings_model(listings@),
            start@,
            end@,
            marketplace@,
            named,
            described,
        ),
{
    let name: String = joined("Fallback Promotion - ", named.to_rfc3339_seconds().as_str());
    let description: String = short_desc_tag_at(described);
    let promotion_type: &str = match kind {
        FallbackType::Order => "ORDER_DISCOUNT",
        FallbackType::Coupon => "CODED_COUPON",
    };
    let benefit: Json = Json::object().with("percentageOffOrder", Json::text("10"));
    let amount: Json = Json::object().with("value", Json::text("50")).with(
        "currency",
        Json::text("USD"),
    );
    let rule: Json = Json::object().with("discountBenefit", benefit).with(
        "discountSpecification",
        Json::object().with("minAmount", amount),
    );
    head_json(
        name.as_str(),
        description.as_str(),
        start,
        end,
        marketplace,
        promotion_type,
    ).with("discountRules", Json::list_of(rule)).with(
        "inventoryCriterion",
        criterion_json(listings),
    )
}

/// The path under which a promotion is looked up before it is changed.
/// Identifiers with an `@` belong to item promotions.
pub open spec fn lookup_path(id: Seq<char>) -> Seq<char> {
    if occurs_in(id, "@"@) {
        item_promotion_path(id)
    } else {
        "/item_price_markdown_promotion/"@ + id
    }
}

/// Whether a promotion says nothing in its description.
pub open spec fn lacks_description(promotion: JsonModel) -> bool {
    match promotion.field("description"@) {
        None => true,
        Some(value) => value is Null,
    }
}

/// A promotion with another end date: scheduled, and described by `tag` where
/// it has no description.
pub open spec fn with_new_end(promotion: JsonModel, end: Seq<char>, tag: Seq<char>) -> JsonModel {
    let moved = promotion.with("endDate"@, JsonModel::Text(end)).with(
        "promotionStatus"@,
        JsonModel::Text("SCHEDULED"@),
    );
    if lacks_description(moved) {
        moved.with("description"@, JsonModel::Text(tag))
    } else {
        moved
    }
}

/// Whether a promotion says of itself that it is a markdown sale.
pub open spec fn is_markdown_sale(promotion: JsonModel) -> bool {
    promotion.field("promotionType"@) == Some(JsonModel::Text("MARKDOWN_SALE"@))
}

/// The request that replaces a promotion.
pub open spec fn replacing_request(id: Seq<char>, promotion: JsonModel) -> RequestModel {
    sending_request(
        HttpMethod::Put,
        if is_markdown_sale(promotion) {
            markdown_path(id)
        } else {
            item_promotion_path(id)
        },
        promotion,
    )
}

/// The request that looks up a promotion before it is changed.
pub fn lookup_request(id: &str) -> (r: ApiRequest)
    ensures
        r@ == get_request(lookup_path(id@)),
{
    let path: String = if contains_text(id, "@") {
        joined("/item_promotion/", id)
    } else {
        joined("/item_price_markdown_promotion/", id)
    };
    ApiRequest { method: HttpMethod::Get, path, body: None }
}

/// A promotion with another end date, described by `tag` where it has no
/// description.
pub fn updated_promotion(detail: Json, new_end_date: &str, tag: &str) -> (r: Json)
    requires
        detail@.takes_fields(),
    ensures
        r@ == with_new_end(detail@, new_end_date@, tag@),
        r@ is Object,
{
    let moved: Json = detail.with("endDate", Json::text(new_end_date)).with(
        "promotionStatus",
        Json::text("SCHEDULED"),
    );
    let described: bool = match moved.get("description") {
        None => false,
        Some(Json::Null) => false,
        Some(_) => true,
    };
    if described {
        moved
    } else {
        moved.with("description", Json::text(tag))
    }
}

/// The request that moves the end of a promotion, given what the lookup found
/// and a description for a promotion without one.
pub fn update_request_with(
    api: &MarketingApi,
    promotion_id: &str,
    detail: Json,
    new_end_date: &str,
    tag: &str,
) -> (r: ApiRequest)
    requires
        detail@.takes_fields(),
    ensures
        r@ == replacing_request(
            promotion_id@,
            with_new_end(detail@, new_end_date@, tag@),
        ),
{
    let body: Json = updated_promotion(detail, new_end_date, tag);
    let is_markdown: bool = match body.get("promotionType") {
        Some(value) => match value.as_text() {
            Some(promotion_type) => same_text(promotion_type, "MARKDOWN_SALE"),
            None => false,
        },
        None => false,
    };
    if is_markdown {
        api.update_markdown_promotion(promotion_id, body)
    } else {
        api.update_item_promotion(promotion_id, body)
    }
}

/// The request that moves the end of a promotion, given what the lookup found.
/// A promotion without a description gets one that names the current time.
pub fn update_request(
    api: &MarketingApi,
    promotion_id: &str,
    detail: Json,
    new_end_date: &str,
) -> (r: ApiRequest)
    requires
        detail@.takes_fields(),
    ensures
        exists|now: UtcTime|
            now.valid() && r@ == replacing_request(
                promotion_id@,
                with_new_end(detail@, new_end_date@, #[trigger] tag_text(now)),
            ),
{
    let tag: String = short_desc_tag();
    update_request_with(api, promotion_id, detail, new_end_date, tag.as_str())
}

/// How an action begins.
#[derive(Debug, PartialEq, Eq)]
pub enum ActionStep {
    /// There is nothing to do.
    Nothing,
    /// Send a request, and move the end of the promotion that it returns: the
    /// request, the identifier of the promotion, and the new end date.
    Change(ApiRequest, String, String),
    /// Send a request.
    Start(ApiRequest),
}

/// What the beginning of an action says.
#[verifier::ext_equal]
pub enum StepModel {
    Nothing,
    Change(RequestModel, Seq<char>, Seq<char>),
    Start(RequestModel),
}

impl View for ActionStep {
    type V = StepModel;

    open spec fn view(&self) -> StepModel {
        match self {
            ActionStep::Nothing => StepModel::Nothing,
            ActionStep::Change(request, id, end) => StepModel::Change(request@, id@, end@),
            ActionStep::Start(request) => StepModel::Start(request@),
        }
    }
}

/// How an action begins, where `first` and `second` are the times on the clock
/// when it is read. A promotion that is to end does so five minutes later.
pub open spec fn first_step_of(
    action: ActionModel,
    marketplace: Seq<char>,
    first: UtcTime,
    second: UtcTime,
) -> StepModel {
    match action {
        ActionModel::RemoveListing(_, _) => StepModel::Nothing,
        ActionModel::UpdateEnd(id, end) => StepModel::Change(
            get_request(lookup_path(id)),
            id,
            end,
        ),
        ActionModel::End(id) => StepModel::Change(
            get_request(lookup_path(id)),
            id,
            first.after(ENDING_SECONDS as int).text(),
        ),
        ActionModel::StartMarkdown(listings, start, end) => StepModel::Start(
            sending_request(
                HttpMethod::Post,
                "/item_price_markdown"@,
                markdown_body(listings, start, end, marketplace, first, second),
            ),
        ),
        ActionModel::StartFallback(kind, listings, start, end) => StepModel::Start(
            sending_request(
                HttpMethod::Post,
                "/item_promotion"@,
                fallback_body(kind, listings, start, end, marketplace, first, second),
            ),
        ),
    }
}

/// Whether the end date that an action begins with reads back as a point in
/// time. Dates after the year 9999 have no RFC 3339 form to read.
pub open spec fn ends_at(step: StepModel, t: UtcTime) -> bool {
    step matches StepModel::Change(_, _, end) && (t.has_four_digit_year() ==> moment_in(end)
        == Some(t))
}

/// How an action begins, given the times on the clock when it is read.
pub fn first_step_at(
    api: &MarketingApi,
    action: &PromotionAction,
    first: UtcTime,
    second: UtcTime,
) -> (r: ActionStep)
    requires
        first.valid(),
        second.valid(),
        action@ is End ==> first.reaches(ENDING_SECONDS as int),
    ensures
        r@ == first_step_of(action@, marketplace_of(api.cfg.env), first, second),
        action@ is End ==> ends_at(r@, first.after(ENDING_SECONDS as int)),
{
    match action {
        PromotionAction::RemoveListing(_, _) => ActionStep::Nothing,
        PromotionAction::UpdateEnd(id, end) => ActionStep::Change(
            lookup_request(id.as_str()),
            id.clone(),
            end.clone(),
        ),
        PromotionAction::End(id) => {
            let end: UtcTime = first.moved(ENDING_SECONDS);
            ActionStep::Change(lookup_request(id.as_str()), id.clone(), end.to_rfc3339())
        },
        PromotionAction::StartMarkdown(listings, start, end) => {
            let body: Json = start_markdown_body(
                listings,
                start.as_str(),
                end.as_str(),
                api.cfg.marketplace_id(),
                first,
                second,
            );
            ActionStep::Start(api.create_markdown_promotion(body))
        },
        PromotionAction::StartFallback(kind, listings, start, end) => {
            let body: Json = start_fallback_body(
                *kind,
                listings,
                start.as_str(),
                end.as_str(),
                api.cfg.marketplace_id(),
                first,
                second,
            );
            ActionStep::Start(api.create_item_promotion(body))
        },
    }
}

/// How an action begins, given the times on the clock when it is read, or
/// `None` where a promotion is to end and the calendar has no five minutes
/// left.
pub fn first_step_from(
    api: &MarketingApi,
    action: &PromotionAction,
    first: UtcTime,
    second: UtcTime,
) -> (r: Option<ActionStep>)
    requires
        first.valid(),
        second.valid(),
    ensures
        r is None == (action@ is End && !first.reaches(ENDING_SECONDS as int)),
        r matches Some(step) ==> step@ == first_step_of(
            action@,
            marketplace_of(api.cfg.env),
            first,
            second,
        ) && (action@ is End ==> ends_at(step@, first.after(ENDING_SECONDS as int))),
{
    let ends: bool = match action {
        PromotionAction::End(_) => true,
        _ => false,
    };
    if ends && !first.can_move(ENDING_SECONDS) {
        return None;
    }
    Some(first_step_at(api, action, first, second))
}

/// Whether an answer says how an action begins at some times on the clock.
pub open spec fn begins_at(
    answer: Option<StepModel>,
    action: ActionModel,
    marketplace: Seq<char>,
    first: UtcTime,
    second: UtcTime,
) -> bool {
    &&& answer is None == (action is End && !first.reaches(ENDING_SECONDS as int))
    &&& answer matches Some(step) ==> step == first_step_of(action, marketplace, first, second)
        && (action is End ==> ends_at(step, first.after(ENDING_SECONDS as int)))
}

/// How an action begins now, or `None` where a promotion is to end and the
/// calendar has no five minutes left.
pub fn first_step(api: &MarketingApi, action: &PromotionAction) -> (r: Option<ActionStep>)
    ensures
        exists|first: UtcTime, second: UtcTime|
            first.valid() && first.secs >= 0 && second.valid() && second.secs >= 0
                && #[trigger] begins_at(
                step_answer(r),
                action@,
                marketplace_of(api.cfg.env),
                first,
                second,
            ),
{
    let first: UtcTime = utc_now();
    let second: UtcTime = utc_now();
    let r: Option<ActionStep> = first_step_from(api, action, first, second);
    proof {
        assert(begins_at(step_answer(r), action@, marketplace_of(api.cfg.env), first, second));
    }
    r
}

/// What an answer says of the beginning of an action.
pub open spec fn step_answer(answer: Option<ActionStep>) -> Option<StepModel> {
    match answer {
        Some(step) => Some(step@),
        None => None,
    }
}

/// Moving the end of a promotion keeps all that the service reported of it but
/// the end date and the status: every other field stays as it is, and a
/// description is only added where there is none.
pub proof fn law_update_keeps_other_fields(
    promotion: JsonModel,
    end: Seq<char>,
    tag: Seq<char>,
    key: Seq<char>,
)
    requires
        promotion.takes_fields(),
        key != "endDate"@,
        key != "promotionStatus"@,
        key == "description"@ ==> !lacks_description(promotion),
    ensures
        with_new_end(promotion, end, tag).field(key) == promotion.field(key),
{
    lemma_update_keys();
}

/// Moving the end of a promotion sets the end date, schedules the promotion,
/// and leaves it with a description.
pub proof fn law_update_sets_end(promotion: JsonModel, end: Seq<char>, tag: Seq<char>)
    requires
        promotion.takes_fields(),
    ensures
        with_new_end(promotion, end, tag).field("endDate"@) == Some(JsonModel::Text(end)),
        with_new_end(promotion, end, tag).field("promotionStatus"@) == Some(
            JsonModel::Text("SCHEDULED"@),
        ),
        !lacks_description(with_new_end(promotion, end, tag)),
{
    lemma_update_keys();
}

proof fn lemma_update_keys()
    ensures
        "endDate"@ != "promotionStatus"@,
        "endDate"@ != "description"@,
        "promotionStatus"@ != "description"@,
{
    reveal_strlit("endDate");
    reveal_strlit("promotionStatus");
    reveal_strlit("description");
    assert("endDate"@.len() == 7);
    assert("promotionStatus"@.len() == 15);
    assert("description"@.len() == 11);
}

/// The description names the time behind the words "Auto-generated", and is cut
/// off behind 36 characters.
pub proof fn law_description_names_the_time(now: UtcTime)
    ensures
        ({
            let whole = "Auto-generated, "@ + rfc3339_seconds_text(now.secs, now.nanos);
            &&& whole.len() <= 36 ==> tag_text(now) == whole
            &&& whole.len() > 36 ==> tag_text(now).len() == 36 && tag_text(now) == whole.take(36)
        }),
{
}

/// The keys of what is sent can be told apart.
proof fn lemma_keys_differ()
    ensures
        "name"@.len() == 4 && "name"@[0] == 'n',
        "description"@.len() == 11 && "description"@[0] == 'd',
        "startDate"@.len() == 9 && "startDate"@[0] == 's',
        "endDate"@.len() == 7 && "endDate"@[0] == 'e',
        "marketplaceId"@.len() == 13 && "marketplaceId"@[0] == 'm',
        "promotionType"@.len() == 13 && "promotionType"@[0] == 'p',
        "promotionStatus"@.len() == 15 && "promotionStatus"@[0] == 'p',
        "selectedInventoryDiscounts"@.len() == 26 && "selectedInventoryDiscounts"@[0] == 's',
        "discountRules"@.len() == 13 && "discountRules"@[0] == 'd',
        "inventoryCriterion"@.len() == 18 && "inventoryCriterion"@[0] == 'i',
        "discountBenefit"@.len() == 15 && "discountBenefit"@[0] == 'd',
        "discountSpecification"@.len() == 21 && "discountSpecification"@[0] == 'd',
        "inventoryCriterionType"@.len() == 22 && "inventoryCriterionType"@[0] == 'i',
        "listingIds"@.len() == 10 && "listingIds"@[0] == 'l',
        "value"@.len() == 5 && "value"@[0] == 'v',
        "currency"@.len() == 8 && "currency"@[0] == 'c',
{
    reveal_strlit("name");
    reveal_strlit("description");
    reveal_strlit("startDate");
    reveal_strlit("endDate");
    reveal_strlit("marketplaceId");
    reveal_strlit("promotionType");
    reveal_strlit("promotionStatus");
    reveal_strlit("selectedInventoryDiscounts");
    reveal_strlit("discountRules");
    reveal_strlit("inventoryCriterion");
    reveal_strlit("discountBenefit");
    reveal_strlit("discountSpecification");
    reveal_strlit("inventoryCriterionType");
    reveal_strlit("listingIds");
    reveal_strlit("value");
    reveal_strlit("currency");
}

/// A markdown sale is sent with its name, description, dates, marketplace and
/// type as given, scheduled, at twenty per cent off, and for exactly the
/// listings given, in their order.
pub proof fn law_sale_is_sent_as_planned(
    listings: Seq<ListingModel>,
    start: Seq<char>,
    end: Seq<char>,
    marketplace: Seq<char>,
    named: UtcTime,
    described: UtcTime,
    ids: Seq<JsonModel>,
)
    requires
        ids.len() == listings.len(),
        forall|i: int|
            0 <= i < ids.len() ==> #[trigger] ids[i] == JsonModel::Text(listings[i].listing_id),
    ensures
        ({
            let body = markdown_body(listings, start, end, marketplace, named, described);
            let discount = JsonModel::Object(
                Map::empty().insert(
                    "discountBenefit"@,
                    JsonModel::Object(
                        Map::empty().insert("percentageOffItem"@, JsonModel::Text("20"@)),
                    ),
                ).insert(
                    "inventoryCriterion"@,
                    JsonModel::Object(
                        Map::empty().insert(
                            "inventoryCriterionType"@,
                            JsonModel::Text("INVENTORY_BY_VALUE"@),
                        ).insert("listingIds"@, JsonModel::Array(ids)),
                    ),
                ),
            );
            &&& body.field("name"@) == Some(
                JsonModel::Text(
                    "Markdown Sale - "@ + rfc3339_seconds_text(named.secs, named.nanos),
                ),
            )
            &&& body.field("description"@) == Some(JsonModel::Text(tag_text(described)))
            &&& body.field("startDate"@) == Some(JsonModel::Text(start))
            &&& body.field("endDate"@) == Some(JsonModel::Text(end))
            &&& body.field("marketplaceId"@) == Some(JsonModel::Text(marketplace))
            &&& body.field("promotionType"@) == Some(JsonModel::Text("MARKDOWN_SALE"@))
            &&& body.field("promotionStatus"@) == Some(JsonModel::Text("SCHEDULED"@))
            &&& body.field("selectedInventoryDiscounts"@) == Some(
                JsonModel::Array(seq![discount]),
            )
        }),
{
    lemma_keys_differ();
    assert(ids_model(listings) == JsonModel::Array(ids)) by {
        assert(Seq::new(listings.len(), |i: int| JsonModel::Text(listings[i].listing_id)) =~= ids);
    }
}

/// A fallback promotion is sent with its name, description, dates, marketplace
/// and type as given, scheduled, at ten per cent off orders of fifty dollars,
/// and for exactly the listings given, in their order.
pub proof fn law_fallback_is_sent_as_planned(
    kind: FallbackType,
    listings: Seq<ListingModel>,
    start: Seq<char>,
    end: Seq<char>,
    marketplace: Seq<char>,
    named: UtcTime,
    described: UtcTime,
    ids: Seq<JsonModel>,
)
    requires
        ids.len() == listings.len(),
        forall|i: int|
            0 <= i < ids.len() ==> #[trigger] ids[i] == JsonModel::Text(listings[i].listing_id),
    ensures
        ({
            let body = fallback_body(kind, listings, start, end, marketplace, named, described);
            let amount = JsonModel::Object(
                Map::empty().insert("value"@, JsonModel::Text("50"@)).insert(
                    "currency"@,
                    JsonModel::Text("USD"@),
                ),
            );
            let rule = JsonModel::Object(
                Map::empty().insert(
                    "discountBenefit"@,
                    JsonModel::Object(
                        Map::empty().insert("percentageOffOrder"@, JsonModel::Text("10"@)),
                    ),
                ).insert(
                    "discountSpecification"@,
                    JsonModel::Object(Map::empty().insert("minAmount"@, amount)),
                ),
            );
            &&& body.field("name"@) == Some(
                JsonModel::Text(
                    "Fallback Promotion - "@ + rfc3339_seconds_text(named.secs, named.nanos),
                ),
            )
            &&& body.field("description"@) == Some(JsonModel::Text(tag_text(described)))
            &&& body.field("startDate"@) == Some(JsonModel::Text(start))
            &&& body.field("endDate"@) == Some(JsonModel::Text(end))
            &&& body.field("marketplaceId"@) == Some(JsonModel::Text(marketplace))
            &&& kind is Order ==> body.field("promotionType"@) == Some(
                JsonModel::Text("ORDER_DISCOUNT"@),
            )
            &&& kind is Coupon ==> body.field("promotionType"@) == Some(
                JsonModel::Text("CODED_COUPON"@),
            )
            &&& body.field("promotionStatus"@) == Some(JsonModel::Text("SCHEDULED"@))
            &&& body.field("discountRules"@) == Some(JsonModel::Array(seq![rule]))
            &&& body.field("inventoryCriterion"@) == Some(
                JsonModel::Object(
                    Map::empty().insert(
                        "inventoryCriterionType"@,
                        JsonModel::Text("INVENTORY_BY_VALUE"@),
                    ).insert("listingIds"@, JsonModel::Array(ids)),
                ),
            )
        }),
{
    lemma_keys_differ();
    assert(ids_model(listings) == JsonModel::Array(ids)) by {
        assert(Seq::new(listings.len(), |i: int| JsonModel::Text(listings[i].listing_id)) =~= ids);
    }
}

/// A promotion that starts is sent with its name, description, dates,
/// marketplace, type, status, discounts and listings, and with nothing else.
pub proof fn law_nothing_else_is_sent(
    kind: FallbackType,
    listings: Seq<ListingModel>,
    start: Seq<char>,
    end: Seq<char>,
    marketplace: Seq<char>,
    named: UtcTime,
    described: UtcTime,
    key: Seq<char>,
)
    requires
        key != "name"@,
        key != "description"@,
        key != "startDate"@,
        key != "endDate"@,
        key != "marketplaceId"@,
        key != "promotionType"@,
        key != "promotionStatus"@,
    ensures
        key != "selectedInventoryDiscounts"@ ==> markdown_body(
            listings,
            start,
            end,
            marketplace,
            named,
            described,
        ).field(key) is None,
        key != "discountRules"@ && key != "inventoryCriterion"@ ==> fallback_body(
            kind,
            listings,
            start,
            end,
            marketplace,
            named,
            described,
        ).field(key) is None,
{
}

/// A promotion is looked up among the item promotions where its identifier has
/// an `@` anywhere, and among the markdown sales where it has none.
pub proof fn law_identifier_decides_where_to_look(
    before: Seq<char>,
    after: Seq<char>,
    id: Seq<char>,
)
    ensures
        lookup_path(before + "@"@ + after) == "/item_promotion/"@ + (before + "@"@ + after),
        !occurs_in(id, "@"@) ==> lookup_path(id) == "/item_price_markdown_promotion/"@ + id,
{
    law_found_text_stands_in_between(before + "@"@ + after, "@"@);
}

/// A promotion goes back to the endpoint of its type: one whose type is the text
/// `MARKDOWN_SALE` to the markdown sales, and every other one, with another
/// type, with none, or with one that is no text, to the item promotions. It is
/// sent as a whole.
pub proof fn law_type_decides_where_to_send(
    id: Seq<char>,
    promotion: JsonModel,
    end: Seq<char>,
    tag: Seq<char>,
)
    requires
        promotion is Null || promotion is Object,
    ensures
        ({
            let request = replacing_request(id, with_new_end(promotion, end, tag));
            &&& request.method is Put
            &&& request.body == Some(with_new_end(promotion, end, tag))
            &&& promotion.field("promotionType"@) == Some(JsonModel::Text("MARKDOWN_SALE"@))
                ==> request.path == "/item_price_markdown/"@ + id
            &&& promotion.field("promotionType"@) != Some(JsonModel::Text("MARKDOWN_SALE"@))
                ==> request.path == "/item_promotion/"@ + id
        }),
{
    lemma_keys_differ();
}

/// What is sent of a changed promotion: the new end, the status `SCHEDULED`, its
/// description, or the tag where it has none or a null one, and every other
/// field as it was found.
pub proof fn law_change_touches_three_fields(
    promotion: JsonModel,
    end: Seq<char>,
    tag: Seq<char>,
    key: Seq<char>,
)
    requires
        promotion is Null || promotion is Object,
    ensures
        ({
            let changed = with_new_end(promotion, end, tag);
            &&& changed is Object
            &&& changed.field("endDate"@) == Some(JsonModel::Text(end))
            &&& changed.field("promotionStatus"@) == Some(JsonModel::Text("SCHEDULED"@))
            &&& promotion.field("description"@) is None ==> changed.field("description"@) == Some(
                JsonModel::Text(tag),
            )
            &&& promotion.field("description"@) == Some(JsonModel::Null) ==> changed.field(
                "description"@,
            ) == Some(JsonModel::Text(tag))
            &&& promotion.field("description"@) is Some && promotion.field("description"@) != Some(
                JsonModel::Null,
            ) ==> changed.field("description"@) == promotion.field("description"@)
            &&& key != "endDate"@ && key != "promotionStatus"@ && key != "description"@
                ==> changed.field(key) == promotion.field(key)
        }),
{
    lemma_keys_differ();
}

/// How each kind of action begins. A moved end is looked up and then set to the
/// date given; an end is set to five minutes after the time on the clock; what
/// starts is sent at once; and nothing is sent to take a listing out.
pub proof fn law_actions_begin_as_they_should(
    id: Seq<char>,
    text: Seq<char>,
    kind: FallbackType,
    listings: Seq<ListingModel>,
    end: Seq<char>,
    marketplace: Seq<char>,
    first: UtcTime,
    second: UtcTime,
)
    ensures
        first_step_of(ActionModel::RemoveListing(id, text), marketplace, first, second) is Nothing,
        first_step_of(ActionModel::UpdateEnd(id, end), marketplace, first, second) matches
            StepModel::Change(request, changed, date) && request.method is Get && request.path
            == lookup_path(id) && request.body is None && changed == id && date == end,
        first_step_of(ActionModel::End(id), marketplace, first, second) matches StepModel::Change(
            request,
            changed,
            date,
        ) && request.method is Get && request.path == lookup_path(id) && request.body is None
            && changed == id && date == first.after(300).text(),
        first_step_of(
            ActionModel::StartMarkdown(listings, text, end),
            marketplace,
            first,
            second,
        ) matches StepModel::Start(request) && request.method is Post && request.path
            == "/item_price_markdown"@ && request.body == Some(
            markdown_body(listings, text, end, marketplace, first, second),
        ),
        first_step_of(
            ActionModel::StartFallback(kind, listings, text, end),
            marketplace,
            first,
            second,
        ) matches StepModel::Start(request) && request.method is Post && request.path
            == "/item_promotion"@ && request.body == Some(
            fallback_body(kind, listings, text, end, marketplace, first, second),
        ),
{
}

/// Every action has a beginning, but an end for which the calendar has no five
/// minutes left; the end that it sets reads back as that point in time.
pub proof fn law_every_action_begins(
    answer: Option<StepModel>,
    action: ActionModel,
    marketplace: Seq<char>,
    first: UtcTime,
    second: UtcTime,
)
    requires
        begins_at(answer, action, marketplace, first, second),
    ensures
        !(action is End) || first.reaches(300) ==> answer == Some(
            first_step_of(action, marketplace, first, second),
        ),
        action is End && !first.reaches(300) ==> answer is None,
        action is End && first.reaches(300) && -62_167_219_200 <= first.after(300).secs
            <= 253_402_300_799 ==> moment_in(first.after(300).text()) == Some(first.after(300)),
{
}

/// A beginning says what it holds.
pub proof fn law_beginning_says_what_it_holds(request: ApiRequest, id: String, end: String)
    ensures
        ActionStep::Nothing@ is Nothing,
        ActionStep::Change(request, id, end)@ == StepModel::Change(request@, id@, end@),
        ActionStep::Start(request)@ == StepModel::Start(request@),
        step_answer(Some(ActionStep::Start(request))) == Some(ActionStep::Start(request)@),
        step_answer(None) is None,
{
}

} // verus!
