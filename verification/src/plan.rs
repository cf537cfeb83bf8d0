//! Which actions keep discounts running: markdown sales are planned for at most
//! 45 days, a fallback promotion planned for 14 stands in for one that has
//! ended and gives way to the next, and volume discounts never end.
use crate::action::{actions_model, ActionModel, FallbackType, PromotionAction};
use crate::listing::{listings_model, ListingInfo, ListingModel};
use crate::model::{PromotionModel, PromotionSummary};
use crate::text::same_text;
use crate::time::{
    law_moved_point_is_that_far_away, law_moving_ahead_is_later, law_time_is_ordered,
    law_units_are_whole, moment_in, parse_rfc3339, UtcTime, LONGEST_SPAN, SECONDS_PER_DAY,
    SECONDS_PER_HOUR,
};
use vstd::prelude::*;

verus! {

/// The kinds of promotion that are treated differently.
#[derive(Clone, Copy, Debug, PartialEq, Eq, Structural)]
pub enum PromotionClassification {
    /// Markdown sales: at most 45 days from start to end, then replaced.
    MarkdownSale,
    /// Volume discounts: kept running.
    VolumeDiscount,
    /// Promotions that stand in for a markdown sale that has ended.
    Fallback,
    /// Coded coupons: left to the seller.
    Coupon,
    /// All other promotions.
    Other,
}

/// The most days that a markdown sale runs.
pub const MARKDOWN_DAYS: i64 = 45;

/// The days that a fallback promotion runs, and by which an end is moved.
pub const FALLBACK_DAYS: i64 = 14;

/// The seconds of a number of days.
pub open spec fn days(n: int) -> int {
    n * 86_400
}

/// The class of a type of promotion.
pub open spec fn class_of(promotion_type: Seq<char>) -> PromotionClassification {
    if promotion_type == "CODED_COUPON"@ {
        PromotionClassification::Coupon
    } else if promotion_type == "VOLUME_DISCOUNT"@ {
        PromotionClassification::VolumeDiscount
    } else if promotion_type == "MARKDOWN_SALE"@ {
        PromotionClassification::MarkdownSale
    } else if promotion_type == "ORDER_DISCOUNT"@ {
        PromotionClassification::Fallback
    } else {
        PromotionClassification::Other
    }
}

/// The point in time that a text gives, and `now` where it gives none.
pub open spec fn moment_or(text: Seq<char>, now: UtcTime) -> UtcTime {
    match moment_in(text) {
        Some(t) => t,
        None => now,
    }
}

/// When a promotion starts and ends.
#[derive(Clone, Copy, Debug, PartialEq, Eq, Structural)]
pub struct Period {
    pub start: UtcTime,
    pub end: UtcTime,
}

impl Period {
    /// Whether both points lie in the calendar.
    pub open spec fn valid(self) -> bool {
        self.start.valid() && self.end.valid()
    }

    /// Whether it has at least `n` whole days.
    pub open spec fn lasts(self, n: int) -> bool {
        self.end.units_since(self.start, 86_400) >= n
    }

    /// Whether at most `hours` whole hours of it are left.
    pub open spec fn ends_within(self, hours: int, now: UtcTime) -> bool {
        hours >= self.end.units_since(now, 3_600)
    }

    /// The end 14 days later.
    pub open spec fn extended_end(self) -> UtcTime {
        self.end.after(days(FALLBACK_DAYS as int))
    }

    /// The end of an extended markdown sale: 14 days later, but no later than
    /// 45 days after its start.
    pub open spec fn extended_sale_end(self) -> UtcTime {
        let limit = self.start.after(days(MARKDOWN_DAYS as int));
        if limit.precedes(self.extended_end()) {
            limit
        } else {
            self.extended_end()
        }
    }

    /// The point from which a volume discount is extended: its end, or now
    /// where that has passed.
    pub open spec fn volume_base(self, now: UtcTime) -> UtcTime {
        if self.end.precedes(now) {
            now
        } else {
            self.end
        }
    }
}

impl PromotionModel {
    pub open spec fn start(self, now: UtcTime) -> UtcTime {
        moment_or(self.startDate, now)
    }

    pub open spec fn end(self, now: UtcTime) -> UtcTime {
        moment_or(self.endDate, now)
    }

    /// When the promotion starts and ends. A date that cannot be read counts
    /// as `now`.
    pub open spec fn period(self, now: UtcTime) -> Period {
        Period { start: self.start(now), end: self.end(now) }
    }

    /// Whether the promotion runs for at least `n` whole days.
    pub open spec fn runs_for(self, n: int, now: UtcTime) -> bool {
        self.period(now).lasts(n)
    }

    /// Whether at most `hours` whole hours are left.
    pub open spec fn ends_within(self, hours: int, now: UtcTime) -> bool {
        self.period(now).ends_within(hours, now)
    }
}

/// Whether a time span can have that many hours.
pub open spec fn is_span_of_hours(hours: int) -> bool {
    -LONGEST_SPAN <= hours * 3_600 <= LONGEST_SPAN
}

/// The class of a promotion.
pub fn classify_promotion(promotion: &PromotionSummary) -> (r: PromotionClassification)
    ensures
        r == class_of(promotion@.promotionType),
{
    let promotion_type: &str = promotion.promotionType.as_str();
    if same_text(promotion_type, "CODED_COUPON") {
        PromotionClassification::Coupon
    } else if same_text(promotion_type, "VOLUME_DISCOUNT") {
        PromotionClassification::VolumeDiscount
    } else if same_text(promotion_type, "MARKDOWN_SALE") {
        PromotionClassification::MarkdownSale
    } else if same_text(promotion_type, "ORDER_DISCOUNT") {
        PromotionClassification::Fallback
    } else {
        PromotionClassification::Other
    }
}

/// The point in time that a text gives, and `now` where it gives none.
fn date_or(text: &str, now: UtcTime) -> (r: UtcTime)
    requires
        now.valid(),
    ensures
        r == moment_or(text@, now),
        r.valid(),
{
    match parse_rfc3339(text) {
        Some(t) => t,
        None => now,
    }
}

/// When a promotion starts and ends. A date that cannot be read counts as `now`.
fn period_of(promotion: &PromotionSummary, now: UtcTime) -> (r: Period)
    requires
        now.valid(),
    ensures
        r == promotion@.period(now),
        r.valid(),
{
    Period {
        start: date_or(promotion.startDate.as_str(), now),
        end: date_or(promotion.endDate.as_str(), now),
    }
}

/// What becomes of a markdown sale that starts and ends as given: whether to
/// end it, whether to extend it, and whether to start a fallback promotion in
/// its place.
pub fn decide_markdown_sale(period: Period, now: UtcTime, alert_window: i64) -> (r: (
    bool,
    bool,
    bool,
))
    requires
        period.valid(),
        now.valid(),
    ensures
        r.0 == period.lasts(MARKDOWN_DAYS as int),
        r.1 == (!r.0 && period.ends_within(alert_window as int, now)),
        r.2 == r.0,
{
    let should_end: bool = period.end.since(&period.start).days >= MARKDOWN_DAYS;
    let should_extend: bool = !should_end && alert_window >= period.end.since(&now).hours;
    (should_end, should_extend, should_end)
}

/// What becomes of a volume discount that ends as given: it is never ended and
/// never replaced, only extended.
pub fn decide_volume_discount(period: Period, now: UtcTime, alert_window: i64) -> (r: (
    bool,
    bool,
    bool,
))
    requires
        period.valid(),
        now.valid(),
    ensures
        r.0 == false,
        r.1 == period.ends_within(alert_window as int, now),
        r.2 == false,
{
    (false, alert_window >= period.end.since(&now).hours, false)
}

/// What becomes of a fallback promotion that starts and ends as given: whether
/// to end it, and whether to extend it. No fallback promotion follows it.
pub fn decide_fallback(period: Period, now: UtcTime, alert_window: i64) -> (r: (bool, bool, bool))
    requires
        period.valid(),
        now.valid(),
    ensures
        r.0 == period.lasts(FALLBACK_DAYS as int),
        r.1 == (!r.0 && period.ends_within(alert_window as int, now)),
        r.2 == false,
{
    let should_end: bool = period.end.since(&period.start).days >= FALLBACK_DAYS;
    let should_extend: bool = !should_end && alert_window >= period.end.since(&now).hours;
    (should_end, should_extend, false)
}

/// What becomes of a markdown sale: whether to end it, whether to extend it,
/// and whether to start a fallback promotion in its place.
pub fn plan_markdown_sale(promotion: &PromotionSummary, now: UtcTime, alert_window: i64) -> (r: (
    bool,
    bool,
    bool,
))
    requires
        now.valid(),
    ensures
        r.0 == promotion@.runs_for(MARKDOWN_DAYS as int, now),
        r.1 == (!r.0 && promotion@.ends_within(alert_window as int, now)),
        r.2 == r.0,
{
    decide_markdown_sale(period_of(promotion, now), now, alert_window)
}

/// What becomes of a volume discount: it is never ended and never replaced,
/// only extended.
pub fn plan_volume_discount(promotion: &PromotionSummary, now: UtcTime, alert_window: i64) -> (r: (
    bool,
    bool,
    bool,
))
    requires
        now.valid(),
    ensures
        r.0 == false,
        r.1 == promotion@.ends_within(alert_window as int, now),
        r.2 == false,
{
    decide_volume_discount(period_of(promotion, now), now, alert_window)
}

/// What becomes of a fallback promotion: whether to end it, and whether to
/// extend it. No fallback promotion follows it.
pub fn plan_fallback(promotion: &PromotionSummary, now: UtcTime, alert_window: i64) -> (r: (
    bool,
    bool,
    bool,
))
    requires
        now.valid(),
    ensures
        r.0 == promotion@.runs_for(FALLBACK_DAYS as int, now),
        r.1 == (!r.0 && promotion@.ends_within(alert_window as int, now)),
        r.2 == false,
{
    decide_fallback(period_of(promotion, now), now, alert_window)
}

/// The action that starts a fallback promotion now.
pub open spec fn fallback_start(
    kind: FallbackType,
    listings: Seq<ListingModel>,
    now: UtcTime,
) -> ActionModel {
    ActionModel::StartFallback(
        kind,
        listings,
        now.text(),
        now.after(days(FALLBACK_DAYS as int)).text(),
    )
}

/// The action that starts a markdown sale now.
pub open spec fn markdown_start(listings: Seq<ListingModel>, now: UtcTime) -> ActionModel {
    ActionModel::StartMarkdown(
        listings,
        now.text(),
        now.after(days(MARKDOWN_DAYS as int)).text(),
    )
}

/// One action, unless there are no listings for it.
pub open spec fn if_listed(listings: Seq<ListingModel>, action: ActionModel) -> Seq<ActionModel> {
    if listings.len() == 0 {
        Seq::empty()
    } else {
        seq![action]
    }
}

/// Moves the end of a promotion, unless it stays where it is.
pub open spec fn move_end(id: Seq<char>, period: Period, end: UtcTime) -> Seq<ActionModel> {
    if end == period.end {
        Seq::empty()
    } else {
        seq![ActionModel::UpdateEnd(id, end.text())]
    }
}

/// The actions for a markdown sale. One that has run its days is ended and
/// replaced, if there are listings to replace it with. One that is about to
/// expire is extended; where that end has passed already, it is ended.
pub open spec fn markdown_actions(
    id: Seq<char>,
    period: Period,
    listings: Seq<ListingModel>,
    now: UtcTime,
    fallback: FallbackType,
    alert_window: int,
) -> Seq<ActionModel> {
    let replacement = if_listed(listings, fallback_start(fallback, listings, now));
    let end = seq![ActionModel::End(id)];
    if period.lasts(MARKDOWN_DAYS as int) {
        if listings.len() == 0 {
            Seq::empty()
        } else {
            end + replacement
        }
    } else if period.ends_within(alert_window, now) {
        if now.precedes(period.extended_sale_end()) {
            move_end(id, period, period.extended_sale_end())
        } else {
            end + replacement
        }
    } else {
        Seq::empty()
    }
}

/// The actions for a volume discount: one that is about to expire continues
/// for 14 days from its end, or from now where its end has passed.
pub open spec fn volume_actions(
    id: Seq<char>,
    period: Period,
    now: UtcTime,
    alert_window: int,
) -> Seq<ActionModel> {
    if period.ends_within(alert_window, now) {
        let new_end = period.volume_base(now).after(days(FALLBACK_DAYS as int));
        seq![ActionModel::UpdateEnd(id, new_end.text())]
    } else {
        Seq::empty()
    }
}

/// Moves the end of a promotion by 14 days, or ends it where that has passed.
pub open spec fn extension_actions(id: Seq<char>, period: Period, now: UtcTime) -> Seq<
    ActionModel,
> {
    if now.precedes(period.extended_end()) {
        move_end(id, period, period.extended_end())
    } else {
        seq![ActionModel::End(id)]
    }
}

/// The actions for a fallback promotion. One that has run its days is ended,
/// and a markdown sale of its listings starts. One that is about to expire is
/// extended.
pub open spec fn fallback_actions(
    id: Seq<char>,
    period: Period,
    listings: Seq<ListingModel>,
    now: UtcTime,
    alert_window: int,
) -> Seq<ActionModel> {
    if period.lasts(FALLBACK_DAYS as int) {
        seq![ActionModel::End(id)] + if_listed(listings, markdown_start(listings, now))
    } else if period.ends_within(alert_window, now) {
        extension_actions(id, period, now)
    } else {
        Seq::empty()
    }
}

/// The actions for a promotion of a class that starts and ends as given, with
/// the listings it covers.
pub open spec fn plan_of(
    class: PromotionClassification,
    id: Seq<char>,
    period: Period,
    listings: Seq<ListingModel>,
    now: UtcTime,
    fallback: FallbackType,
    alert_window: int,
) -> Seq<ActionModel> {
    match class {
        PromotionClassification::Coupon => Seq::empty(),
        PromotionClassification::MarkdownSale => markdown_actions(
            id,
            period,
            listings,
            now,
            fallback,
            alert_window,
        ),
        PromotionClassification::VolumeDiscount => volume_actions(id, period, now, alert_window),
        PromotionClassification::Fallback => fallback_actions(
            id,
            period,
            listings,
            now,
            alert_window,
        ),
        PromotionClassification::Other => if period.ends_within(alert_window, now) {
            extension_actions(id, period, now)
        } else {
            Seq::empty()
        },
    }
}

/// The actions for a promotion with the listings it covers.
pub open spec fn planned_actions(
    promotion: PromotionModel,
    listings: Seq<ListingModel>,
    now: UtcTime,
    fallback: FallbackType,
    alert_window: int,
) -> Seq<ActionModel> {
    plan_of(
        class_of(promotion.promotionType),
        promotion.promotionId,
        promotion.period(now),
        listings,
        now,
        fallback,
        alert_window,
    )
}

/// The point to which a plan moves the end of a promotion.
pub open spec fn planned_end(
    class: PromotionClassification,
    period: Period,
    now: UtcTime,
) -> UtcTime {
    match class {
        PromotionClassification::MarkdownSale => period.extended_sale_end(),
        PromotionClassification::VolumeDiscount => period.volume_base(now).after(
            days(FALLBACK_DAYS as int),
        ),
        _ => period.extended_end(),
    }
}

/// Whether an extension of a markdown sale stays within the calendar.
pub open spec fn has_time_to_extend_sale(period: Period, listed: bool, now: UtcTime) -> bool {
    &&& period.start.reaches(days(MARKDOWN_DAYS as int))
    &&& period.end.reaches(days(FALLBACK_DAYS as int))
    &&& listed && !now.precedes(period.extended_sale_end()) ==> now.reaches(
        days(FALLBACK_DAYS as int),
    )
}

/// Whether the dates that a plan needs lie in the calendar. Promotions are
/// started only where there are listings for them.
pub open spec fn has_time_for(
    class: PromotionClassification,
    period: Period,
    listed: bool,
    now: UtcTime,
    alert_window: int,
) -> bool {
    match class {
        PromotionClassification::Coupon => true,
        PromotionClassification::MarkdownSale => if period.lasts(MARKDOWN_DAYS as int) {
            listed ==> now.reaches(days(FALLBACK_DAYS as int))
        } else {
            period.ends_within(alert_window, now) ==> has_time_to_extend_sale(period, listed, now)
        },
        PromotionClassification::VolumeDiscount => period.ends_within(alert_window, now)
            ==> period.volume_base(now).reaches(days(FALLBACK_DAYS as int)),
        PromotionClassification::Fallback => if period.lasts(FALLBACK_DAYS as int) {
            listed ==> now.reaches(days(MARKDOWN_DAYS as int))
        } else {
            period.ends_within(alert_window, now) ==> period.end.reaches(
                days(FALLBACK_DAYS as int),
            )
        },
        PromotionClassification::Other => {
            &&& is_span_of_hours(alert_window)
            &&& period.ends_within(alert_window, now) ==> period.end.reaches(
                days(FALLBACK_DAYS as int),
            )
        },
    }
}

/// Whether the dates that a plan for a promotion needs lie in the calendar.
pub open spec fn has_time_to_plan(
    promotion: PromotionModel,
    listed: bool,
    now: UtcTime,
    alert_window: int,
) -> bool {
    has_time_for(
        class_of(promotion.promotionType),
        promotion.period(now),
        listed,
        now,
        alert_window,
    )
}

/// Whether the dates of an action read back: a moved end as the point `moved`,
/// and what starts as starting now and ending 14 or 45 days later.
pub open spec fn dates_read_back(action: ActionModel, moved: UtcTime, now: UtcTime) -> bool {
    match action {
        ActionModel::UpdateEnd(_, end) => writes_date(end, moved),
        ActionModel::StartMarkdown(_, start, end) => writes_date(start, now) && writes_date(
            end,
            now.after(days(MARKDOWN_DAYS as int)),
        ),
        ActionModel::StartFallback(_, _, start, end) => writes_date(start, now) && writes_date(
            end,
            now.after(days(FALLBACK_DAYS as int)),
        ),
        _ => true,
    }
}

/// Whether a text writes a point in time so that it reads back. Dates after the
/// year 9999 have no RFC 3339 form to read.
pub open spec fn writes_date(text: Seq<char>, t: UtcTime) -> bool {
    &&& text == t.text()
    &&& t.has_four_digit_year() ==> moment_in(text) == Some(t)
}

fn date_text(t: UtcTime) -> (r: String)
    requires
        t.valid(),
    ensures
        writes_date(r@, t),
{
    t.to_rfc3339()
}

fn start_fallback(kind: FallbackType, listings: Vec<ListingInfo>, now: UtcTime) -> (r:
    PromotionAction)
    requires
        now.valid(),
        now.reaches(days(FALLBACK_DAYS as int)),
    ensures
        r@ == fallback_start(kind, listings_model(listings@), now),
        forall|moved: UtcTime| #[trigger] dates_read_back(r@, moved, now),
{
    let end: UtcTime = now.moved(FALLBACK_DAYS * SECONDS_PER_DAY);
    PromotionAction::StartFallback(kind, listings, date_text(now), date_text(end))
}

fn start_markdown(listings: Vec<ListingInfo>, now: UtcTime) -> (r: PromotionAction)
    requires
        now.valid(),
        now.reaches(days(MARKDOWN_DAYS as int)),
    ensures
        r@ == markdown_start(listings_model(listings@), now),
        forall|moved: UtcTime| #[trigger] dates_read_back(r@, moved, now),
{
    let end: UtcTime = now.moved(MARKDOWN_DAYS * SECONDS_PER_DAY);
    PromotionAction::StartMarkdown(listings, date_text(now), date_text(end))
}

fn end_action(id: &str) -> (r: PromotionAction)
    ensures
        r@ == ActionModel::End(id@),
{
    PromotionAction::End(id.to_owned())
}

fn update_end(id: &str, end: UtcTime, now: UtcTime) -> (r: PromotionAction)
    requires
        end.valid(),
    ensures
        r@ == ActionModel::UpdateEnd(id@, end.text()),
        dates_read_back(r@, end, now),
{
    PromotionAction::UpdateEnd(id.to_owned(), date_text(end))
}

fn extended_sale_end(period: Period) -> (r: UtcTime)
    requires
        period.valid(),
        period.start.reaches(days(MARKDOWN_DAYS as int)),
        period.end.reaches(days(FALLBACK_DAYS as int)),
    ensures
        r == period.extended_sale_end(),
        r.valid(),
{
    let limit: UtcTime = period.start.moved(MARKDOWN_DAYS * SECONDS_PER_DAY);
    let extended: UtcTime = period.end.moved(FALLBACK_DAYS * SECONDS_PER_DAY);
    if limit.is_before(&extended) {
        limit
    } else {
        extended
    }
}

fn volume_base(period: Period, now: UtcTime) -> (r: UtcTime)
    requires
        period.valid(),
        now.valid(),
    ensures
        r == period.volume_base(now),
        r.valid(),
{
    if period.end.is_before(&now) {
        now
    } else {
        period.end
    }
}

fn build_markdown_actions(
    id: &str,
    period: Period,
    listings: Vec<ListingInfo>,
    now: UtcTime,
    fallback: FallbackType,
    alert_window: i64,
) -> (r: Vec<PromotionAction>)
    requires
        period.valid(),
        now.valid(),
        has_time_for(
            PromotionClassification::MarkdownSale,
            period,
            listings@.len() != 0,
            now,
            alert_window as int,
        ),
    ensures
        actions_model(r@) == markdown_actions(
            id@,
            period,
            listings_model(listings@),
            now,
            fallback,
            alert_window as int,
        ),
        forall|i: int|
            0 <= i < r@.len() ==> dates_read_back(
                #[trigger] r@[i]@,
                period.extended_sale_end(),
                now,
            ),
{
    let mut actions: Vec<PromotionAction> = Vec::new();
    let (should_end, should_extend, should_schedule_fallback) = decide_markdown_sale(
        period,
        now,
        alert_window,
    );
    if should_end && listings.len() == 0 {
        return actions;
    }
    if should_end {
        actions.push(end_action(id));
        if should_schedule_fallback && listings.len() != 0 {
            actions.push(start_fallback(fallback, listings, now));
        }
    } else if should_extend {
        let new_end: UtcTime = extended_sale_end(period);
        if !now.is_before(&new_end) {
            actions.push(end_action(id));
            if listings.len() != 0 {
                actions.push(start_fallback(fallback, listings, now));
            }
        } else if new_end != period.end {
            actions.push(update_end(id, new_end, now));
        }
    }
    actions
}

fn build_volume_actions(id: &str, period: Period, now: UtcTime, alert_window: i64) -> (r: Vec<
    PromotionAction,
>)
    requires
        period.valid(),
        now.valid(),
        has_time_for(
            PromotionClassification::VolumeDiscount,
            period,
            false,
            now,
            alert_window as int,
        ),
    ensures
        actions_model(r@) == volume_actions(id@, period, now, alert_window as int),
        forall|i: int|
            0 <= i < r@.len() ==> dates_read_back(
                #[trigger] r@[i]@,
                period.volume_base(now).after(days(FALLBACK_DAYS as int)),
                now,
            ),
{
    let mut actions: Vec<PromotionAction> = Vec::new();
    let (_should_end, should_extend, _fallback) = decide_volume_discount(
        period,
        now,
        alert_window,
    );
    if should_extend {
        let new_end: UtcTime = volume_base(period, now).moved(FALLBACK_DAYS * SECONDS_PER_DAY);
        actions.push(update_end(id, new_end, now));
    }
    actions
}

fn build_extension(id: &str, period: Period, now: UtcTime) -> (r: Vec<PromotionAction>)
    requires
        period.valid(),
        now.valid(),
        period.end.reaches(days(FALLBACK_DAYS as int)),
    ensures
        actions_model(r@) == extension_actions(id@, period, now),
        forall|i: int|
            0 <= i < r@.len() ==> dates_read_back(#[trigger] r@[i]@, period.extended_end(), now),
{
    let mut actions: Vec<PromotionAction> = Vec::new();
    let new_end: UtcTime = period.end.moved(FALLBACK_DAYS * SECONDS_PER_DAY);
    if !now.is_before(&new_end) {
        actions.push(end_action(id));
    } else if new_end != period.end {
        actions.push(update_end(id, new_end, now));
    }
    actions
}

fn build_fallback_actions(
    id: &str,
    period: Period,
    listings: Vec<ListingInfo>,
    now: UtcTime,
    alert_window: i64,
) -> (r: Vec<PromotionAction>)
    requires
        period.valid(),
        now.valid(),
        has_time_for(
            PromotionClassification::Fallback,
            period,
            listings@.len() != 0,
            now,
            alert_window as int,
        ),
    ensures
        actions_model(r@) == fallback_actions(
            id@,
            period,
            listings_model(listings@),
            now,
            alert_window as int,
        ),
        forall|i: int|
            0 <= i < r@.len() ==> dates_read_back(#[trigger] r@[i]@, period.extended_end(), now),
{
    let (should_end, should_extend, _fallback) = decide_fallback(period, now, alert_window);
    if should_end {
        let mut actions: Vec<PromotionAction> = Vec::new();
        actions.push(end_action(id));
        if listings.len() != 0 {
            actions.push(start_markdown(listings, now));
        }
        actions
    } else if should_extend {
        build_extension(id, period, now)
    } else {
        Vec::new()
    }
}

/// Plans the actions for a promotion of a class that starts and ends as given,
/// with the listings it covers, as of `now`.
pub fn plan_period(
    class: PromotionClassification,
    promotion_id: &str,
    period: Period,
    listings: Vec<ListingInfo>,
    now: UtcTime,
    fallback: FallbackType,
    alert_window: i64,
) -> (r: Vec<PromotionAction>)
    requires
        period.valid(),
        now.valid(),
        has_time_for(class, period, listings@.len() != 0, now, alert_window as int),
    ensures
        actions_model(r@) == plan_of(
            class,
            promotion_id@,
            period,
            listings_model(listings@),
            now,
            fallback,
            alert_window as int,
        ),
        forall|i: int|
            0 <= i < r@.len() ==> dates_read_back(
                #[trigger] r@[i]@,
                planned_end(class, period, now),
                now,
            ),
{
    match class {
        PromotionClassification::Coupon => Vec::new(),
        PromotionClassification::MarkdownSale => build_markdown_actions(
            promotion_id,
            period,
            listings,
            now,
            fallback,
            alert_window,
        ),
        PromotionClassification::VolumeDiscount => build_volume_actions(
            promotion_id,
            period,
            now,
            alert_window,
        ),
        PromotionClassification::Fallback => build_fallback_actions(
            promotion_id,
            period,
            listings,
            now,
            alert_window,
        ),
        PromotionClassification::Other => {
            if alert_window >= period.end.since(&now).hours {
                build_extension(promotion_id, period, now)
            } else {
                Vec::new()
            }
        },
    }
}

fn can_extend_sale(period: Period, listed: bool, now: UtcTime) -> (r: bool)
    requires
        period.valid(),
        now.valid(),
    ensures
        r == has_time_to_extend_sale(period, listed, now),
{
    period.start.can_move(MARKDOWN_DAYS * SECONDS_PER_DAY) && period.end.can_move(
        FALLBACK_DAYS * SECONDS_PER_DAY,
    ) && (!listed || now.is_before(&extended_sale_end(period)) || now.can_move(
        FALLBACK_DAYS * SECONDS_PER_DAY,
    ))
}

/// Whether the dates that a plan needs lie in the calendar, for a promotion of
/// a class that starts and ends as given, and covers listings or none.
pub fn can_plan_period(
    class: PromotionClassification,
    period: Period,
    listed: bool,
    now: UtcTime,
    alert_window: i64,
) -> (r: bool)
    requires
        period.valid(),
        now.valid(),
    ensures
        r == has_time_for(class, period, listed, now, alert_window as int),
{
    match class {
        PromotionClassification::Coupon => true,
        PromotionClassification::MarkdownSale => {
            let (should_end, should_extend, _fallback) = decide_markdown_sale(
                period,
                now,
                alert_window,
            );
            if should_end {
                !listed || now.can_move(FALLBACK_DAYS * SECONDS_PER_DAY)
            } else {
                !should_extend || can_extend_sale(period, listed, now)
            }
        },
        PromotionClassification::VolumeDiscount => {
            let (_should_end, should_extend, _fallback) = decide_volume_discount(
                period,
                now,
                alert_window,
            );
            !should_extend || volume_base(period, now).can_move(FALLBACK_DAYS * SECONDS_PER_DAY)
        },
        PromotionClassification::Fallback => {
            let (should_end, should_extend, _fallback) = decide_fallback(
                period,
                now,
                alert_window,
            );
            if should_end {
                !listed || now.can_move(MARKDOWN_DAYS * SECONDS_PER_DAY)
            } else {
                !should_extend || period.end.can_move(FALLBACK_DAYS * SECONDS_PER_DAY)
            }
        },
        PromotionClassification::Other => {
            let is_span: bool = -LONGEST_SPAN / SECONDS_PER_HOUR <= alert_window && alert_window
                <= LONGEST_SPAN / SECONDS_PER_HOUR;
            is_span && (alert_window < period.end.since(&now).hours || period.end.can_move(
                FALLBACK_DAYS * SECONDS_PER_DAY,
            ))
        },
    }
}

/// Whether the dates that a plan for a promotion needs lie in the calendar,
/// for a promotion that covers listings or none.
pub fn can_plan(
    promotion: &PromotionSummary,
    listed: bool,
    now: UtcTime,
    alert_window: i64,
) -> (r: bool)
    requires
        now.valid(),
    ensures
        r == has_time_to_plan(promotion@, listed, now, alert_window as int),
{
    can_plan_period(
        classify_promotion(promotion),
        period_of(promotion, now),
        listed,
        now,
        alert_window,
    )
}

/// Whether the dates of a plan for a promotion read back.
pub open spec fn plan_reads_back(
    promotion: PromotionModel,
    actions: Seq<ActionModel>,
    now: UtcTime,
) -> bool {
    forall|i: int|
        0 <= i < actions.len() ==> dates_read_back(
            #[trigger] actions[i],
            planned_end(class_of(promotion.promotionType), promotion.period(now), now),
            now,
        )
}

/// Plans the actions for a promotion with the listings it covers, as of `now`.
pub fn build_actions(
    promotion: &PromotionSummary,
    listings: Vec<ListingInfo>,
    now: UtcTime,
    fallback: FallbackType,
    alert_window: i64,
) -> (r: Vec<PromotionAction>)
    requires
        now.valid(),
        has_time_to_plan(promotion@, listings@.len() != 0, now, alert_window as int),
    ensures
        actions_model(r@) == planned_actions(
            promotion@,
            listings_model(listings@),
            now,
            fallback,
            alert_window as int,
        ),
        plan_reads_back(promotion@, actions_model(r@), now),
{
    plan_period(
        classify_promotion(promotion),
        promotion.promotionId.as_str(),
        period_of(promotion, now),
        listings,
        now,
        fallback,
        alert_window,
    )
}

/// Plans the actions for a promotion with the listings it covers, as of `now`,
/// or `None` where a date that the plan needs lies outside of the calendar.
pub fn plan_promotion(
    promotion: &PromotionSummary,
    listings: Vec<ListingInfo>,
    now: UtcTime,
    fallback: FallbackType,
    alert_window: i64,
) -> (r: Option<Vec<PromotionAction>>)
    requires
        now.valid(),
    ensures
        r is Some == has_time_to_plan(
            promotion@,
            listings@.len() != 0,
            now,
            alert_window as int,
        ),
        r matches Some(actions) ==> actions_model(actions@) == planned_actions(
            promotion@,
            listings_model(listings@),
            now,
            fallback,
            alert_window as int,
        ) && plan_reads_back(promotion@, actions_model(actions@), now),
{
    if can_plan(promotion, listings.len() != 0, now, alert_window) {
        Some(build_actions(promotion, listings, now, fallback, alert_window))
    } else {
        None
    }
}

/// A coupon is left alone.
pub proof fn law_coupon_is_left_alone(
    promotion: PromotionModel,
    listings: Seq<ListingModel>,
    now: UtcTime,
    fallback: FallbackType,
    alert_window: int,
)
    requires
        class_of(promotion.promotionType) is Coupon,
    ensures
        planned_actions(promotion, listings, now, fallback, alert_window).len() == 0,
{
}

/// A volume discount is never ended and never replaced: all that happens to it
/// is that its end moves.
pub proof fn law_volume_discount_never_ends(
    promotion: PromotionModel,
    listings: Seq<ListingModel>,
    now: UtcTime,
    fallback: FallbackType,
    alert_window: int,
)
    requires
        class_of(promotion.promotionType) is VolumeDiscount,
    ensures
        forall|i: int|
            0 <= i < planned_actions(promotion, listings, now, fallback, alert_window).len() ==> (
            #[trigger] planned_actions(promotion, listings, now, fallback, alert_window)[i])
                is UpdateEnd,
{
}

/// The end of a promotion is moved to the planned point and to no other, and
/// that point is never one that has passed.
pub proof fn law_end_moves_to_the_future(
    class: PromotionClassification,
    id: Seq<char>,
    period: Period,
    listings: Seq<ListingModel>,
    now: UtcTime,
    fallback: FallbackType,
    alert_window: int,
    i: int,
)
    requires
        has_time_for(class, period, listings.len() != 0, now, alert_window),
        0 <= i < plan_of(class, id, period, listings, now, fallback, alert_window).len(),
    ensures
        plan_of(class, id, period, listings, now, fallback, alert_window)[i] matches
            ActionModel::UpdateEnd(_, end) ==> end == planned_end(class, period, now).text()
            && now.precedes(planned_end(class, period, now)),
{
}

/// The end of a promotion never moves back. The start of a markdown sale in a
/// leap second is left out: its 45 days count from the second before.
pub proof fn law_end_never_moves_back(
    class: PromotionClassification,
    id: Seq<char>,
    period: Period,
    listings: Seq<ListingModel>,
    now: UtcTime,
    fallback: FallbackType,
    alert_window: int,
    i: int,
)
    requires
        period.valid(),
        now.valid(),
        class is MarkdownSale ==> !period.start.is_leap(),
        has_time_for(class, period, listings.len() != 0, now, alert_window),
        0 <= i < plan_of(class, id, period, listings, now, fallback, alert_window).len(),
    ensures
        plan_of(class, id, period, listings, now, fallback, alert_window)[i] is UpdateEnd
            ==> period.end.precedes(planned_end(class, period, now)),
{
    if class is MarkdownSale && !period.lasts(MARKDOWN_DAYS as int) && period.ends_within(
        alert_window,
        now,
    ) {
        lemma_limit_is_not_before_end(period);
    }
}

/// A sale of less than 45 days ends by the limit of 45 days.
proof fn lemma_limit_is_not_before_end(period: Period)
    requires
        period.valid(),
        !period.start.is_leap(),
        !period.lasts(MARKDOWN_DAYS as int),
        period.start.reaches(days(MARKDOWN_DAYS as int)),
    ensures
        !period.start.after(days(MARKDOWN_DAYS as int)).precedes(period.end),
{
}

/// A markdown sale is never extended beyond 45 days from its start.
pub proof fn law_markdown_sale_is_limited(
    id: Seq<char>,
    period: Period,
    listings: Seq<ListingModel>,
    now: UtcTime,
    fallback: FallbackType,
    alert_window: int,
    i: int,
)
    requires
        0 <= i < markdown_actions(id, period, listings, now, fallback, alert_window).len(),
    ensures
        markdown_actions(id, period, listings, now, fallback, alert_window)[i] matches
            ActionModel::UpdateEnd(_, end) ==> end == period.extended_sale_end().text()
            && !period.start.after(days(MARKDOWN_DAYS as int)).precedes(
            period.extended_sale_end(),
        ),
{
}

/// A plan touches no other promotion and brings in no other listing: it ends or
/// moves the promotion itself, starts promotions for all of its listings and
/// only where there are some, and takes no listing out of a promotion.
pub proof fn law_plan_keeps_to_the_promotion(
    promotion: PromotionModel,
    listings: Seq<ListingModel>,
    now: UtcTime,
    fallback: FallbackType,
    alert_window: int,
    i: int,
)
    requires
        0 <= i < planned_actions(promotion, listings, now, fallback, alert_window).len(),
    ensures
        match planned_actions(promotion, listings, now, fallback, alert_window)[i] {
            ActionModel::UpdateEnd(id, _) => id == promotion.promotionId,
            ActionModel::End(id) => id == promotion.promotionId,
            ActionModel::StartMarkdown(started, _, _) => started == listings && listings.len() > 0,
            ActionModel::StartFallback(kind, started, _, _) => kind == fallback && started
                == listings && listings.len() > 0,
            ActionModel::RemoveListing(_, _) => false,
        },
{
}

/// A plan has at most two actions. Two are an end, and a start after it.
pub proof fn law_plan_ends_before_it_starts(
    promotion: PromotionModel,
    listings: Seq<ListingModel>,
    now: UtcTime,
    fallback: FallbackType,
    alert_window: int,
)
    ensures
        ({
            let plan = planned_actions(promotion, listings, now, fallback, alert_window);
            &&& plan.len() <= 2
            &&& plan.len() == 2 ==> plan[0] is End && (plan[1] is StartMarkdown
                || plan[1] is StartFallback)
            &&& plan.len() == 1 ==> plan[0] is End || plan[0] is UpdateEnd
        }),
{
}

/// Listings do not lose their discount: a markdown sale with listings that is
/// ended is replaced at once, for 14 days, by a fallback promotion for the
/// same listings.
pub proof fn law_ended_sale_is_replaced(
    promotion: PromotionModel,
    listings: Seq<ListingModel>,
    now: UtcTime,
    fallback: FallbackType,
    alert_window: int,
)
    requires
        class_of(promotion.promotionType) is MarkdownSale,
        listings.len() > 0,
        planned_actions(promotion, listings, now, fallback, alert_window).contains(
            ActionModel::End(promotion.promotionId),
        ),
    ensures
        planned_actions(promotion, listings, now, fallback, alert_window) == seq![
            ActionModel::End(promotion.promotionId),
            fallback_start(fallback, listings, now),
        ],
{
    assert(seq![ActionModel::End(promotion.promotionId)] + seq![
        fallback_start(fallback, listings, now),
    ] =~= seq![
        ActionModel::End(promotion.promotionId),
        fallback_start(fallback, listings, now),
    ]);
}

/// A markdown sale that has run its 45 days is not ended where no listings are
/// known that a replacement could cover.
pub proof fn law_sale_without_listings_is_kept(
    promotion: PromotionModel,
    now: UtcTime,
    fallback: FallbackType,
    alert_window: int,
)
    requires
        class_of(promotion.promotionType) is MarkdownSale,
        promotion.runs_for(MARKDOWN_DAYS as int, now),
    ensures
        planned_actions(promotion, Seq::empty(), now, fallback, alert_window).len() == 0,
{
}

/// A fallback promotion with listings that has run its 14 days makes way for a
/// markdown sale of the same listings, for 45 days from now.
pub proof fn law_fallback_is_followed_by_sale(
    promotion: PromotionModel,
    listings: Seq<ListingModel>,
    now: UtcTime,
    fallback: FallbackType,
    alert_window: int,
)
    requires
        class_of(promotion.promotionType) is Fallback,
        listings.len() > 0,
        promotion.runs_for(FALLBACK_DAYS as int, now),
    ensures
        planned_actions(promotion, listings, now, fallback, alert_window) == seq![
            ActionModel::End(promotion.promotionId),
            markdown_start(listings, now),
        ],
{
    assert(seq![ActionModel::End(promotion.promotionId)] + seq![markdown_start(listings, now)]
        =~= seq![ActionModel::End(promotion.promotionId), markdown_start(listings, now)]);
}

/// A promotion without rules of its own that expires within the window has its
/// end moved by two weeks, unless even that end has passed.
pub proof fn law_expiring_promotion_gets_two_weeks(
    promotion: PromotionModel,
    listings: Seq<ListingModel>,
    now: UtcTime,
    fallback: FallbackType,
    alert_window: int,
)
    requires
        class_of(promotion.promotionType) is Other,
        promotion.end(now).reaches(days(FALLBACK_DAYS as int)),
        promotion.ends_within(alert_window, now),
        now.precedes(promotion.end(now).after(days(14))),
    ensures
        planned_actions(promotion, listings, now, fallback, alert_window) == seq![
            ActionModel::UpdateEnd(
                promotion.promotionId,
                promotion.end(now).after(days(14)).text(),
            ),
        ],
{
}

/// A volume discount that is about to expire always gets a new end: two weeks
/// after its end, or after now where its end has passed.
pub proof fn law_expiring_volume_discount_continues(
    promotion: PromotionModel,
    listings: Seq<ListingModel>,
    now: UtcTime,
    fallback: FallbackType,
    alert_window: int,
)
    requires
        class_of(promotion.promotionType) is VolumeDiscount,
        promotion.ends_within(alert_window, now),
    ensures
        planned_actions(promotion, listings, now, fallback, alert_window) == seq![
            ActionModel::UpdateEnd(
                promotion.promotionId,
                (if promotion.end(now).precedes(now) {
                    now
                } else {
                    promotion.end(now)
                }).after(days(14)).text(),
            ),
        ],
{
}

/// A promotion that does not expire within the alert window and has not run its days
/// is left alone.
pub proof fn law_running_promotion_is_left_alone(
    promotion: PromotionModel,
    listings: Seq<ListingModel>,
    now: UtcTime,
    fallback: FallbackType,
    alert_window: int,
)
    requires
        !promotion.ends_within(alert_window, now),
        class_of(promotion.promotionType) is MarkdownSale ==> !promotion.runs_for(
            MARKDOWN_DAYS as int,
            now,
        ),
        class_of(promotion.promotionType) is Fallback ==> !promotion.runs_for(
            FALLBACK_DAYS as int,
            now,
        ),
    ensures
        planned_actions(promotion, listings, now, fallback, alert_window).len() == 0,
{
}

/// A fallback promotion that starts now lasts 14 days, and a markdown sale 45.
pub proof fn law_started_promotions_last(now: UtcTime)
    requires
        now.valid(),
        !now.is_leap(),
        now.reaches(days(MARKDOWN_DAYS as int)),
    ensures
        now.after(days(FALLBACK_DAYS as int)).units_since(now, 86_400) == 14,
        now.after(days(MARKDOWN_DAYS as int)).units_since(now, 86_400) == 45,
{
    law_moved_point_is_that_far_away(now, days(FALLBACK_DAYS as int));
    law_moved_point_is_that_far_away(now, days(MARKDOWN_DAYS as int));
}

/// Five types of promotion are told apart, and all others are treated alike.
pub proof fn law_type_names_the_class(promotion_type: Seq<char>)
    ensures
        class_of("CODED_COUPON"@) is Coupon,
        class_of("VOLUME_DISCOUNT"@) is VolumeDiscount,
        class_of("MARKDOWN_SALE"@) is MarkdownSale,
        class_of("ORDER_DISCOUNT"@) is Fallback,
        promotion_type != "CODED_COUPON"@ && promotion_type != "VOLUME_DISCOUNT"@
            && promotion_type != "MARKDOWN_SALE"@ && promotion_type != "ORDER_DISCOUNT"@
            ==> class_of(promotion_type) is Other,
{
    lemma_types_differ();
}

proof fn lemma_types_differ()
    ensures
        "CODED_COUPON"@ != "VOLUME_DISCOUNT"@,
        "CODED_COUPON"@ != "MARKDOWN_SALE"@,
        "CODED_COUPON"@ != "ORDER_DISCOUNT"@,
        "VOLUME_DISCOUNT"@ != "MARKDOWN_SALE"@,
        "VOLUME_DISCOUNT"@ != "ORDER_DISCOUNT"@,
        "MARKDOWN_SALE"@ != "ORDER_DISCOUNT"@,
{
    reveal_strlit("CODED_COUPON");
    reveal_strlit("VOLUME_DISCOUNT");
    reveal_strlit("MARKDOWN_SALE");
    reveal_strlit("ORDER_DISCOUNT");
    assert("CODED_COUPON"@.len() == 12);
    assert("VOLUME_DISCOUNT"@.len() == 15);
    assert("MARKDOWN_SALE"@.len() == 13);
    assert("ORDER_DISCOUNT"@.len() == 14);
}

/// A period lasts `n` days exactly where its end lies `n` times 24 hours or more
/// after its start, and ends within some hours exactly where less than one hour
/// more than these is left. Where the hours are negative, the end has passed by
/// as many.
pub proof fn law_periods_are_measured_in_whole_days_and_hours(
    period: Period,
    n: int,
    hours: int,
    now: UtcTime,
)
    requires
        n > 0,
    ensures
        period.lasts(n) <==> period.end.nanos_since(period.start) >= n * 86_400_000_000_000,
        hours >= 0 ==> (period.ends_within(hours, now) <==> period.end.nanos_since(now) < (hours
            + 1) * 3_600_000_000_000),
        hours < 0 ==> (period.ends_within(hours, now) <==> period.end.nanos_since(now) <= hours
            * 3_600_000_000_000),
{
    law_units_are_whole(period.end, period.start);
    law_units_are_whole(period.end, now);
}

/// The period of a promotion goes from its start date to its end date; a date
/// that cannot be read counts as `now`.
pub proof fn law_period_goes_from_start_to_end(
    promotion: PromotionModel,
    now: UtcTime,
    start: UtcTime,
    end: UtcTime,
)
    requires
        moment_in(promotion.startDate) == Some(start) || (moment_in(promotion.startDate) is None
            && start == now),
        moment_in(promotion.endDate) == Some(end) || (moment_in(promotion.endDate) is None && end
            == now),
    ensures
        promotion.period(now).start == start,
        promotion.period(now).end == end,
        forall|n: int|
            promotion.runs_for(n, now) == (#[trigger] (Period { start, end }).lasts(n)),
        forall|hours: int|
            promotion.ends_within(hours, now) == (#[trigger] (Period { start, end }).ends_within(
                hours,
                now,
            )),
{
}

/// A markdown sale whose end lies 45 days or more after its start is ended and
/// replaced by a fallback promotion of the kind asked for, for the same listings
/// and for 14 days from now. Without listings it is left alone.
pub proof fn law_sale_of_45_days_is_replaced(
    promotion: PromotionModel,
    listings: Seq<ListingModel>,
    now: UtcTime,
    fallback: FallbackType,
    alert_window: int,
    start: UtcTime,
    end: UtcTime,
)
    requires
        promotion.promotionType == "MARKDOWN_SALE"@,
        moment_in(promotion.startDate) == Some(start) || (moment_in(promotion.startDate) is None
            && start == now),
        moment_in(promotion.endDate) == Some(end) || (moment_in(promotion.endDate) is None && end
            == now),
        end.nanos_since(start) >= 45 * 86_400_000_000_000,
    ensures
        listings.len() > 0 ==> planned_actions(promotion, listings, now, fallback, alert_window) == seq![
            ActionModel::End(promotion.promotionId),
            ActionModel::StartFallback(
                fallback,
                listings,
                now.text(),
                now.after(1_209_600).text(),
            ),
        ],
        listings.len() == 0 ==> planned_actions(promotion, listings, now, fallback, alert_window).len() == 0,
        has_time_to_plan(promotion, listings.len() > 0, now, alert_window) <==> (listings.len() == 0
            || now.reaches(1_209_600)),
{
    lemma_types_differ();
    law_periods_are_measured_in_whole_days_and_hours(Period { start, end }, 45, 0, now);
    assert(seq![ActionModel::End(promotion.promotionId)] + seq![
        fallback_start(fallback, listings, now),
    ] =~= seq![
        ActionModel::End(promotion.promotionId),
        fallback_start(fallback, listings, now),
    ]);
}

/// A shorter markdown sale that expires within the alert window has its end
/// moved by 14 days, or to 45 days after its start where that is earlier. Where
/// that point has passed, it is ended, and replaced where it has listings.
pub proof fn law_expiring_sale_is_extended(
    promotion: PromotionModel,
    listings: Seq<ListingModel>,
    now: UtcTime,
    fallback: FallbackType,
    alert_window: int,
    start: UtcTime,
    end: UtcTime,
    moved: UtcTime,
)
    requires
        promotion.promotionType == "MARKDOWN_SALE"@,
        moment_in(promotion.startDate) == Some(start) || (moment_in(promotion.startDate) is None
            && start == now),
        moment_in(promotion.endDate) == Some(end) || (moment_in(promotion.endDate) is None && end
            == now),
        end.nanos_since(start) < 45 * 86_400_000_000_000,
        alert_window >= 0 ==> end.nanos_since(now) < (alert_window + 1) * 3_600_000_000_000,
        alert_window < 0 ==> end.nanos_since(now) <= alert_window * 3_600_000_000_000,
        moved == start.after(3_888_000) || moved == end.after(1_209_600),
        !start.after(3_888_000).precedes(moved),
        !end.after(1_209_600).precedes(moved),
    ensures
        now.precedes(moved) && moved != end ==> planned_actions(promotion, listings, now, fallback, alert_window)
            == seq![ActionModel::UpdateEnd(promotion.promotionId, moved.text())],
        now.precedes(moved) && moved == end ==> planned_actions(promotion, listings, now, fallback, alert_window).len()
            == 0,
        !now.precedes(moved) && listings.len() == 0 ==> planned_actions(promotion, listings, now, fallback, alert_window)
            == seq![ActionModel::End(promotion.promotionId)],
        !now.precedes(moved) && listings.len() > 0 ==> planned_actions(promotion, listings, now, fallback, alert_window)
            == seq![
            ActionModel::End(promotion.promotionId),
            ActionModel::StartFallback(
                fallback,
                listings,
                now.text(),
                now.after(1_209_600).text(),
            ),
        ],
        has_time_to_plan(promotion, listings.len() > 0, now, alert_window) <==> start.reaches(
            3_888_000,
        ) && end.reaches(1_209_600) && (listings.len() == 0 || now.precedes(moved)
            || now.reaches(1_209_600)),
{
    lemma_types_differ();
    let period = Period { start, end };
    law_periods_are_measured_in_whole_days_and_hours(period, 45, alert_window, now);
    law_time_is_ordered(start.after(3_888_000), end.after(1_209_600), moved);
    assert(moved == period.extended_sale_end());
    let ended = seq![ActionModel::End(promotion.promotionId)];
    assert(ended + Seq::empty() =~= ended);
    assert(ended + seq![fallback_start(fallback, listings, now)] =~= seq![
        ActionModel::End(promotion.promotionId),
        fallback_start(fallback, listings, now),
    ]);
}

/// A volume discount that expires within the alert window continues for 14 days
/// from its end, or from now where its end has passed.
pub proof fn law_expiring_volume_discount_is_extended(
    promotion: PromotionModel,
    listings: Seq<ListingModel>,
    now: UtcTime,
    fallback: FallbackType,
    alert_window: int,
    end: UtcTime,
)
    requires
        promotion.promotionType == "VOLUME_DISCOUNT"@,
        moment_in(promotion.endDate) == Some(end) || (moment_in(promotion.endDate) is None && end
            == now),
        alert_window >= 0 ==> end.nanos_since(now) < (alert_window + 1) * 3_600_000_000_000,
        alert_window < 0 ==> end.nanos_since(now) <= alert_window * 3_600_000_000_000,
    ensures
        end.precedes(now) ==> planned_actions(promotion, listings, now, fallback, alert_window) == seq![
            ActionModel::UpdateEnd(promotion.promotionId, now.after(1_209_600).text()),
        ],
        !end.precedes(now) ==> planned_actions(promotion, listings, now, fallback, alert_window) == seq![
            ActionModel::UpdateEnd(promotion.promotionId, end.after(1_209_600).text()),
        ],
        has_time_to_plan(promotion, listings.len() > 0, now, alert_window) <==> (if end.precedes(
            now,
        ) {
            now.reaches(1_209_600)
        } else {
            end.reaches(1_209_600)
        }),
{
    lemma_types_differ();
    law_periods_are_measured_in_whole_days_and_hours(
        promotion.period(now),
        1,
        alert_window,
        now,
    );
}

/// An order discount whose end lies 14 days or more after its start is ended,
/// and a markdown sale of its listings starts for 45 days from now, where it has
/// any.
pub proof fn law_fallback_of_14_days_makes_way(
    promotion: PromotionModel,
    listings: Seq<ListingModel>,
    now: UtcTime,
    fallback: FallbackType,
    alert_window: int,
    start: UtcTime,
    end: UtcTime,
)
    requires
        promotion.promotionType == "ORDER_DISCOUNT"@,
        moment_in(promotion.startDate) == Some(start) || (moment_in(promotion.startDate) is None
            && start == now),
        moment_in(promotion.endDate) == Some(end) || (moment_in(promotion.endDate) is None && end
            == now),
        end.nanos_since(start) >= 14 * 86_400_000_000_000,
    ensures
        listings.len() > 0 ==> planned_actions(promotion, listings, now, fallback, alert_window) == seq![
            ActionModel::End(promotion.promotionId),
            ActionModel::StartMarkdown(listings, now.text(), now.after(3_888_000).text()),
        ],
        listings.len() == 0 ==> planned_actions(promotion, listings, now, fallback, alert_window) == seq![
            ActionModel::End(promotion.promotionId),
        ],
        has_time_to_plan(promotion, listings.len() > 0, now, alert_window) <==> (listings.len() == 0
            || now.reaches(3_888_000)),
{
    lemma_types_differ();
    law_periods_are_measured_in_whole_days_and_hours(Period { start, end }, 14, 0, now);
    let ended = seq![ActionModel::End(promotion.promotionId)];
    assert(ended + Seq::empty() =~= ended);
    assert(ended + seq![markdown_start(listings, now)] =~= seq![
        ActionModel::End(promotion.promotionId),
        markdown_start(listings, now),
    ]);
}

/// A shorter order discount, and a promotion without rules of its own however
/// long it is, has its end moved by 14 days where it expires within the alert
/// window, and is ended where that point has passed.
pub proof fn law_expiring_promotion_is_extended(
    promotion: PromotionModel,
    listings: Seq<ListingModel>,
    now: UtcTime,
    fallback: FallbackType,
    alert_window: int,
    start: UtcTime,
    end: UtcTime,
)
    requires
        promotion.promotionType != "CODED_COUPON"@,
        promotion.promotionType != "VOLUME_DISCOUNT"@,
        promotion.promotionType != "MARKDOWN_SALE"@,
        promotion.promotionType == "ORDER_DISCOUNT"@ ==> end.nanos_since(start) < 14
            * 86_400_000_000_000,
        moment_in(promotion.startDate) == Some(start) || (moment_in(promotion.startDate) is None
            && start == now),
        moment_in(promotion.endDate) == Some(end) || (moment_in(promotion.endDate) is None && end
            == now),
        alert_window >= 0 ==> end.nanos_since(now) < (alert_window + 1) * 3_600_000_000_000,
        alert_window < 0 ==> end.nanos_since(now) <= alert_window * 3_600_000_000_000,
        end.valid(),
        end.reaches(1_209_600),
    ensures
        now.precedes(end.after(1_209_600)) ==> planned_actions(promotion, listings, now, fallback, alert_window)
            == seq![
            ActionModel::UpdateEnd(promotion.promotionId, end.after(1_209_600).text()),
        ],
        !now.precedes(end.after(1_209_600)) ==> planned_actions(promotion, listings, now, fallback, alert_window)
            == seq![ActionModel::End(promotion.promotionId)],
{
    lemma_types_differ();
    law_periods_are_measured_in_whole_days_and_hours(
        Period { start, end },
        14,
        alert_window,
        now,
    );
    law_moving_ahead_is_later(end, 1_209_600);
}

/// The extension of such a promotion can be planned exactly where the calendar
/// has 14 more days behind its end, and, for one without rules of its own, where
/// the alert window is a span of time at all.
pub proof fn law_extension_needs_14_days(
    promotion: PromotionModel,
    listings: Seq<ListingModel>,
    now: UtcTime,
    fallback: FallbackType,
    alert_window: int,
    start: UtcTime,
    end: UtcTime,
)
    requires
        promotion.promotionType != "CODED_COUPON"@,
        promotion.promotionType != "VOLUME_DISCOUNT"@,
        promotion.promotionType != "MARKDOWN_SALE"@,
        promotion.promotionType == "ORDER_DISCOUNT"@ ==> end.nanos_since(start) < 14
            * 86_400_000_000_000,
        moment_in(promotion.startDate) == Some(start) || (moment_in(promotion.startDate) is None
            && start == now),
        moment_in(promotion.endDate) == Some(end) || (moment_in(promotion.endDate) is None && end
            == now),
        alert_window >= 0 ==> end.nanos_since(now) < (alert_window + 1) * 3_600_000_000_000,
        alert_window < 0 ==> end.nanos_since(now) <= alert_window * 3_600_000_000_000,
    ensures
        has_time_to_plan(promotion, listings.len() > 0, now, alert_window) <==> end.reaches(
            1_209_600,
        ) && (promotion.promotionType == "ORDER_DISCOUNT"@ || -9_223_372_036_854_775
            <= alert_window * 3_600 <= 9_223_372_036_854_775),
{
    lemma_types_differ();
    law_periods_are_measured_in_whole_days_and_hours(
        Period { start, end },
        14,
        alert_window,
        now,
    );
}

/// Nothing is done about a promotion that does not expire within the alert
/// window, unless it is a markdown sale of 45 days or more, or an order discount
/// of 14. Nothing is ever done about a coupon. That can always be planned, but
/// for a promotion without rules of its own the alert window has to be a span of
/// time at all.
pub proof fn law_nothing_is_done_early(
    promotion: PromotionModel,
    listings: Seq<ListingModel>,
    now: UtcTime,
    fallback: FallbackType,
    alert_window: int,
    start: UtcTime,
    end: UtcTime,
)
    requires
        moment_in(promotion.startDate) == Some(start) || (moment_in(promotion.startDate) is None
            && start == now),
        moment_in(promotion.endDate) == Some(end) || (moment_in(promotion.endDate) is None && end
            == now),
        promotion.promotionType == "CODED_COUPON"@ || (if alert_window >= 0 {
            end.nanos_since(now) >= (alert_window + 1) * 3_600_000_000_000
        } else {
            end.nanos_since(now) > alert_window * 3_600_000_000_000
        }),
        promotion.promotionType == "MARKDOWN_SALE"@ ==> end.nanos_since(start) < 45
            * 86_400_000_000_000,
        promotion.promotionType == "ORDER_DISCOUNT"@ ==> end.nanos_since(start) < 14
            * 86_400_000_000_000,
    ensures
        planned_actions(promotion, listings, now, fallback, alert_window).len() == 0,
        has_time_to_plan(promotion, listings.len() > 0, now, alert_window) <==> (
        promotion.promotionType == "CODED_COUPON"@ || promotion.promotionType == "VOLUME_DISCOUNT"@
            || promotion.promotionType == "MARKDOWN_SALE"@ || promotion.promotionType
            == "ORDER_DISCOUNT"@ || -9_223_372_036_854_775 <= alert_window * 3_600
            <= 9_223_372_036_854_775),
{
    lemma_types_differ();
    law_periods_are_measured_in_whole_days_and_hours(
        Period { start, end },
        45,
        alert_window,
        now,
    );
    law_periods_are_measured_in_whole_days_and_hours(
        Period { start, end },
        14,
        alert_window,
        now,
    );
}

/// The dates of a plan read back as the points that were planned: a moved end as
/// the planned one, a start as now, and the end of what starts as 14 days later
/// for a fallback promotion and 45 for a markdown sale. Years after 9999 have no
/// RFC 3339 form to read.
pub proof fn law_planned_dates_read_back(
    promotion: PromotionModel,
    actions: Seq<ActionModel>,
    now: UtcTime,
    t: UtcTime,
    i: int,
)
    requires
        plan_reads_back(promotion, actions, now),
        0 <= i < actions.len(),
        -62_167_219_200 <= t.secs <= 253_402_300_799,
    ensures
        match actions[i] {
            ActionModel::UpdateEnd(_, text) => t == planned_end(
                class_of(promotion.promotionType),
                promotion.period(now),
                now,
            ) ==> text == t.text() && moment_in(text) == Some(t),
            ActionModel::StartFallback(_, _, start, end) => {
                &&& t == now ==> start == t.text() && moment_in(start) == Some(t)
                &&& t == now.after(1_209_600) ==> end == t.text() && moment_in(end) == Some(t)
            },
            ActionModel::StartMarkdown(_, start, end) => {
                &&& t == now ==> start == t.text() && moment_in(start) == Some(t)
                &&& t == now.after(3_888_000) ==> end == t.text() && moment_in(end) == Some(t)
            },
            _ => true,
        },
{
}

/// The planned end: of a markdown sale the earlier one of 14 days after its end
/// and 45 days after its start; of a volume discount 14 days after the later one
/// of its end and now; of every other promotion 14 days after its end.
pub proof fn law_planned_end_is_two_weeks_later(
    class: PromotionClassification,
    period: Period,
    now: UtcTime,
)
    ensures
        class is MarkdownSale && period.start.after(3_888_000).precedes(
            period.end.after(1_209_600),
        ) ==> planned_end(class, period, now) == period.start.after(3_888_000),
        class is MarkdownSale && !period.start.after(3_888_000).precedes(
            period.end.after(1_209_600),
        ) ==> planned_end(class, period, now) == period.end.after(1_209_600),
        class is VolumeDiscount && period.end.precedes(now) ==> planned_end(class, period, now)
            == now.after(1_209_600),
        class is VolumeDiscount && !period.end.precedes(now) ==> planned_end(class, period, now)
            == period.end.after(1_209_600),
        class is Fallback || class is Other ==> planned_end(class, period, now)
            == period.end.after(1_209_600),
{
}

/// The plan for a promotion is the plan for its class, identifier and period, and
/// nothing else of the promotion plays a part.
pub proof fn law_plan_looks_at_type_and_dates(
    a: PromotionModel,
    b: PromotionModel,
    listings: Seq<ListingModel>,
    now: UtcTime,
    fallback: FallbackType,
    alert_window: int,
)
    requires
        a.promotionId == b.promotionId,
        a.promotionType == b.promotionType,
        a.startDate == b.startDate,
        a.endDate == b.endDate,
    ensures
        planned_actions(a, listings, now, fallback, alert_window) == planned_actions(
            b,
            listings,
            now,
            fallback,
            alert_window,
        ),
        planned_actions(a, listings, now, fallback, alert_window) == plan_of(
            class_of(a.promotionType),
            a.promotionId,
            a.period(now),
            listings,
            now,
            fallback,
            alert_window,
        ),
        has_time_to_plan(a, listings.len() > 0, now, alert_window) == has_time_for(
            class_of(a.promotionType),
            a.period(now),
            listings.len() > 0,
            now,
            alert_window,
        ),
{
}

} // verus!
