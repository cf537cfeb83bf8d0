//! What the program shows of the promotions that are about to expire.
use crate::model::{promotions_model, PromotionModel, PromotionSummary};
use crate::plan::moment_or;
use crate::tally::{is_tally, statuses_of, tally, tally_lines, types_of, Tally};
use crate::text::{
    decimal, decimal_text, enclosed, joined, signed_decimal, signed_decimal_text, texts,
};
use crate::time::{law_units_are_whole, moment_in, parse_rfc3339, utc_now, Elapsed, UtcTime};
use vstd::prelude::*;
use vstd::string::*;

verus! {

/// A line of eighty times the same character.
pub open spec fn rule_of(c: char) -> Seq<char> {
    Seq::new(80, |i: int| c)
}

fn double_rule() -> (r: &'static str)
    ensures
        r@ == rule_of('='),
{
    proof {
        reveal_strlit(
            "================================================================================",
        );
        assert("================================================================================"@
            =~= rule_of('='));
    }
    "================================================================================"
}

fn single_rule() -> (r: &'static str)
    ensures
        r@ == rule_of('-'),
{
    proof {
        reveal_strlit(
            "--------------------------------------------------------------------------------",
        );
        assert("--------------------------------------------------------------------------------"@
            =~= rule_of('-'));
    }
    "--------------------------------------------------------------------------------"
}

/// How urgent it is, with so many whole hours left.
pub open spec fn urgency_of(hours: int) -> Seq<char> {
    if hours <= 6 {
        "[!!!]"@
    } else if hours <= 12 {
        "[!!] "@
    } else if hours <= 24 {
        "[!]"@
    } else {
        "[*]"@
    }
}

/// How urgent it is, with so many whole hours left.
pub fn urgency(hours: i64) -> (r: &'static str)
    ensures
        r@ == urgency_of(hours as int),
{
    if hours <= 6 {
        "[!!!]"
    } else if hours <= 12 {
        "[!!] "
    } else if hours <= 24 {
        "[!]"
    } else {
        "[*]"
    }
}

/// What is left of a number when whole multiples of `unit` are taken off, and
/// nothing below zero.
pub open spec fn rest_of(n: int, unit: int) -> int {
    if n <= 0 {
        0
    } else {
        n % unit
    }
}

/// The time until `end` in days, hours and minutes, and nothing once it has
/// passed.
pub open spec fn remaining_of(end: UtcTime, now: UtcTime) -> Seq<char> {
    let days = end.units_since(now, 86_400);
    let hours = end.units_since(now, 3_600);
    let minutes = end.units_since(now, 60);
    signed_decimal(
        if days <= 0 {
            0
        } else {
            days
        },
    ) + "d "@ + signed_decimal(rest_of(hours, 24)) + "h "@ + signed_decimal(rest_of(minutes, 60))
        + "m"@
}

fn rest(n: i64, unit: i64) -> (r: i64)
    requires
        unit > 0,
    ensures
        r == rest_of(n as int, unit as int),
{
    if n <= 0 {
        0
    } else {
        n % unit
    }
}

fn remaining_text(left: Elapsed, Ghost(end): Ghost<UtcTime>, Ghost(now): Ghost<UtcTime>) -> (r:
    String)
    requires
        left.days == end.units_since(now, 86_400),
        left.hours == end.units_since(now, 3_600),
        left.minutes == end.units_since(now, 60),
    ensures
        r@ == remaining_of(end, now),
{
    let days: i64 = if left.days <= 0 {
        0
    } else {
        left.days
    };
    let mut s: String = joined(signed_decimal_text(days).as_str(), "d ");
    s.append(signed_decimal_text(rest(left.hours, 24)).as_str());
    s.append("h ");
    s.append(signed_decimal_text(rest(left.minutes, 60)).as_str());
    s.append("m");
    s
}

/// The name of a promotion, or words for one without a name.
pub open spec fn shown_name(promotion: PromotionModel) -> Seq<char> {
    match promotion.name {
        Some(name) => name,
        None => "Unnamed Promotion"@,
    }
}

/// The line with the description of a promotion, if it has one.
pub open spec fn description_lines(promotion: PromotionModel) -> Seq<Seq<char>> {
    match promotion.description {
        Some(description) => seq!["Description: "@ + description],
        None => Seq::empty(),
    }
}

/// The lines about the promotion that is the `number`th of those shown, as of
/// `now`. A rule follows unless it is the last.
pub open spec fn discount_lines(
    promotion: PromotionModel,
    number: nat,
    is_last: bool,
    now: UtcTime,
) -> Seq<Seq<char>> {
    let end = moment_or(promotion.endDate, now);
    let head = seq![
        "\n"@ + urgency_of(end.units_since(now, 3_600)) + " DISCOUNT #"@ + decimal(number),
        "Promotion ID: "@ + promotion.promotionId,
        "Type: "@ + promotion.promotionType,
        "Status: "@ + promotion.promotionStatus,
        "Name: "@ + shown_name(promotion),
    ];
    let dates = seq![
        "Start: "@ + promotion.startDate,
        "End:   "@ + promotion.endDate,
        "Time Remaining: "@ + remaining_of(end, now),
    ];
    let bottom = if is_last {
        Seq::empty()
    } else {
        seq![rule_of('-')]
    };
    head + description_lines(promotion) + dates + bottom
}

/// Puts a line behind others.
fn push_line(lines: &mut Vec<String>, line: String)
    ensures
        texts(final(lines)@) == texts(old(lines)@).push(line@),
{
    lines.push(line);
    proof {
        assert(texts(lines@) =~= texts(old(lines)@).push(line@));
    }
}

/// Puts a line that begins with a label behind others.
fn push_labelled(lines: &mut Vec<String>, label: &str, value: &str)
    ensures
        texts(final(lines)@) == texts(old(lines)@).push(label@ + value@),
{
    push_line(lines, joined(label, value));
}

/// The lines about one promotion, as of `now`.
pub fn describe_discount(
    promotion: &PromotionSummary,
    number: u64,
    is_last: bool,
    now: UtcTime,
) -> (r: Vec<String>)
    requires
        now.valid(),
    ensures
        texts(r@) == discount_lines(promotion@, number as nat, is_last, now),
{
    let end: UtcTime = match parse_rfc3339(promotion.endDate.as_str()) {
        Some(end) => end,
        None => now,
    };
    let left: Elapsed = end.since(&now);
    let mut lines: Vec<String> = Vec::new();
    let mut title: String = enclosed("\n", urgency(left.hours), " DISCOUNT #");
    title.append(decimal_text(number).as_str());
    push_line(&mut lines, title);
    push_labelled(&mut lines, "Promotion ID: ", promotion.promotionId.as_str());
    push_labelled(&mut lines, "Type: ", promotion.promotionType.as_str());
    push_labelled(&mut lines, "Status: ", promotion.promotionStatus.as_str());
    match &promotion.name {
        Some(name) => push_labelled(&mut lines, "Name: ", name.as_str()),
        None => push_labelled(&mut lines, "Name: ", "Unnamed Promotion"),
    }
    if let Some(description) = &promotion.description {
        push_labelled(&mut lines, "Description: ", description.as_str());
    }
    push_labelled(&mut lines, "Start: ", promotion.startDate.as_str());
    push_labelled(&mut lines, "End:   ", promotion.endDate.as_str());
    let remaining: String = remaining_text(left, Ghost(end), Ghost(now));
    push_labelled(&mut lines, "Time Remaining: ", remaining.as_str());
    if !is_last {
        push_line(&mut lines, single_rule().to_owned());
    }
    proof {
        assert(texts(lines@) =~= discount_lines(promotion@, number as nat, is_last, now));
    }
    lines
}

/// The lines about the first `n` of the promotions shown, where `clock` gives
/// the time at which each was described.
pub open spec fn all_discount_lines(
    discounts: Seq<PromotionModel>,
    clock: Seq<UtcTime>,
    n: nat,
) -> Seq<Seq<char>>
    decreases n,
{
    if n == 0 {
        Seq::empty()
    } else {
        all_discount_lines(discounts, clock, (n - 1) as nat) + discount_lines(
            discounts[n - 1],
            n,
            n == discounts.len(),
            clock[n - 1],
        )
    }
}

/// What is counted of promotions: how many there are, and their tallies by
/// type and by state.
pub struct CountModel {
    pub total: nat,
    pub by_type: Seq<(Seq<char>, nat)>,
    pub by_status: Seq<(Seq<char>, nat)>,
}

/// Whether promotions have been counted correctly.
pub open spec fn counts_promotions(list: Seq<PromotionModel>, counts: CountModel) -> bool {
    &&& counts.total == list.len()
    &&& is_tally(types_of(list), counts.by_type)
    &&& is_tally(statuses_of(list), counts.by_status)
}

/// The lines with the counts of all promotions and of those shown.
pub open spec fn count_lines(all: CountModel, expiring: CountModel) -> Seq<Seq<char>> {
    seq![
        rule_of('='),
        "TALLY"@,
        rule_of('='),
        "Recognized discounts (all): "@ + decimal(all.total),
    ] + tally_lines("By type (all)"@, all.by_type) + tally_lines(
        "By status (all)"@,
        all.by_status,
    ) + seq!["---"@, "Expiring within window: "@ + decimal(expiring.total)] + tally_lines(
        "By type (expiring)"@,
        expiring.by_type,
    ) + tally_lines("By status (expiring)"@, expiring.by_status) + seq![rule_of('=')]
}

/// The lines that show promotions about to expire.
pub open spec fn display_lines(
    discounts: Seq<PromotionModel>,
    hours_window: int,
    clock: Seq<UtcTime>,
    all: CountModel,
    expiring: CountModel,
) -> Seq<Seq<char>> {
    if discounts.len() == 0 {
        seq!["No discounts expiring within "@ + signed_decimal(hours_window) + " hours."@]
    } else {
        seq![
            rule_of('='),
            "DISCOUNTS EXPIRING WITHIN "@ + signed_decimal(hours_window) + " HOURS"@,
            rule_of('='),
        ] + all_discount_lines(discounts, clock, discounts.len()) + count_lines(all, expiring)
    }
}

fn push_lines(lines: &mut Vec<String>, added: Vec<String>)
    ensures
        texts(final(lines)@) == texts(old(lines)@) + texts(added@),
{
    let mut added: Vec<String> = added;
    let ghost more = added@;
    lines.append(&mut added);
    proof {
        assert(texts(lines@) =~= texts(old(lines)@) + texts(more));
    }
}

fn push_counts(
    lines: &mut Vec<String>,
    label: &str,
    total: usize,
    type_title: &str,
    by_type: &Tally,
    status_title: &str,
    by_status: &Tally,
)
    ensures
        texts(final(lines)@) == texts(old(lines)@) + seq![label@ + decimal(total as nat)]
            + tally_lines(type_title@, by_type@) + tally_lines(status_title@, by_status@),
{
    push_labelled(lines, label, decimal_text(total as u64).as_str());
    push_lines(lines, by_type.lines(type_title));
    push_lines(lines, by_status.lines(status_title));
    proof {
        assert(texts(lines@) =~= texts(old(lines)@) + seq![label@ + decimal(total as nat)]
            + tally_lines(type_title@, by_type@) + tally_lines(status_title@, by_status@));
    }
}

/// The lines that show promotions about to expire, each as of the time on the
/// clock when it is described, and the counts of them and of all promotions.
pub fn display(
    discounts: &[PromotionSummary],
    hours_window: i64,
    all_promos: &[PromotionSummary],
) -> (r: Vec<String>)
    ensures
        exists|clock: Seq<UtcTime>, all: CountModel, expiring: CountModel|
            clock.len() == discounts@.len() && (forall|i: int|
                0 <= i < clock.len() ==> (#[trigger] clock[i]).valid()) && counts_promotions(
                promotions_model(all_promos@),
                all,
            ) && counts_promotions(promotions_model(discounts@), expiring) && texts(r@)
                == #[trigger] display_lines(
                promotions_model(discounts@),
                hours_window as int,
                clock,
                all,
                expiring,
            ),
{
    let ghost shown = promotions_model(discounts@);
    let ghost mut clock: Seq<UtcTime> = Seq::empty();
    let (total_all, by_type_all, by_status_all) = tally(all_promos);
    let (total_exp, by_type_exp, by_status_exp) = tally(discounts);
    let ghost all = CountModel {
        total: total_all as nat,
        by_type: by_type_all@,
        by_status: by_status_all@,
    };
    let ghost expiring = CountModel {
        total: total_exp as nat,
        by_type: by_type_exp@,
        by_status: by_status_exp@,
    };
    let window: String = signed_decimal_text(hours_window);
    let mut lines: Vec<String> = Vec::new();
    if discounts.len() == 0 {
        push_line(
            &mut lines,
            enclosed("No discounts expiring within ", window.as_str(), " hours."),
        );
        proof {
            assert(texts(lines@) =~= display_lines(
                shown,
                hours_window as int,
                clock,
                all,
                expiring,
            ));
        }
        return lines;
    }
    push_line(&mut lines, double_rule().to_owned());
    push_line(&mut lines, enclosed("DISCOUNTS EXPIRING WITHIN ", window.as_str(), " HOURS"));
    push_line(&mut lines, double_rule().to_owned());
    let ghost head = texts(lines@);
    let mut i: usize = 0;
    proof {
        assert(head + all_discount_lines(shown, clock, 0) =~= head);
    }
    while i < discounts.len()
        invariant
            i <= discounts@.len(),
            shown == promotions_model(discounts@),
            clock.len() == i,
            forall|k: int| 0 <= k < clock.len() ==> (#[trigger] clock[k]).valid(),
            texts(lines@) == head + all_discount_lines(shown, clock, i as nat),
        decreases discounts.len() - i,
    {
        let now: UtcTime = utc_now();
        let ghost earlier = clock;
        let ghost before = texts(lines@);
        let number: u64 = i as u64 + 1;
        let block: Vec<String> = describe_discount(
            &discounts[i],
            number,
            i + 1 == discounts.len(),
            now,
        );
        let ghost added = texts(block@);
        push_lines(&mut lines, block);
        proof {
            clock = earlier.push(now);
            lemma_earlier_clock(shown, earlier, clock, i as nat);
            assert(texts(lines@) =~= head + all_discount_lines(shown, clock, (i + 1) as nat));
        }
        i += 1;
    }
    let ghost middle = texts(lines@);
    push_line(&mut lines, double_rule().to_owned());
    push_line(&mut lines, "TALLY".to_owned());
    push_line(&mut lines, double_rule().to_owned());
    push_counts(
        &mut lines,
        "Recognized discounts (all): ",
        total_all,
        "By type (all)",
        &by_type_all,
        "By status (all)",
        &by_status_all,
    );
    push_line(&mut lines, "---".to_owned());
    push_counts(
        &mut lines,
        "Expiring within window: ",
        total_exp,
        "By type (expiring)",
        &by_type_exp,
        "By status (expiring)",
        &by_status_exp,
    );
    push_line(&mut lines, double_rule().to_owned());
    proof {
        assert(texts(lines@) =~= middle + count_lines(all, expiring));
        assert(texts(lines@) =~= display_lines(
            shown,
            hours_window as int,
            clock,
            all,
            expiring,
        ));
    }
    lines
}

proof fn lemma_earlier_clock(
    discounts: Seq<PromotionModel>,
    earlier: Seq<UtcTime>,
    clock: Seq<UtcTime>,
    n: nat,
)
    requires
        n <= earlier.len() <= clock.len(),
        forall|i: int| 0 <= i < n ==> earlier[i] == clock[i],
    ensures
        all_discount_lines(discounts, earlier, n) == all_discount_lines(discounts, clock, n),
    decreases n,
{
    if n > 0 {
        lemma_earlier_clock(discounts, earlier, clock, (n - 1) as nat);
    }
}

/// Three marks for up to six hours left, two for up to twelve, one for up to
/// 24, and a star for more.
pub proof fn law_marks_grow_as_time_runs_out(hours: int)
    ensures
        hours <= 6 ==> urgency_of(hours) == "[!!!]"@,
        7 <= hours <= 12 ==> urgency_of(hours) == "[!!] "@,
        13 <= hours <= 24 ==> urgency_of(hours) == "[!]"@,
        hours >= 25 ==> urgency_of(hours) == "[*]"@,
{
}

/// The days, hours and minutes shown account for the whole time left: there are
/// less than 24 hours and less than 60 minutes, and together they make up the
/// whole minutes until the end.
pub proof fn law_time_remaining_accounts_for_all(
    end: UtcTime,
    now: UtcTime,
    days: nat,
    hours: nat,
    minutes: nat,
)
    requires
        hours < 24,
        minutes < 60,
        end.nanos_since(now) >= 0,
        (1_440 * days + 60 * hours + minutes) * 60_000_000_000 <= end.nanos_since(now) < (1_440
            * days + 60 * hours + minutes + 1) * 60_000_000_000,
    ensures
        remaining_of(end, now) == decimal(days) + "d "@ + decimal(hours) + "h "@ + decimal(minutes)
            + "m"@,
{
    law_units_are_whole(end, now);
    let n = end.nanos_since(now);
    let whole = 1_440 * days + 60 * hours + minutes;
    assert(end.units_since(now, 60) == whole);
    assert(end.units_since(now, 3_600) == 24 * days + hours) by {
        assert((24 * days + hours) * 3_600_000_000_000 <= n);
        assert(n < (24 * days + hours + 1) * 3_600_000_000_000);
    }
    assert(end.units_since(now, 86_400) == days) by {
        assert(days * 86_400_000_000_000 <= n);
        assert(n < (days + 1) * 86_400_000_000_000);
    }
    assert(rest_of(24 * days + hours as int, 24) == hours);
    assert(rest_of(whole as int, 60) == minutes);
}

/// Once the end has passed, nothing is left.
pub proof fn law_nothing_remains_of_what_has_ended(end: UtcTime, now: UtcTime)
    requires
        end.nanos_since(now) < 0,
    ensures
        remaining_of(end, now) == decimal(0) + "d "@ + decimal(0) + "h "@ + decimal(0) + "m"@,
{
    law_units_are_whole(end, now);
}

/// What is shown of a promotion: its number, identifier, type, status, name,
/// description, dates and time left, each on a line of its own. There is no
/// line for a description that is missing. A line of 80 dashes follows unless
/// it is the last.
pub proof fn law_discount_is_shown_in_full(
    promotion: PromotionModel,
    number: nat,
    now: UtcTime,
    end: UtcTime,
    name: Seq<char>,
)
    requires
        moment_in(promotion.endDate) == Some(end) || (moment_in(promotion.endDate) is None && end
            == now),
        promotion.name == Some(name) || (promotion.name is None && name == "Unnamed Promotion"@),
    ensures
        ({
            let head = seq![
                "\n"@ + urgency_of(end.units_since(now, 3_600)) + " DISCOUNT #"@ + decimal(number),
                "Promotion ID: "@ + promotion.promotionId,
                "Type: "@ + promotion.promotionType,
                "Status: "@ + promotion.promotionStatus,
                "Name: "@ + name,
            ];
            let dates = seq![
                "Start: "@ + promotion.startDate,
                "End:   "@ + promotion.endDate,
                "Time Remaining: "@ + remaining_of(end, now),
            ];
            let dashes = Seq::new(80, |i: int| '-');
            &&& promotion.description is None ==> discount_lines(promotion, number, true, now)
                == head + dates
            &&& promotion.description matches Some(text) ==> discount_lines(
                promotion,
                number,
                true,
                now,
            ) == head.push("Description: "@ + text) + dates
            &&& discount_lines(promotion, number, false, now) == discount_lines(
                promotion,
                number,
                true,
                now,
            ).push(dashes)
        }),
{
    let lines = discount_lines(promotion, number, true, now);
    let dashes = Seq::new(80, |i: int| '-');
    assert(rule_of('-') =~= dashes);
    assert(discount_lines(promotion, number, false, now) =~= lines.push(dashes));
    let head = seq![
        "\n"@ + urgency_of(end.units_since(now, 3_600)) + " DISCOUNT #"@ + decimal(number),
        "Promotion ID: "@ + promotion.promotionId,
        "Type: "@ + promotion.promotionType,
        "Status: "@ + promotion.promotionStatus,
        "Name: "@ + name,
    ];
    let dates = seq![
        "Start: "@ + promotion.startDate,
        "End:   "@ + promotion.endDate,
        "Time Remaining: "@ + remaining_of(end, now),
    ];
    if let Some(text) = promotion.description {
        assert(lines =~= head.push("Description: "@ + text) + dates);
    } else {
        assert(lines =~= head + dates);
    }
}

/// The promotions are shown one behind the other, numbered from one, each as of
/// the time on the clock when its turn came.
pub proof fn law_discounts_are_numbered_in_turn(
    discounts: Seq<PromotionModel>,
    clock: Seq<UtcTime>,
    n: nat,
)
    requires
        n < discounts.len(),
    ensures
        all_discount_lines(discounts, clock, 0) == Seq::<Seq<char>>::empty(),
        all_discount_lines(discounts, clock, n + 1) == all_discount_lines(discounts, clock, n)
            + discount_lines(
            discounts[n as int],
            n + 1,
            n + 1 == discounts.len(),
            clock[n as int],
        ),
{
}

/// What is shown as a whole: a heading, the promotions, and the counts of all
/// promotions and of those shown, by type and by status. Where there is nothing
/// to show, one line says so. Both name the window.
pub proof fn law_display_shows_promotions_and_counts(
    discounts: Seq<PromotionModel>,
    window: int,
    clock: Seq<UtcTime>,
    all: CountModel,
    expiring: CountModel,
)
    ensures
        ({
            let lines = display_lines(discounts, window, clock, all, expiring);
            let rule = Seq::new(80, |i: int| '=');
            &&& discounts.len() == 0 ==> lines == seq![
                "No discounts expiring within "@ + signed_decimal(window) + " hours."@,
            ]
            &&& discounts.len() > 0 ==> lines == seq![
                rule,
                "DISCOUNTS EXPIRING WITHIN "@ + signed_decimal(window) + " HOURS"@,
                rule,
            ] + all_discount_lines(discounts, clock, discounts.len()) + seq![
                rule,
                "TALLY"@,
                rule,
                "Recognized discounts (all): "@ + decimal(all.total),
            ] + tally_lines("By type (all)"@, all.by_type) + tally_lines(
                "By status (all)"@,
                all.by_status,
            ) + seq!["---"@, "Expiring within window: "@ + decimal(expiring.total)] + tally_lines(
                "By type (expiring)"@,
                expiring.by_type,
            ) + tally_lines("By status (expiring)"@, expiring.by_status) + seq![rule]
        }),
{
    let rule = Seq::new(80, |i: int| '=');
    assert(rule_of('=') =~= rule);
    if discounts.len() > 0 {
        let front = seq![
            rule,
            "DISCOUNTS EXPIRING WITHIN "@ + signed_decimal(window) + " HOURS"@,
            rule,
        ] + all_discount_lines(discounts, clock, discounts.len());
        let a = seq![
            rule,
            "TALLY"@,
            rule,
            "Recognized discounts (all): "@ + decimal(all.total),
        ];
        let b = tally_lines("By type (all)"@, all.by_type);
        let c = tally_lines("By status (all)"@, all.by_status);
        let d = seq!["---"@, "Expiring within window: "@ + decimal(expiring.total)];
        let e = tally_lines("By type (expiring)"@, expiring.by_type);
        let f = tally_lines("By status (expiring)"@, expiring.by_status);
        let g = seq![rule];
        assert(count_lines(all, expiring) == a + b + c + d + e + f + g);
        assert(front + (a + b + c + d + e + f + g) =~= front + a + b + c + d + e + f + g);
    }
}

/// What is counted of promotions: how many there are, and how often each type
/// and each status stands among them.
pub proof fn law_counts_are_those_of_the_promotions(list: Seq<PromotionModel>, counts: CountModel)
    requires
        counts_promotions(list, counts),
    ensures
        counts.total == list.len(),
        is_tally(types_of(list), counts.by_type),
        is_tally(statuses_of(list), counts.by_status),
{
}

} // verus!
