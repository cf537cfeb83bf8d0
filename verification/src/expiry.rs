//! Which promotions are about to expire.
use crate::model::{promotions_model, PromotionModel, PromotionSummary};
use crate::text::same_text;
use crate::time::{moment_in, parse_rfc3339, utc_now, UtcTime, LONGEST_SPAN, SECONDS_PER_HOUR};
use vstd::prelude::*;

verus! {

/// Whether a promotion in this state can expire.
pub open spec fn can_expire(status: Seq<char>) -> bool {
    status == "RUNNING"@ || status == "SCHEDULED"@ || status == "PAUSED"@
}

/// Whether actions are planned for a promotion in this state: it is running.
pub open spec fn is_planned_for(status: Seq<char>) -> bool {
    status == "RUNNING"@
}

/// Whether a promotion expires by a point in time: it can expire, and gives an
/// end that is not later.
pub open spec fn expires_by(promotion: PromotionModel, limit: UtcTime) -> bool {
    &&& can_expire(promotion.promotionStatus)
    &&& moment_in(promotion.endDate) matches Some(end) && !limit.precedes(end)
}

/// Whether the promotion at `i` comes before the one at `j`: it ends earlier,
/// or at the same time and stands before it.
pub open spec fn comes_first(list: Seq<PromotionModel>, i: int, j: int) -> bool {
    let a = moment_in(list[i].endDate)->0;
    let b = moment_in(list[j].endDate)->0;
    a.precedes(b) || (a == b && i < j)
}

/// Whether `order` gives the positions of the promotions of a list that expire
/// by a point in time: all of them, no others, the one that ends first at the
/// front.
pub open spec fn is_expiry_order(
    list: Seq<PromotionModel>,
    limit: UtcTime,
    order: Seq<int>,
) -> bool {
    &&& forall|k: int|
        0 <= k < order.len() ==> 0 <= #[trigger] order[k] < list.len() && expires_by(
            list[order[k]],
            limit,
        )
    &&& forall|k: int, l: int|
        0 <= k < l < order.len() ==> comes_first(list, #[trigger] order[k], #[trigger] order[l])
    &&& forall|i: int|
        0 <= i < list.len() && expires_by(#[trigger] list[i], limit) ==> order.contains(i)
}

/// The promotions at the given positions.
pub open spec fn picked(list: Seq<PromotionModel>, order: Seq<int>) -> Seq<PromotionModel> {
    Seq::new(order.len(), |k: int| list[order[k]])
}

/// Whether a promotion is one that actions are planned for.
pub fn should_plan(promotion: &PromotionSummary) -> (r: bool)
    ensures
        r == is_planned_for(promotion@.promotionStatus),
{
    same_text(promotion.promotionStatus.as_str(), "RUNNING")
}

/// The end of a promotion, if it expires by a point in time.
fn expiry_by(promotion: &PromotionSummary, limit: UtcTime) -> (r: Option<UtcTime>)
    ensures
        r is Some == expires_by(promotion@, limit),
        r is Some ==> r == moment_in(promotion@.endDate),
{
    let status: &str = promotion.promotionStatus.as_str();
    if same_text(status, "RUNNING") || same_text(status, "SCHEDULED") || same_text(
        status,
        "PAUSED",
    ) {
        match parse_rfc3339(promotion.endDate.as_str()) {
            Some(end) => if limit.is_before(&end) {
                None
            } else {
                Some(end)
            },
            None => None,
        }
    } else {
        None
    }
}

/// The positions in an order, as integers.
spec fn positions(order: Seq<usize>) -> Seq<int> {
    Seq::new(order.len(), |k: int| order[k] as int)
}

/// Whether `order` is the expiry order of the first `n` promotions.
spec fn orders_first(
    list: Seq<PromotionModel>,
    limit: UtcTime,
    order: Seq<usize>,
    ends: Seq<UtcTime>,
    n: int,
) -> bool {
    &&& ends.len() == order.len()
    &&& forall|k: int|
        0 <= k < order.len() ==> 0 <= #[trigger] order[k] < n && expires_by(
            list[order[k] as int],
            limit,
        ) && moment_in(list[order[k] as int].endDate) == Some(ends[k])
    &&& forall|k: int, l: int|
        0 <= k < l < order.len() ==> comes_first(
            list,
            #[trigger] order[k] as int,
            #[trigger] order[l] as int,
        )
    &&& forall|i: int|
        0 <= i < n && expires_by(#[trigger] list[i], limit) ==> exists|k: int|
            0 <= k < order.len() && #[trigger] order[k] == i
}

proof fn lemma_insertion(
    list: Seq<PromotionModel>,
    limit: UtcTime,
    order: Seq<usize>,
    ends: Seq<UtcTime>,
    n: usize,
    at: int,
    end: UtcTime,
)
    requires
        n < list.len(),
        orders_first(list, limit, order, ends, n as int),
        expires_by(list[n as int], limit),
        moment_in(list[n as int].endDate) == Some(end),
        0 <= at <= order.len(),
        at > 0 ==> !end.precedes(ends[at - 1]),
        at < order.len() ==> end.precedes(ends[at]),
    ensures
        orders_first(list, limit, order.insert(at, n), ends.insert(at, end), n + 1),
{
    let new_order = order.insert(at, n);
    let new_ends = ends.insert(at, end);
    assert forall|k: int| 0 <= k < at implies comes_first(list, order[k] as int, n as int) by {
        assert(order[k] < n);
        assert(order[at - 1] < n);
        if k < at - 1 {
            assert(comes_first(list, order[k] as int, order[at - 1] as int));
        }
    }
    assert forall|l: int| at <= l < order.len() implies comes_first(
        list,
        n as int,
        order[l] as int,
    ) by {
        assert(order[at] < n);
        assert(order[l] < n);
        if at < l {
            assert(comes_first(list, order[at] as int, order[l] as int));
        }
    }
    assert forall|k: int, l: int| 0 <= k < l < new_order.len() implies comes_first(
        list,
        #[trigger] new_order[k] as int,
        #[trigger] new_order[l] as int,
    ) by {
        let ok = if k < at {
            k
        } else {
            k - 1
        };
        let ol = if l < at {
            l
        } else {
            l - 1
        };
        if k == at {
            assert(new_order[l] == order[ol]);
        } else if l == at {
            assert(new_order[k] == order[ok]);
        } else {
            assert(new_order[k] == order[ok]);
            assert(new_order[l] == order[ol]);
        }
    }
    assert forall|i: int| 0 <= i < n + 1 && expires_by(#[trigger] list[i], limit) implies exists|
        k: int,
    | 0 <= k < new_order.len() && #[trigger] new_order[k] == i by {
        if i == n {
            assert(new_order[at] == i);
        } else {
            let k = choose|k: int| 0 <= k < order.len() && #[trigger] order[k] == i;
            if k < at {
                assert(new_order[k] == i);
            } else {
                assert(new_order[k + 1] == i);
            }
        }
    }
}

/// The promotions that expire within some hours from `now`, the one that ends
/// first at the front.
pub fn filter_expiring_at(v: &[PromotionSummary], now: UtcTime, hours: i64) -> (r: Vec<
    PromotionSummary,
>)
    requires
        now.valid(),
        now.reaches(hours * SECONDS_PER_HOUR),
    ensures
        exists|order: Seq<int>| #[trigger]
            is_expiry_order(
                promotions_model(v@),
                now.after(hours * SECONDS_PER_HOUR),
                order,
            ) && promotions_model(r@) == picked(promotions_model(v@), order),
{
    let limit: UtcTime = now.moved(hours * SECONDS_PER_HOUR);
    let ghost list = promotions_model(v@);
    let mut order: Vec<usize> = Vec::new();
    let mut ends: Vec<UtcTime> = Vec::new();
    let mut i: usize = 0;
    while i < v.len()
        invariant
            i <= v@.len(),
            list == promotions_model(v@),
            orders_first(list, limit, order@, ends@, i as int),
        decreases v.len() - i,
    {
        if let Some(end) = expiry_by(&v[i], limit) {
            let mut at: usize = order.len();
            while at > 0 && end.is_before(&ends[at - 1])
                invariant
                    at <= order@.len(),
                    ends@.len() == order@.len(),
                    at < order@.len() ==> end.precedes(ends@[at as int]),
                decreases at,
            {
                at -= 1;
            }
            proof {
                lemma_insertion(list, limit, order@, ends@, i, at as int, end);
            }
            order.insert(at, i);
            ends.insert(at, end);
        }
        i += 1;
    }
    let mut out: Vec<PromotionSummary> = Vec::new();
    let mut k: usize = 0;
    while k < order.len()
        invariant
            k <= order@.len(),
            list == promotions_model(v@),
            orders_first(list, limit, order@, ends@, v@.len() as int),
            promotions_model(out@) == picked(list, positions(order@)).take(k as int),
        decreases order.len() - k,
    {
        let ghost before = out@;
        proof {
            assert(order@[k as int] < v@.len());
        }
        out.push(v[order[k]].clone());
        proof {
            let all = picked(list, positions(order@));
            assert(promotions_model(out@) =~= promotions_model(before).push(out@.last()@));
            assert(all.take(k + 1) =~= all.take(k as int).push(all[k as int]));
        }
        k += 1;
    }
    proof {
        let all = picked(list, positions(order@));
        let found = positions(order@);
        assert(all.take(order@.len() as int) =~= all);
        assert forall|j: int| 0 <= j < list.len() && expires_by(#[trigger] list[j], limit) implies
            found.contains(j) by {
            let at = choose|at: int| 0 <= at < order@.len() && #[trigger] order@[at] == j;
            assert(found[at] == j);
        }
        assert(is_expiry_order(list, limit, found)) by {
            assert forall|a: int| 0 <= a < found.len() implies 0 <= #[trigger] found[a]
                < list.len() && expires_by(list[found[a]], limit) by {
                assert(found[a] == order@[a] as int);
            }
            assert forall|a: int, b: int| 0 <= a < b < found.len() implies comes_first(
                list,
                #[trigger] found[a],
                #[trigger] found[b],
            ) by {
                assert(comes_first(list, order@[a] as int, order@[b] as int));
            }
        }
    }
    out
}

/// The promotions that expire within some hours from `now`, the one that ends
/// first at the front, or `None` where that time is outside of the calendar.
pub fn filter_expiring_from(v: &[PromotionSummary], now: UtcTime, hours: i64) -> (r: Option<
    Vec<PromotionSummary>,
>)
    requires
        now.valid(),
    ensures
        r is Some == now.reaches(hours * SECONDS_PER_HOUR),
        r matches Some(out) ==> exists|order: Seq<int>| #[trigger]
            is_expiry_order(
                promotions_model(v@),
                now.after(hours * SECONDS_PER_HOUR),
                order,
            ) && promotions_model(out@) == picked(promotions_model(v@), order),
{
    if hours < -LONGEST_SPAN / SECONDS_PER_HOUR || hours > LONGEST_SPAN / SECONDS_PER_HOUR {
        return None;
    }
    if !now.can_move(hours * SECONDS_PER_HOUR) {
        return None;
    }
    Some(filter_expiring_at(v, now, hours))
}

/// The promotions that expire within some hours from now, the one that ends
/// first at the front, or `None` where that time is outside of the calendar.
pub fn filter_expiring(v: &[PromotionSummary], hours: i64) -> (r: Option<Vec<PromotionSummary>>)
    ensures
        exists|now: UtcTime|
            now.valid() && now.secs >= 0 && !now.is_leap() && r is Some == #[trigger] now.reaches(
                hours * SECONDS_PER_HOUR,
            ) && (r matches Some(out) ==> exists|order: Seq<int>| #[trigger]
                is_expiry_order(
                    promotions_model(v@),
                    now.after(hours * SECONDS_PER_HOUR),
                    order,
                ) && promotions_model(out@) == picked(promotions_model(v@), order)),
{
    let now: UtcTime = utc_now();
    let r: Option<Vec<PromotionSummary>> = filter_expiring_from(v, now, hours);
    proof {
        assert(r is Some == now.reaches(hours * SECONDS_PER_HOUR));
    }
    r
}

proof fn lemma_orders_agree(
    list: Seq<PromotionModel>,
    limit: UtcTime,
    a: Seq<int>,
    b: Seq<int>,
    n: nat,
)
    requires
        is_expiry_order(list, limit, a),
        is_expiry_order(list, limit, b),
        n <= a.len(),
    ensures
        n <= b.len(),
        a.take(n as int) == b.take(n as int),
    decreases n,
{
    if n > 0 {
        let k = n - 1;
        lemma_orders_agree(list, limit, a, b, k as nat);
        assert forall|i: int| 0 <= i < k implies a[i] == b[i] by {
            assert(a.take(k)[i] == b.take(k)[i]);
        }
        assert(expires_by(list[a[k]], limit));
        let j = choose|j: int| 0 <= j < b.len() && b[j] == a[k];
        if j < k {
            assert(comes_first(list, a[j], a[k]));
        }
        if j > k {
            assert(comes_first(list, b[k], b[j]));
            assert(expires_by(list[b[k]], limit));
            let m = choose|m: int| 0 <= m < a.len() && a[m] == b[k];
            if m < k {
                assert(comes_first(list, b[m], b[k]));
            }
            if m > k {
                assert(comes_first(list, a[k], a[m]));
            }
        }
        assert(a[k] == b[k]);
        assert(a.take(n as int) =~= b.take(n as int));
    }
}

/// There is only one order in which promotions expire: what is reported
/// depends on the list and the point in time alone.
pub proof fn law_expiry_order_is_unique(
    list: Seq<PromotionModel>,
    limit: UtcTime,
    a: Seq<int>,
    b: Seq<int>,
)
    requires
        is_expiry_order(list, limit, a),
        is_expiry_order(list, limit, b),
    ensures
        a == b,
{
    lemma_orders_agree(list, limit, a, b, a.len());
    lemma_orders_agree(list, limit, b, a, b.len());
    assert(a.take(a.len() as int) =~= a);
    assert(b.take(a.len() as int) =~= b);
}

/// A wider window reports every promotion that a narrower one reports.
pub proof fn law_wider_window_reports_more(
    promotion: PromotionModel,
    narrow: UtcTime,
    wide: UtcTime,
)
    requires
        !wide.precedes(narrow),
        expires_by(promotion, narrow),
    ensures
        expires_by(promotion, wide),
{
}

proof fn lemma_narrow_order_is_prefix(
    list: Seq<PromotionModel>,
    narrow: UtcTime,
    wide: UtcTime,
    a: Seq<int>,
    b: Seq<int>,
    n: nat,
)
    requires
        !wide.precedes(narrow),
        is_expiry_order(list, narrow, a),
        is_expiry_order(list, wide, b),
        n <= a.len(),
    ensures
        n <= b.len(),
        a.take(n as int) == b.take(n as int),
    decreases n,
{
    if n > 0 {
        let k = n - 1;
        lemma_narrow_order_is_prefix(list, narrow, wide, a, b, k as nat);
        assert forall|i: int| 0 <= i < k implies a[i] == b[i] by {
            assert(a.take(k)[i] == b.take(k)[i]);
        }
        assert(expires_by(list[a[k]], narrow));
        assert(expires_by(list[a[k]], wide));
        let j = choose|j: int| 0 <= j < b.len() && b[j] == a[k];
        if j < k {
            assert(comes_first(list, a[j], a[k]));
        }
        if j > k {
            assert(comes_first(list, b[k], b[j]));
            assert(expires_by(list[b[k]], wide));
            assert(expires_by(list[b[k]], narrow));
            let m = choose|m: int| 0 <= m < a.len() && a[m] == b[k];
            if m < k {
                assert(comes_first(list, b[m], b[k]));
            }
            if m > k {
                assert(comes_first(list, a[k], a[m]));
            }
        }
        assert(a[k] == b[k]);
        assert(a.take(n as int) =~= b.take(n as int));
    }
}

/// What a narrower window reports is the beginning of what a wider one reports
/// at the same time.
pub proof fn law_narrower_window_reports_the_beginning(
    list: Seq<PromotionModel>,
    now: UtcTime,
    narrow: int,
    wide: int,
    a: Seq<int>,
    b: Seq<int>,
)
    requires
        now.valid(),
        narrow <= wide,
        now.reaches(narrow * SECONDS_PER_HOUR),
        now.reaches(wide * SECONDS_PER_HOUR),
        is_expiry_order(list, now.after(narrow * SECONDS_PER_HOUR), a),
        is_expiry_order(list, now.after(wide * SECONDS_PER_HOUR), b),
    ensures
        a.len() <= b.len(),
        a == b.take(a.len() as int),
        picked(list, a) == picked(list, b).take(a.len() as int),
{
    let first = now.after(narrow * SECONDS_PER_HOUR);
    let second = now.after(wide * SECONDS_PER_HOUR);
    assert(!second.precedes(first));
    lemma_narrow_order_is_prefix(list, first, second, a, b, a.len());
    assert(a.take(a.len() as int) =~= a);
    assert(picked(list, a) =~= picked(list, b).take(a.len() as int)) by {
        assert forall|k: int| 0 <= k < a.len() implies a[k] == b[k] by {
            assert(a[k] == b.take(a.len() as int)[k]);
        }
    }
}

/// What is reported as expiring is reported unchanged when it is filtered
/// again at the same time.
pub proof fn law_filtering_again_changes_nothing(
    list: Seq<PromotionModel>,
    limit: UtcTime,
    a: Seq<int>,
    b: Seq<int>,
)
    requires
        is_expiry_order(list, limit, a),
        is_expiry_order(picked(list, a), limit, b),
    ensures
        picked(picked(list, a), b) == picked(list, a),
{
    let found = picked(list, a);
    let same = Seq::new(a.len(), |k: int| k);
    assert(is_expiry_order(found, limit, same)) by {
        assert forall|k: int| 0 <= k < same.len() implies 0 <= #[trigger] same[k] < found.len()
            && expires_by(found[same[k]], limit) by {
            assert(expires_by(list[a[k]], limit));
        }
        assert forall|k: int, l: int| 0 <= k < l < same.len() implies comes_first(
            found,
            #[trigger] same[k],
            #[trigger] same[l],
        ) by {
            assert(comes_first(list, a[k], a[l]));
        }
        assert forall|i: int| 0 <= i < found.len() && expires_by(#[trigger] found[i], limit) implies
            same.contains(i) by {
            assert(same[i] == i);
        }
    }
    law_expiry_order_is_unique(found, limit, b, same);
    assert(picked(found, same) =~= found);
}

/// Status and end alone decide whether a promotion is reported: it is running,
/// scheduled or paused, and its end date reads as a point that is not later
/// than the limit. Its type and its other fields play no part.
pub proof fn law_status_and_end_decide(promotion: PromotionModel, limit: UtcTime)
    ensures
        expires_by(promotion, limit) <==> {
            &&& promotion.promotionStatus == "RUNNING"@ || promotion.promotionStatus
                == "SCHEDULED"@ || promotion.promotionStatus == "PAUSED"@
            &&& moment_in(promotion.endDate) matches Some(end) && (end.secs < limit.secs || (
            end.secs == limit.secs && end.nanos <= limit.nanos))
        },
{
}

/// Promotions that agree in status and end date are both reported or both left
/// out.
pub proof fn law_like_promotions_are_treated_alike(
    a: PromotionModel,
    b: PromotionModel,
    limit: UtcTime,
)
    requires
        a.promotionStatus == b.promotionStatus,
        a.endDate == b.endDate,
    ensures
        expires_by(a, limit) == expires_by(b, limit),
{
}

/// What is reported: every promotion that runs, is scheduled or paused, and
/// ends by the limit, each once, no other, and each as it stands in the list.
pub proof fn law_report_is_complete(
    list: Seq<PromotionModel>,
    limit: UtcTime,
    order: Seq<int>,
    i: int,
)
    requires
        is_expiry_order(list, limit, order),
        0 <= i < list.len(),
    ensures
        order.contains(i) <==> {
            &&& list[i].promotionStatus == "RUNNING"@ || list[i].promotionStatus == "SCHEDULED"@
                || list[i].promotionStatus == "PAUSED"@
            &&& moment_in(list[i].endDate) matches Some(end) && (end.secs < limit.secs || (end.secs
                == limit.secs && end.nanos <= limit.nanos))
        },
        order.no_duplicates(),
        picked(list, order).len() == order.len(),
        forall|k: int|
            0 <= k < order.len() ==> 0 <= #[trigger] order[k] < list.len() && picked(
                list,
                order,
            )[k] == list[order[k]],
{
    if order.contains(i) {
        let k = choose|k: int| 0 <= k < order.len() && order[k] == i;
        assert(expires_by(list[order[k]], limit));
    }
    assert forall|k: int, l: int| 0 <= k < order.len() && 0 <= l < order.len() && k != l implies
        order[k] != order[l] by {
        if k < l {
            assert(comes_first(list, order[k], order[l]));
        } else {
            assert(comes_first(list, order[l], order[k]));
        }
    }
}

/// What is reported further ahead does not end later, and of promotions that
/// end at the same time the one further ahead stands further ahead in the list.
pub proof fn law_report_goes_by_end(
    list: Seq<PromotionModel>,
    limit: UtcTime,
    order: Seq<int>,
    k: int,
    l: int,
)
    requires
        is_expiry_order(list, limit, order),
        0 <= k < l < order.len(),
    ensures
        moment_in(picked(list, order)[k].endDate) matches Some(first) && moment_in(
            picked(list, order)[l].endDate,
        ) matches Some(second) && (first.secs < second.secs || (first.secs == second.secs
            && first.nanos < second.nanos) || (first == second && order[k] < order[l])),
{
    assert(expires_by(list[order[k]], limit));
    assert(expires_by(list[order[l]], limit));
    assert(comes_first(list, order[k], order[l]));
}

/// Actions are planned for running promotions, and for no others.
pub proof fn law_only_running_promotions_are_planned_for(status: Seq<char>)
    ensures
        is_planned_for(status) <==> status == "RUNNING"@,
{
}

} // verus!
