//! The order in which actions are carried out.
use crate::action::{actions_model, ActionModel, PromotionAction};
use vstd::prelude::*;

verus! {

/// The place of a kind of action in the order of execution: listings are taken
/// out first, then promotions end, then ends move, then fallback promotions
/// start, and markdown sales start last.
pub open spec fn execution_rank(action: ActionModel) -> nat {
    match action {
        ActionModel::RemoveListing(_, _) => 0,
        ActionModel::End(_) => 1,
        ActionModel::UpdateEnd(_, _) => 2,
        ActionModel::StartFallback(_, _, _, _) => 3,
        ActionModel::StartMarkdown(_, _, _) => 4,
    }
}

/// The actions of one rank, in the order given.
pub open spec fn of_rank(actions: Seq<ActionModel>, rank: nat) -> Seq<ActionModel> {
    actions.filter(|action: ActionModel| execution_rank(action) == rank)
}

/// The actions in the order of execution: one kind after the other, each kind
/// in the order given.
pub open spec fn in_execution_order(actions: Seq<ActionModel>) -> Seq<ActionModel> {
    of_rank(actions, 0) + of_rank(actions, 1) + of_rank(actions, 2) + of_rank(actions, 3)
        + of_rank(actions, 4)
}

/// One more action belongs to the actions of its rank, and to no others.
proof fn lemma_of_rank_push(actions: Seq<ActionModel>, n: int, rank: nat)
    requires
        0 <= n < actions.len(),
    ensures
        of_rank(actions.take(n + 1), rank) == (if execution_rank(actions[n]) == rank {
            of_rank(actions.take(n), rank).push(actions[n])
        } else {
            of_rank(actions.take(n), rank)
        }),
{
    reveal(Seq::filter);
    assert(actions.take(n + 1).drop_last() =~= actions.take(n));
}

proof fn lemma_model_push(list: Seq<PromotionAction>, action: PromotionAction)
    ensures
        actions_model(list.push(action)) == actions_model(list).push(action@),
{
    assert(actions_model(list.push(action)) =~= actions_model(list).push(action@));
}

proof fn lemma_model_join(a: Seq<PromotionAction>, b: Seq<PromotionAction>)
    ensures
        actions_model(a + b) == actions_model(a) + actions_model(b),
{
    assert(actions_model(a + b) =~= actions_model(a) + actions_model(b));
}

/// Puts actions in the order of execution.
pub fn execution_order(actions: Vec<PromotionAction>) -> (r: Vec<PromotionAction>)
    ensures
        actions_model(r@) == in_execution_order(actions_model(actions@)),
{
    let ghost all = actions_model(actions@);
    let mut removals: Vec<PromotionAction> = Vec::new();
    let mut ends: Vec<PromotionAction> = Vec::new();
    let mut updates: Vec<PromotionAction> = Vec::new();
    let mut fallbacks: Vec<PromotionAction> = Vec::new();
    let mut sales: Vec<PromotionAction> = Vec::new();
    proof {
        reveal(Seq::filter);
        assert(all.take(0) =~= Seq::empty());
        assert(actions_model(removals@) =~= of_rank(all.take(0), 0));
        assert(actions_model(ends@) =~= of_rank(all.take(0), 1));
        assert(actions_model(updates@) =~= of_rank(all.take(0), 2));
        assert(actions_model(fallbacks@) =~= of_rank(all.take(0), 3));
        assert(actions_model(sales@) =~= of_rank(all.take(0), 4));
    }
    for action in it: actions
        invariant
            all == actions_model(it.seq()),
            actions_model(removals@) == of_rank(all.take(it.index()), 0),
            actions_model(ends@) == of_rank(all.take(it.index()), 1),
            actions_model(updates@) == of_rank(all.take(it.index()), 2),
            actions_model(fallbacks@) == of_rank(all.take(it.index()), 3),
            actions_model(sales@) == of_rank(all.take(it.index()), 4),
    {
        proof {
            let n = it.index();
            assert(all[n] == action@);
            lemma_of_rank_push(all, n, 0);
            lemma_of_rank_push(all, n, 1);
            lemma_of_rank_push(all, n, 2);
            lemma_of_rank_push(all, n, 3);
            lemma_of_rank_push(all, n, 4);
            lemma_model_push(removals@, action);
            lemma_model_push(ends@, action);
            lemma_model_push(updates@, action);
            lemma_model_push(fallbacks@, action);
            lemma_model_push(sales@, action);
        }
        match &action {
            PromotionAction::RemoveListing(_, _) => removals.push(action),
            PromotionAction::End(_) => ends.push(action),
            PromotionAction::UpdateEnd(_, _) => updates.push(action),
            PromotionAction::StartFallback(_, _, _, _) => fallbacks.push(action),
            PromotionAction::StartMarkdown(_, _, _) => sales.push(action),
        }
    }
    proof {
        assert(all.take(all.len() as int) =~= all);
        lemma_model_join(removals@, ends@);
        lemma_model_join(removals@ + ends@, updates@);
        lemma_model_join(removals@ + ends@ + updates@, fallbacks@);
        lemma_model_join(removals@ + ends@ + updates@ + fallbacks@, sales@);
    }
    let mut ordered: Vec<PromotionAction> = removals;
    ordered.append(&mut ends);
    ordered.append(&mut updates);
    ordered.append(&mut fallbacks);
    ordered.append(&mut sales);
    ordered
}

proof fn lemma_ranks_partition(actions: Seq<ActionModel>, n: nat)
    requires
        n <= actions.len(),
    ensures
        actions.take(n as int).to_multiset() =~= of_rank(
            actions.take(n as int),
            0,
        ).to_multiset().add(of_rank(actions.take(n as int), 1).to_multiset()).add(
            of_rank(actions.take(n as int), 2).to_multiset(),
        ).add(of_rank(actions.take(n as int), 3).to_multiset()).add(
            of_rank(actions.take(n as int), 4).to_multiset(),
        ),
    decreases n,
{
    broadcast use vstd::seq_lib::group_to_multiset_ensures;

    reveal(Seq::filter);
    if n > 0 {
        let k = n - 1;
        lemma_ranks_partition(actions, k as nat);
        lemma_of_rank_push(actions, k, 0);
        lemma_of_rank_push(actions, k, 1);
        lemma_of_rank_push(actions, k, 2);
        lemma_of_rank_push(actions, k, 3);
        lemma_of_rank_push(actions, k, 4);
        assert(actions.take(n as int) =~= actions.take(k).push(actions[k]));
    }
}

/// Putting actions in the order of execution adds none, drops none, and
/// changes none.
pub proof fn law_order_keeps_the_actions(actions: Seq<ActionModel>)
    ensures
        in_execution_order(actions).to_multiset() == actions.to_multiset(),
{
    let a = of_rank(actions, 0);
    let b = of_rank(actions, 1);
    let c = of_rank(actions, 2);
    let d = of_rank(actions, 3);
    let e = of_rank(actions, 4);
    assert(actions.take(actions.len() as int) =~= actions);
    lemma_ranks_partition(actions, actions.len());
    vstd::seq_lib::lemma_multiset_commutative(a, b);
    vstd::seq_lib::lemma_multiset_commutative(a + b, c);
    vstd::seq_lib::lemma_multiset_commutative(a + b + c, d);
    vstd::seq_lib::lemma_multiset_commutative(a + b + c + d, e);
}

proof fn lemma_of_rank_has_rank(actions: Seq<ActionModel>, rank: nat)
    ensures
        forall|i: int|
            0 <= i < of_rank(actions, rank).len() ==> execution_rank(
                #[trigger] of_rank(actions, rank)[i],
            ) == rank,
    decreases actions.len(),
{
    reveal(Seq::filter);
    if actions.len() > 0 {
        lemma_of_rank_has_rank(actions.drop_last(), rank);
    }
}

/// Actions are carried out kind by kind: taking out listings, ending, moving
/// ends, starting fallback promotions, starting markdown sales.
pub proof fn law_order_goes_by_kind(actions: Seq<ActionModel>, i: int, j: int)
    requires
        0 <= i < j < in_execution_order(actions).len(),
    ensures
        execution_rank(in_execution_order(actions)[i]) <= execution_rank(
            in_execution_order(actions)[j],
        ),
{
    lemma_of_rank_has_rank(actions, 0);
    lemma_of_rank_has_rank(actions, 1);
    lemma_of_rank_has_rank(actions, 2);
    lemma_of_rank_has_rank(actions, 3);
    lemma_of_rank_has_rank(actions, 4);
}

proof fn lemma_rank_within_rank(actions: Seq<ActionModel>, inner: nat, outer: nat)
    ensures
        of_rank(of_rank(actions, inner), outer) == (if inner == outer {
            of_rank(actions, inner)
        } else {
            Seq::empty()
        }),
    decreases actions.len(),
{
    reveal(Seq::filter);
    if actions.len() > 0 {
        let shorter = actions.drop_last();
        lemma_rank_within_rank(shorter, inner, outer);
        if execution_rank(actions.last()) == inner {
            assert(of_rank(actions, inner).drop_last() =~= of_rank(shorter, inner));
        }
    }
}

/// Actions of one kind keep the order given.
pub proof fn law_order_keeps_each_kind(actions: Seq<ActionModel>, rank: nat)
    requires
        rank <= 4,
    ensures
        of_rank(in_execution_order(actions), rank) == of_rank(actions, rank),
{
    let pred = |action: ActionModel| execution_rank(action) == rank;
    let a = of_rank(actions, 0);
    let b = of_rank(actions, 1);
    let c = of_rank(actions, 2);
    let d = of_rank(actions, 3);
    let e = of_rank(actions, 4);
    Seq::filter_distributes_over_add(a, b, pred);
    Seq::filter_distributes_over_add(a + b, c, pred);
    Seq::filter_distributes_over_add(a + b + c, d, pred);
    Seq::filter_distributes_over_add(a + b + c + d, e, pred);
    lemma_rank_within_rank(actions, 0, rank);
    lemma_rank_within_rank(actions, 1, rank);
    lemma_rank_within_rank(actions, 2, rank);
    lemma_rank_within_rank(actions, 3, rank);
    lemma_rank_within_rank(actions, 4, rank);
    assert(of_rank(in_execution_order(actions), rank) =~= of_rank(a, rank) + of_rank(b, rank)
        + of_rank(c, rank) + of_rank(d, rank) + of_rank(e, rank));
    assert(of_rank(in_execution_order(actions), rank) =~= of_rank(actions, rank));
}

/// Nothing is carried out before the kinds that come first: listings are taken
/// out first of all, ends come before moved ends, these before anything starts,
/// and fallback promotions start before markdown sales.
pub proof fn law_kinds_come_in_turn(actions: Seq<ActionModel>, i: int, j: int)
    requires
        0 <= i < j < in_execution_order(actions).len(),
    ensures
        ({
            let earlier = in_execution_order(actions)[i];
            let later = in_execution_order(actions)[j];
            &&& later is RemoveListing ==> earlier is RemoveListing
            &&& later is End ==> earlier is RemoveListing || earlier is End
            &&& later is UpdateEnd ==> !(earlier is StartFallback) && !(earlier is StartMarkdown)
            &&& later is StartFallback ==> !(earlier is StartMarkdown)
        }),
{
    law_order_goes_by_kind(actions, i, j);
}

/// Of each kind all actions are carried out, in the order given: leaving out the
/// other kinds before or after the ordering comes to the same.
pub proof fn law_each_kind_stays_in_order(actions: Seq<ActionModel>)
    ensures
        in_execution_order(actions).filter(|a: ActionModel| a is RemoveListing) == actions.filter(
            |a: ActionModel| a is RemoveListing,
        ),
        in_execution_order(actions).filter(|a: ActionModel| a is End) == actions.filter(
            |a: ActionModel| a is End,
        ),
        in_execution_order(actions).filter(|a: ActionModel| a is UpdateEnd) == actions.filter(
            |a: ActionModel| a is UpdateEnd,
        ),
        in_execution_order(actions).filter(|a: ActionModel| a is StartFallback) == actions.filter(
            |a: ActionModel| a is StartFallback,
        ),
        in_execution_order(actions).filter(|a: ActionModel| a is StartMarkdown) == actions.filter(
            |a: ActionModel| a is StartMarkdown,
        ),
{
    lemma_kind_stays_in_order(actions, 0, |a: ActionModel| a is RemoveListing);
    lemma_kind_stays_in_order(actions, 1, |a: ActionModel| a is End);
    lemma_kind_stays_in_order(actions, 2, |a: ActionModel| a is UpdateEnd);
    lemma_kind_stays_in_order(actions, 3, |a: ActionModel| a is StartFallback);
    lemma_kind_stays_in_order(actions, 4, |a: ActionModel| a is StartMarkdown);
}

proof fn lemma_kind_stays_in_order(
    actions: Seq<ActionModel>,
    rank: nat,
    pred: spec_fn(ActionModel) -> bool,
)
    requires
        rank <= 4,
        forall|a: ActionModel| #[trigger] pred(a) <==> execution_rank(a) == rank,
    ensures
        in_execution_order(actions).filter(pred) == actions.filter(pred),
{
    law_order_keeps_each_kind(actions, rank);
    lemma_of_rank_is_a_filter(actions, rank, pred);
    lemma_of_rank_is_a_filter(in_execution_order(actions), rank, pred);
}

proof fn lemma_of_rank_is_a_filter(
    actions: Seq<ActionModel>,
    rank: nat,
    pred: spec_fn(ActionModel) -> bool,
)
    requires
        forall|a: ActionModel| #[trigger] pred(a) <==> execution_rank(a) == rank,
    ensures
        of_rank(actions, rank) == actions.filter(pred),
    decreases actions.len(),
{
    reveal(Seq::filter);
    if actions.len() > 0 {
        lemma_of_rank_is_a_filter(actions.drop_last(), rank, pred);
        assert(pred(actions.last()) <==> execution_rank(actions.last()) == rank);
    }
}

} // verus!
