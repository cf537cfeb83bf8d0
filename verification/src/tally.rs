//! Counting promotions by a label, in the order of the labels.
use crate::model::{promotions_model, PromotionModel, PromotionSummary};
use crate::text::{chars_of, decimal, decimal_text, enclosed, joined, texts};
use vstd::prelude::*;
use vstd::string::*;

verus! {

/// The order of texts: by the first character that differs, and the shorter
/// one first where none does.
pub open spec fn text_precedes(a: Seq<char>, b: Seq<char>) -> bool
    decreases a.len(),
{
    if b.len() == 0 {
        false
    } else if a.len() == 0 {
        true
    } else if a[0] != b[0] {
        a[0] < b[0]
    } else {
        text_precedes(a.skip(1), b.skip(1))
    }
}

/// How one text stands to another.
#[derive(Clone, Copy, Debug, PartialEq, Eq, Structural)]
pub enum TextOrder {
    Before,
    Same,
    Behind,
}

/// Texts are ordered one way or the other, and never both ways.
pub proof fn law_text_order_is_total(a: Seq<char>, b: Seq<char>)
    ensures
        a == b ==> !text_precedes(a, b),
        a != b ==> text_precedes(a, b) != text_precedes(b, a),
    decreases a.len(),
{
    if a.len() > 0 && b.len() > 0 && a[0] == b[0] {
        law_text_order_is_total(a.skip(1), b.skip(1));
        if a.skip(1) == b.skip(1) {
            assert(a =~= seq![a[0]] + a.skip(1));
            assert(b =~= seq![b[0]] + b.skip(1));
        }
    } else if a.len() == 0 && b.len() == 0 {
        assert(a =~= b);
    }
}

/// What comes before a text comes before all that the text comes before.
pub proof fn law_text_order_is_transitive(a: Seq<char>, b: Seq<char>, c: Seq<char>)
    requires
        text_precedes(a, b),
        text_precedes(b, c),
    ensures
        text_precedes(a, c),
    decreases a.len(),
{
    if a.len() > 0 && a[0] == b[0] && b[0] == c[0] {
        law_text_order_is_transitive(a.skip(1), b.skip(1), c.skip(1));
    }
}

/// How one text stands to another.
pub fn text_order(a: &str, b: &str) -> (r: TextOrder)
    ensures
        r is Same <==> a@ == b@,
        r is Before <==> text_precedes(a@, b@),
        r is Behind <==> text_precedes(b@, a@),
{
    let x: Vec<char> = chars_of(a);
    let y: Vec<char> = chars_of(b);
    proof {
        law_text_order_is_total(a@, b@);
        assert(a@.skip(0) =~= a@);
        assert(b@.skip(0) =~= b@);
    }
    let mut i: usize = 0;
    while i < x.len() && i < y.len() && x[i] == y[i]
        invariant
            x@ == a@,
            y@ == b@,
            i <= x@.len(),
            i <= y@.len(),
            text_precedes(a@, b@) == text_precedes(a@.skip(i as int), b@.skip(i as int)),
            text_precedes(b@, a@) == text_precedes(b@.skip(i as int), a@.skip(i as int)),
            forall|k: int| 0 <= k < i ==> a@[k] == b@[k],
        decreases x.len() - i,
    {
        proof {
            assert(a@.skip(i as int).skip(1) =~= a@.skip(i + 1));
            assert(b@.skip(i as int).skip(1) =~= b@.skip(i + 1));
            assert(a@.skip(i as int)[0] == a@[i as int]);
            assert(b@.skip(i as int)[0] == b@[i as int]);
        }
        i += 1;
    }
    if i < x.len() && i < y.len() {
        proof {
            assert(a@.skip(i as int)[0] == a@[i as int]);
            assert(b@.skip(i as int)[0] == b@[i as int]);
            assert(a@ != b@);
        }
        if x[i] < y[i] {
            TextOrder::Before
        } else {
            TextOrder::Behind
        }
    } else if i < y.len() {
        proof {
            assert(a@.len() != b@.len());
        }
        TextOrder::Before
    } else if i < x.len() {
        proof {
            assert(a@.len() != b@.len());
        }
        TextOrder::Behind
    } else {
        proof {
            assert(a@ =~= b@);
        }
        TextOrder::Same
    }
}

/// How often a label stands in a list.
pub open spec fn occurrences(labels: Seq<Seq<char>>, label: Seq<char>) -> nat
    decreases labels.len(),
{
    if labels.len() == 0 {
        0
    } else {
        occurrences(labels.drop_last(), label) + if labels.last() == label {
            1nat
        } else {
            0nat
        }
    }
}

/// Whether `counts` gives how often each label stands in a list: each that
/// stands there once, in the order of the labels.
pub open spec fn is_tally(labels: Seq<Seq<char>>, counts: Seq<(Seq<char>, nat)>) -> bool {
    &&& forall|i: int, j: int|
        0 <= i < j < counts.len() ==> text_precedes(
            (#[trigger] counts[i]).0,
            (#[trigger] counts[j]).0,
        )
    &&& forall|i: int|
        0 <= i < counts.len() ==> (#[trigger] counts[i]).1 == occurrences(labels, counts[i].0)
            && counts[i].1 > 0
    &&& forall|k: int| 0 <= k < labels.len() ==> is_counted(counts, #[trigger] labels[k])
}

/// Whether there is a count for a label.
pub open spec fn is_counted(counts: Seq<(Seq<char>, nat)>, label: Seq<char>) -> bool {
    exists|i: int| 0 <= i < counts.len() && (#[trigger] counts[i]).0 == label
}

/// Labels and how often each was counted.
pub struct Tally {
    entries: Vec<(String, usize)>,
}

/// The labels and counts of a list of entries.
pub open spec fn entries_model(entries: Seq<(String, usize)>) -> Seq<(Seq<char>, nat)> {
    Seq::new(entries.len(), |i: int| (entries[i].0@, entries[i].1 as nat))
}

impl View for Tally {
    type V = Seq<(Seq<char>, nat)>;

    closed spec fn view(&self) -> Seq<(Seq<char>, nat)> {
        entries_model(self.entries@)
    }
}

proof fn lemma_occurrences_bound(labels: Seq<Seq<char>>, label: Seq<char>)
    ensures
        occurrences(labels, label) <= labels.len(),
        occurrences(labels, label) > 0 <==> labels.contains(label),
    decreases labels.len(),
{
    if labels.len() > 0 {
        let shorter = labels.drop_last();
        lemma_occurrences_bound(shorter, label);
        if shorter.contains(label) {
            let k = choose|k: int| 0 <= k < shorter.len() && shorter[k] == label;
            assert(labels[k] == label);
        }
        if labels.contains(label) && labels.last() != label {
            let k = choose|k: int| 0 <= k < labels.len() && labels[k] == label;
            assert(shorter[k] == label);
        }
        if labels.last() == label {
            assert(labels[labels.len() - 1] == label);
        }
    }
}

impl Tally {
    /// Counts nothing.
    pub fn new() -> (r: Tally)
        ensures
            r@ == Seq::<(Seq<char>, nat)>::empty(),
    {
        let entries: Vec<(String, usize)> = Vec::new();
        proof {
            assert(entries_model(entries@) =~= Seq::empty());
        }
        Tally { entries }
    }

    /// The lines that show the counts under a title.
    pub fn lines(&self, title: &str) -> (r: Vec<String>)
        ensures
            texts(r@) == tally_lines(title@, self@),
    {
        let mut lines: Vec<String> = Vec::new();
        lines.push(joined(title, ":"));
        let ghost counts = self@;
        let mut i: usize = 0;
        proof {
            assert(texts(lines@) =~= tally_lines(title@, counts).take(1));
        }
        while i < self.entries.len()
            invariant
                i <= self.entries@.len(),
                counts == self@,
                texts(lines@) == tally_lines(title@, counts).take(i + 1),
            decreases self.entries.len() - i,
        {
            let ghost before = lines@;
            let mut line: String = enclosed("  ", self.entries[i].0.as_str(), ": ");
            line.append(decimal_text(self.entries[i].1 as u64).as_str());
            lines.push(line);
            proof {
                let all = tally_lines(title@, counts);
                assert(counts[i as int] == (self.entries@[i as int].0@, self.entries@[i as int].1 as nat));
                assert(texts(lines@) =~= texts(before).push(line@));
                assert(all.take(i + 2) =~= all.take(i + 1).push(all[i + 1]));
            }
            i += 1;
        }
        proof {
            let all = tally_lines(title@, counts);
            assert(all.take(all.len() as int) =~= all);
        }
        lines
    }
}

/// The line that shows one count.
pub open spec fn count_line(count: (Seq<char>, nat)) -> Seq<char> {
    "  "@ + count.0 + ": "@ + decimal(count.1)
}

/// The lines that show counts under a title.
pub open spec fn tally_lines(title: Seq<char>, counts: Seq<(Seq<char>, nat)>) -> Seq<Seq<char>> {
    Seq::new(
        counts.len() + 1,
        |i: int|
            if i == 0 {
                title + ":"@
            } else {
                count_line(counts[i - 1])
            },
    )
}

proof fn lemma_one_more(labels: Seq<Seq<char>>, added: Seq<char>, label: Seq<char>)
    ensures
        occurrences(labels.push(added), label) == occurrences(labels, label) + if added == label {
            1nat
        } else {
            0nat
        },
{
    assert(labels.push(added).drop_last() =~= labels);
}

proof fn lemma_counted_again(
    labels: Seq<Seq<char>>,
    counts: Seq<(Seq<char>, nat)>,
    at: int,
    label: Seq<char>,
)
    requires
        is_tally(labels, counts),
        0 <= at < counts.len(),
        counts[at].0 == label,
    ensures
        is_tally(labels.push(label), counts.update(at, (label, counts[at].1 + 1))),
{
    let grown = labels.push(label);
    let updated = counts.update(at, (label, counts[at].1 + 1));
    assert forall|i: int| 0 <= i < updated.len() implies (#[trigger] updated[i]).0
        == counts[i].0 by {}
    assert forall|i: int, j: int| 0 <= i < j < updated.len() implies text_precedes(
        (#[trigger] updated[i]).0,
        (#[trigger] updated[j]).0,
    ) by {
        assert(text_precedes(counts[i].0, counts[j].0));
    }
    assert forall|i: int| 0 <= i < updated.len() implies (#[trigger] updated[i]).1
        == occurrences(grown, updated[i].0) && updated[i].1 > 0 by {
        lemma_one_more(labels, label, updated[i].0);
        assert(counts[i].1 == occurrences(labels, counts[i].0));
        if i != at {
            if i < at {
                assert(text_precedes(counts[i].0, counts[at].0));
            } else {
                assert(text_precedes(counts[at].0, counts[i].0));
            }
            law_text_order_is_total(counts[i].0, label);
            law_text_order_is_total(label, counts[i].0);
        }
    }
    assert forall|k: int| 0 <= k < grown.len() implies is_counted(updated, #[trigger] grown[k]) by {
        if k < labels.len() {
            assert(is_counted(counts, labels[k]));
            let i = choose|i: int| 0 <= i < counts.len() && (#[trigger] counts[i]).0 == labels[k];
            assert(updated[i].0 == grown[k]);
        } else {
            assert(updated[at].0 == grown[k]);
        }
    }
}

proof fn lemma_counted_first(
    labels: Seq<Seq<char>>,
    counts: Seq<(Seq<char>, nat)>,
    at: int,
    label: Seq<char>,
)
    requires
        is_tally(labels, counts),
        0 <= at <= counts.len(),
        at > 0 ==> text_precedes(counts[at - 1].0, label),
        at < counts.len() ==> text_precedes(label, counts[at].0),
    ensures
        is_tally(labels.push(label), counts.insert(at, (label, 1))),
{
    let grown = labels.push(label);
    let updated = counts.insert(at, (label, 1nat));
    assert forall|i: int| 0 <= i < at implies text_precedes((#[trigger] counts[i]).0, label) by {
        if i < at - 1 {
            assert(text_precedes(counts[i].0, counts[at - 1].0));
            law_text_order_is_transitive(counts[i].0, counts[at - 1].0, label);
        }
    }
    assert forall|i: int| at <= i < counts.len() implies text_precedes(
        label,
        (#[trigger] counts[i]).0,
    ) by {
        if i > at {
            assert(text_precedes(counts[at].0, counts[i].0));
            law_text_order_is_transitive(label, counts[at].0, counts[i].0);
        }
    }
    assert forall|i: int| 0 <= i < counts.len() implies (#[trigger] counts[i]).0 != label by {
        law_text_order_is_total(counts[i].0, label);
    }
    assert forall|i: int, j: int| 0 <= i < j < updated.len() implies text_precedes(
        (#[trigger] updated[i]).0,
        (#[trigger] updated[j]).0,
    ) by {
        let oi = if i < at {
            i
        } else {
            i - 1
        };
        let oj = if j < at {
            j
        } else {
            j - 1
        };
        if i == at {
            assert(updated[j] == counts[oj]);
        } else if j == at {
            assert(updated[i] == counts[oi]);
        } else {
            assert(updated[i] == counts[oi]);
            assert(updated[j] == counts[oj]);
            assert(text_precedes(counts[oi].0, counts[oj].0));
        }
    }
    assert forall|i: int| 0 <= i < updated.len() implies (#[trigger] updated[i]).1
        == occurrences(grown, updated[i].0) && updated[i].1 > 0 by {
        lemma_one_more(labels, label, updated[i].0);
        if i == at {
            lemma_occurrences_bound(labels, label);
            if labels.contains(label) {
                let k = choose|k: int| 0 <= k < labels.len() && labels[k] == label;
                assert(is_counted(counts, labels[k]));
                let c = choose|c: int|
                    0 <= c < counts.len() && (#[trigger] counts[c]).0 == labels[k];
                assert(counts[c].0 == label);
            }
        } else {
            let o = if i < at {
                i
            } else {
                i - 1
            };
            assert(updated[i] == counts[o]);
        }
    }
    assert forall|k: int| 0 <= k < grown.len() implies is_counted(updated, #[trigger] grown[k]) by {
        if k < labels.len() {
            assert(is_counted(counts, labels[k]));
            let i = choose|i: int| 0 <= i < counts.len() && (#[trigger] counts[i]).0 == labels[k];
            if i < at {
                assert(updated[i].0 == grown[k]);
            } else {
                assert(updated[i + 1].0 == grown[k]);
            }
        } else {
            assert(updated[at].0 == grown[k]);
        }
    }
}

impl Tally {
    /// Counts a label once more, where `labels` are those counted before.
    fn count(&mut self, label: &str, Ghost(labels): Ghost<Seq<Seq<char>>>)
        requires
            is_tally(labels, old(self)@),
            labels.len() < usize::MAX,
        ensures
            is_tally(labels.push(label@), final(self)@),
    {
        let ghost counts = self@;
        let ghost before = self.entries@;
        let mut at: usize = 0;
        while at < self.entries.len()
            invariant
                at <= self.entries@.len(),
                self.entries@ == before,
                counts == entries_model(before),
                is_tally(labels, counts),
                labels.len() < usize::MAX,
                at > 0 ==> text_precedes(counts[at - 1].0, label@),
            ensures
                at <= self.entries@.len(),
                self.entries@ == before,
                at > 0 ==> text_precedes(counts[at - 1].0, label@),
                at < self.entries@.len() ==> text_precedes(label@, counts[at as int].0),
            decreases self.entries.len() - at,
        {
            match text_order(self.entries[at].0.as_str(), label) {
                TextOrder::Before => {
                    at += 1;
                },
                TextOrder::Same => {
                    let n: usize = self.entries[at].1;
                    proof {
                        lemma_occurrences_bound(labels, label@);
                        assert(counts[at as int].1 == n);
                        lemma_counted_again(labels, counts, at as int, label@);
                    }
                    self.entries.set(at, (label.to_owned(), n + 1));
                    proof {
                        assert(entries_model(self.entries@) =~= counts.update(
                            at as int,
                            (label@, counts[at as int].1 + 1),
                        ));
                    }
                    return;
                },
                TextOrder::Behind => {
                    break;
                },
            }
        }
        proof {
            lemma_counted_first(labels, counts, at as int, label@);
        }
        self.entries.insert(at, (label.to_owned(), 1));
        proof {
            assert(entries_model(self.entries@) =~= counts.insert(at as int, (label@, 1nat)));
        }
    }
}

/// The types of promotions.
pub open spec fn types_of(list: Seq<PromotionModel>) -> Seq<Seq<char>> {
    Seq::new(list.len(), |i: int| list[i].promotionType)
}

/// The states of promotions.
pub open spec fn statuses_of(list: Seq<PromotionModel>) -> Seq<Seq<char>> {
    Seq::new(list.len(), |i: int| list[i].promotionStatus)
}

/// Counts promotions: how many there are, and how many of each type and in
/// each state.
pub fn tally(list: &[PromotionSummary]) -> (r: (usize, Tally, Tally))
    ensures
        r.0 == list@.len(),
        is_tally(types_of(promotions_model(list@)), r.1@),
        is_tally(statuses_of(promotions_model(list@)), r.2@),
{
    let ghost types = types_of(promotions_model(list@));
    let ghost statuses = statuses_of(promotions_model(list@));
    let mut by_type: Tally = Tally::new();
    let mut by_status: Tally = Tally::new();
    let mut total: usize = 0;
    while total < list.len()
        invariant
            total <= list@.len(),
            types == types_of(promotions_model(list@)),
            statuses == statuses_of(promotions_model(list@)),
            is_tally(types.take(total as int), by_type@),
            is_tally(statuses.take(total as int), by_status@),
        decreases list.len() - total,
    {
        by_type.count(
            list[total].promotionType.as_str(),
            Ghost(types.take(total as int)),
        );
        by_status.count(
            list[total].promotionStatus.as_str(),
            Ghost(statuses.take(total as int)),
        );
        proof {
            assert(types.take(total + 1) =~= types.take(total as int).push(types[total as int]));
            assert(statuses.take(total + 1) =~= statuses.take(total as int).push(
                statuses[total as int],
            ));
        }
        total += 1;
    }
    proof {
        assert(types.take(total as int) =~= types);
        assert(statuses.take(total as int) =~= statuses);
    }
    (total, by_type, by_status)
}

/// The sum of counts.
pub open spec fn sum_of(counts: Seq<(Seq<char>, nat)>) -> nat
    decreases counts.len(),
{
    if counts.len() == 0 {
        0
    } else {
        sum_of(counts.drop_last()) + counts.last().1
    }
}

/// How often the labels of `keys` stand in a list, all together.
spec fn occurrences_of_all(labels: Seq<Seq<char>>, keys: Seq<Seq<char>>) -> nat
    decreases keys.len(),
{
    if keys.len() == 0 {
        0
    } else {
        occurrences_of_all(labels, keys.drop_last()) + occurrences(labels, keys.last())
    }
}

proof fn lemma_all_one_more(labels: Seq<Seq<char>>, added: Seq<char>, keys: Seq<Seq<char>>)
    ensures
        occurrences_of_all(labels.push(added), keys) == occurrences_of_all(labels, keys)
            + occurrences(keys, added),
    decreases keys.len(),
{
    if keys.len() > 0 {
        lemma_all_one_more(labels, added, keys.drop_last());
        lemma_one_more(labels, added, keys.last());
    }
}

proof fn lemma_distinct_occurs_once(keys: Seq<Seq<char>>, key: Seq<char>)
    requires
        forall|i: int, j: int| 0 <= i < j < keys.len() ==> keys[i] != keys[j],
        keys.contains(key),
    ensures
        occurrences(keys, key) == 1,
    decreases keys.len(),
{
    let shorter = keys.drop_last();
    lemma_occurrences_bound(shorter, key);
    if keys.last() == key {
        if shorter.contains(key) {
            let k = choose|k: int| 0 <= k < shorter.len() && shorter[k] == key;
            assert(keys[k] != keys[keys.len() - 1]);
        }
    } else {
        let k = choose|k: int| 0 <= k < keys.len() && keys[k] == key;
        assert(shorter[k] == key);
        lemma_distinct_occurs_once(shorter, key);
    }
}

proof fn lemma_all_labels_occur(labels: Seq<Seq<char>>, keys: Seq<Seq<char>>)
    requires
        forall|i: int, j: int| 0 <= i < j < keys.len() ==> keys[i] != keys[j],
        forall|k: int| 0 <= k < labels.len() ==> keys.contains(#[trigger] labels[k]),
    ensures
        occurrences_of_all(labels, keys) == labels.len(),
    decreases labels.len(),
{
    if labels.len() == 0 {
        lemma_nothing_occurs(labels, keys);
    } else {
        let shorter = labels.drop_last();
        assert forall|k: int| 0 <= k < shorter.len() implies keys.contains(
            #[trigger] shorter[k],
        ) by {
            assert(shorter[k] == labels[k]);
        }
        lemma_all_labels_occur(shorter, keys);
        lemma_all_one_more(shorter, labels.last(), keys);
        assert(keys.contains(labels[labels.len() - 1]));
        lemma_distinct_occurs_once(keys, labels.last());
        assert(shorter.push(labels.last()) =~= labels);
    }
}

proof fn lemma_nothing_occurs(labels: Seq<Seq<char>>, keys: Seq<Seq<char>>)
    requires
        labels.len() == 0,
    ensures
        occurrences_of_all(labels, keys) == 0,
    decreases keys.len(),
{
    if keys.len() > 0 {
        lemma_nothing_occurs(labels, keys.drop_last());
    }
}

proof fn lemma_sum_is_occurrences(
    labels: Seq<Seq<char>>,
    counts: Seq<(Seq<char>, nat)>,
    keys: Seq<Seq<char>>,
)
    requires
        keys.len() == counts.len(),
        forall|i: int|
            0 <= i < counts.len() ==> keys[i] == (#[trigger] counts[i]).0 && counts[i].1
                == occurrences(labels, counts[i].0),
    ensures
        sum_of(counts) == occurrences_of_all(labels, keys),
    decreases counts.len(),
{
    if counts.len() > 0 {
        let fewer = counts.drop_last();
        assert forall|i: int| 0 <= i < fewer.len() implies keys.drop_last()[i] == (
        #[trigger] fewer[i]).0 && fewer[i].1 == occurrences(labels, fewer[i].0) by {
            assert(fewer[i] == counts[i]);
        }
        lemma_sum_is_occurrences(labels, fewer, keys.drop_last());
        assert(counts[counts.len() - 1] == counts.last());
    }
}

/// A tally accounts for everything: its counts add up to the length of the
/// list.
pub proof fn law_tally_adds_up(labels: Seq<Seq<char>>, counts: Seq<(Seq<char>, nat)>)
    requires
        is_tally(labels, counts),
    ensures
        sum_of(counts) == labels.len(),
{
    let keys = Seq::new(counts.len(), |i: int| counts[i].0);
    assert forall|i: int, j: int| 0 <= i < j < keys.len() implies keys[i] != keys[j] by {
        assert(text_precedes(counts[i].0, counts[j].0));
        law_text_order_is_total(counts[i].0, counts[j].0);
    }
    assert forall|k: int| 0 <= k < labels.len() implies keys.contains(#[trigger] labels[k]) by {
        assert(is_counted(counts, labels[k]));
        let i = choose|i: int| 0 <= i < counts.len() && (#[trigger] counts[i]).0 == labels[k];
        assert(keys[i] == labels[k]);
    }
    lemma_sum_is_occurrences(labels, counts, keys);
    lemma_all_labels_occur(labels, keys);
}

/// The first character that differs decides which text comes first, and a text
/// comes before every longer one that begins with it.
pub proof fn law_first_difference_decides(
    common: Seq<char>,
    c: char,
    d: char,
    x: Seq<char>,
    y: Seq<char>,
)
    ensures
        c < d ==> text_precedes(common + seq![c] + x, common + seq![d] + y),
        text_precedes(common, common + seq![c] + x),
    decreases common.len(),
{
    if common.len() > 0 {
        law_first_difference_decides(common.skip(1), c, d, x, y);
        let front = common.skip(1);
        assert((common + seq![c] + x).skip(1) =~= front + seq![c] + x);
        assert((common + seq![d] + y).skip(1) =~= front + seq![d] + y);
    }
}

/// A label stands in two lists together as often as in both, once in a list of
/// itself, and not in a list of another label.
pub proof fn law_occurrences_add_up(
    a: Seq<Seq<char>>,
    b: Seq<Seq<char>>,
    label: Seq<char>,
    other: Seq<char>,
)
    ensures
        occurrences(a + b, label) == occurrences(a, label) + occurrences(b, label),
        occurrences(seq![label], label) == 1,
        other != label ==> occurrences(seq![other], label) == 0,
        occurrences(Seq::empty(), label) == 0,
    decreases b.len(),
{
    reveal_with_fuel(occurrences, 2);
    if b.len() > 0 {
        law_occurrences_add_up(a, b.drop_last(), label, other);
        assert((a + b).drop_last() =~= a + b.drop_last());
    } else {
        assert(a + b =~= a);
    }
}

/// A tally has an entry for each label that stands in the list and for no
/// other, each once and with the number of times it stands there, in the order
/// of the labels.
pub proof fn law_tally_has_every_label_once(
    labels: Seq<Seq<char>>,
    counts: Seq<(Seq<char>, nat)>,
    i: int,
    j: int,
    k: int,
)
    requires
        is_tally(labels, counts),
    ensures
        0 <= i < j < counts.len() ==> text_precedes(counts[i].0, counts[j].0) && counts[i].0
            != counts[j].0,
        0 <= i < counts.len() ==> counts[i].1 == occurrences(labels, counts[i].0),
        0 <= i < counts.len() ==> labels.contains(counts[i].0),
        0 <= k < labels.len() ==> exists|e: int|
            0 <= e < counts.len() && (#[trigger] counts[e]).0 == labels[k],
{
    if 0 <= i < j < counts.len() {
        law_text_order_is_total(counts[i].0, counts[j].0);
    }
    if 0 <= i < counts.len() {
        lemma_occurrences_bound(labels, counts[i].0);
    }
    if 0 <= k < labels.len() {
        assert(is_counted(counts, labels[k]));
    }
}

/// Promotions are counted by their type and by their status.
pub proof fn law_promotions_are_counted_by_type_and_status(list: Seq<PromotionModel>, i: int)
    requires
        0 <= i < list.len(),
    ensures
        types_of(list).len() == list.len(),
        types_of(list)[i] == list[i].promotionType,
        statuses_of(list).len() == list.len(),
        statuses_of(list)[i] == list[i].promotionStatus,
{
}

/// A tally is shown as its title with a colon, and below it each label with its
/// count, indented, in order.
pub proof fn law_tally_shows_every_count(
    title: Seq<char>,
    counts: Seq<(Seq<char>, nat)>,
    i: int,
)
    requires
        0 <= i < counts.len(),
    ensures
        tally_lines(title, counts).len() == counts.len() + 1,
        tally_lines(title, counts)[0] == title + ":"@,
        tally_lines(title, counts)[i + 1] == "  "@ + counts[i].0 + ": "@ + decimal(counts[i].1),
        tally_lines(title, Seq::empty()) == seq![title + ":"@],
{
    assert(tally_lines(title, Seq::empty()) =~= seq![title + ":"@]);
}

} // verus!
