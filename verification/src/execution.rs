//! Carrying out actions so that none that succeeded is carried out again.
use crate::action::{ActionModel, FallbackType, PromotionAction};
use crate::listing::{listings_model, ListingInfo, ListingModel};
use crate::text::{decimal, decimal_text, digit, same_text, texts};
use vstd::prelude::*;
use vstd::string::*;

verus! {

/// A number in a key: its decimal notation and a colon.
pub open spec fn number_key(n: nat) -> Seq<char> {
    decimal(n).push(':')
}

/// A text in a key: its length, a colon, and its characters.
pub open spec fn text_key(s: Seq<char>) -> Seq<char> {
    number_key(s.len()) + s
}

/// The entries of a list of listings in a key, one behind the other.
pub open spec fn entries_key(listings: Seq<ListingModel>) -> Seq<char>
    decreases listings.len(),
{
    if listings.len() == 0 {
        Seq::empty()
    } else {
        text_key(listings[0].listing_id) + (text_key(listings[0].cohort) + entries_key(
            listings.skip(1),
        ))
    }
}

/// A list of listings in a key: how many there are, and the entries.
pub open spec fn listings_key(listings: Seq<ListingModel>) -> Seq<char> {
    number_key(listings.len()) + entries_key(listings)
}

/// The key of an action: a letter for its kind, and what it says.
pub open spec fn action_key(action: ActionModel) -> Seq<char> {
    match action {
        ActionModel::UpdateEnd(id, end) => "U"@ + (text_key(id) + text_key(end)),
        ActionModel::End(id) => "E"@ + text_key(id),
        ActionModel::StartMarkdown(listings, start, end) => "M"@ + (listings_key(listings) + (
        text_key(start) + text_key(end))),
        ActionModel::StartFallback(FallbackType::Order, listings, start, end) => "O"@ + (
        listings_key(listings) + (text_key(start) + text_key(end))),
        ActionModel::StartFallback(FallbackType::Coupon, listings, start, end) => "C"@ + (
        listings_key(listings) + (text_key(start) + text_key(end))),
        ActionModel::RemoveListing(id, listing) => "R"@ + (text_key(id) + text_key(listing)),
    }
}

proof fn lemma_decimal_has_no_colon(n: nat)
    ensures
        decimal(n).len() > 0,
        !decimal(n).contains(':'),
    decreases n,
{
    if n >= 10 {
        lemma_decimal_has_no_colon(n / 10);
        assert forall|i: int| 0 <= i < decimal(n).len() implies decimal(n)[i] != ':' by {
            if i < decimal(n / 10).len() {
                assert(decimal(n)[i] == decimal(n / 10)[i]);
                assert(decimal(n / 10).contains(decimal(n / 10)[i]));
            }
        }
    }
}

proof fn lemma_decimal_is_unique(a: nat, b: nat)
    requires
        decimal(a) == decimal(b),
    ensures
        a == b,
    decreases a,
{
    lemma_decimal_has_no_colon(a / 10);
    lemma_decimal_has_no_colon(b / 10);
    if a >= 10 && b >= 10 {
        assert(decimal(a).drop_last() =~= decimal(a / 10));
        assert(decimal(b).drop_last() =~= decimal(b / 10));
        lemma_decimal_is_unique(a / 10, b / 10);
        assert(decimal(a).last() == digit(a % 10));
        assert(decimal(b).last() == digit(b % 10));
    } else if a < 10 && b < 10 {
        assert(decimal(a)[0] == digit(a));
        assert(decimal(b)[0] == digit(b));
    } else if a < 10 {
        assert(decimal(b).len() == decimal(b / 10).len() + 1);
        assert(decimal(a).len() == 1);
    } else {
        assert(decimal(a).len() == decimal(a / 10).len() + 1);
        assert(decimal(b).len() == 1);
    }
}

proof fn lemma_number_key_is_prefix_free(a: nat, x: Seq<char>, b: nat, y: Seq<char>)
    requires
        number_key(a) + x == number_key(b) + y,
    ensures
        a == b,
        x == y,
{
    let s = number_key(a) + x;
    let t = number_key(b) + y;
    let m = decimal(a).len() as int;
    let n = decimal(b).len() as int;
    lemma_decimal_has_no_colon(a);
    lemma_decimal_has_no_colon(b);
    assert(s[m] == ':');
    assert(t[n] == ':');
    if m < n {
        assert(t[m] == decimal(b)[m]);
        assert(decimal(b).contains(decimal(b)[m]));
    }
    if n < m {
        assert(s[n] == decimal(a)[n]);
        assert(decimal(a).contains(decimal(a)[n]));
    }
    assert(decimal(a) =~= s.take(m));
    assert(decimal(b) =~= t.take(m));
    lemma_decimal_is_unique(a, b);
    assert(x =~= s.skip(m + 1));
    assert(y =~= t.skip(m + 1));
}

proof fn lemma_text_key_is_prefix_free(a: Seq<char>, x: Seq<char>, b: Seq<char>, y: Seq<char>)
    requires
        text_key(a) + x == text_key(b) + y,
    ensures
        a == b,
        x == y,
{
    assert(text_key(a) + x =~= number_key(a.len()) + (a + x));
    assert(text_key(b) + y =~= number_key(b.len()) + (b + y));
    lemma_number_key_is_prefix_free(a.len(), a + x, b.len(), b + y);
    assert(a =~= (a + x).take(a.len() as int));
    assert(b =~= (b + y).take(a.len() as int));
    assert(x =~= (a + x).skip(a.len() as int));
    assert(y =~= (b + y).skip(a.len() as int));
}

proof fn lemma_entries_key_is_prefix_free(
    a: Seq<ListingModel>,
    x: Seq<char>,
    b: Seq<ListingModel>,
    y: Seq<char>,
)
    requires
        a.len() == b.len(),
        entries_key(a) + x == entries_key(b) + y,
    ensures
        a == b,
        x == y,
    decreases a.len(),
{
    if a.len() == 0 {
        assert(x =~= entries_key(a) + x);
        assert(y =~= entries_key(b) + y);
        assert(a =~= b);
    } else {
        let ra = entries_key(a.skip(1)) + x;
        let rb = entries_key(b.skip(1)) + y;
        let ca = text_key(a[0].cohort) + ra;
        let cb = text_key(b[0].cohort) + rb;
        assert(entries_key(a) + x =~= text_key(a[0].listing_id) + ca);
        assert(entries_key(b) + y =~= text_key(b[0].listing_id) + cb);
        lemma_text_key_is_prefix_free(a[0].listing_id, ca, b[0].listing_id, cb);
        lemma_text_key_is_prefix_free(a[0].cohort, ra, b[0].cohort, rb);
        lemma_entries_key_is_prefix_free(a.skip(1), x, b.skip(1), y);
        assert(a =~= seq![a[0]] + a.skip(1));
        assert(b =~= seq![b[0]] + b.skip(1));
    }
}

proof fn lemma_listings_key_is_prefix_free(
    a: Seq<ListingModel>,
    x: Seq<char>,
    b: Seq<ListingModel>,
    y: Seq<char>,
)
    requires
        listings_key(a) + x == listings_key(b) + y,
    ensures
        a == b,
        x == y,
{
    assert(listings_key(a) + x =~= number_key(a.len()) + (entries_key(a) + x));
    assert(listings_key(b) + y =~= number_key(b.len()) + (entries_key(b) + y));
    lemma_number_key_is_prefix_free(a.len(), entries_key(a) + x, b.len(), entries_key(b) + y);
    lemma_entries_key_is_prefix_free(a, x, b, y);
}

proof fn lemma_two_texts_are_unique(a: Seq<char>, x: Seq<char>, b: Seq<char>, y: Seq<char>)
    requires
        text_key(a) + text_key(x) == text_key(b) + text_key(y),
    ensures
        a == b,
        x == y,
{
    lemma_text_key_is_prefix_free(a, text_key(x), b, text_key(y));
    lemma_text_is_unique(x, y);
}

proof fn lemma_text_is_unique(x: Seq<char>, y: Seq<char>)
    requires
        text_key(x) == text_key(y),
    ensures
        x == y,
{
    let none = Seq::<char>::empty();
    assert(text_key(x) + none =~= text_key(x));
    assert(text_key(y) + none =~= text_key(y));
    lemma_text_key_is_prefix_free(x, none, y, none);
}

proof fn lemma_start_is_unique(
    a: Seq<ListingModel>,
    s: Seq<char>,
    e: Seq<char>,
    b: Seq<ListingModel>,
    t: Seq<char>,
    f: Seq<char>,
)
    requires
        listings_key(a) + (text_key(s) + text_key(e)) == listings_key(b) + (text_key(t) + text_key(
            f,
        )),
    ensures
        a == b,
        s == t,
        e == f,
{
    lemma_listings_key_is_prefix_free(
        a,
        text_key(s) + text_key(e),
        b,
        text_key(t) + text_key(f),
    );
    lemma_two_texts_are_unique(s, e, t, f);
}

/// What follows the letter of a key.
spec fn key_body(action: ActionModel) -> Seq<char> {
    action_key(action).skip(1)
}

proof fn lemma_key_letters()
    ensures
        "U"@.len() == 1 && "U"@[0] == 'U',
        "E"@.len() == 1 && "E"@[0] == 'E',
        "M"@.len() == 1 && "M"@[0] == 'M',
        "O"@.len() == 1 && "O"@[0] == 'O',
        "C"@.len() == 1 && "C"@[0] == 'C',
        "R"@.len() == 1 && "R"@[0] == 'R',
{
    reveal_strlit("U");
    reveal_strlit("E");
    reveal_strlit("M");
    reveal_strlit("O");
    reveal_strlit("C");
    reveal_strlit("R");
}

/// Two actions have the same key only where they say the same.
pub proof fn law_action_key_is_unique(a: ActionModel, b: ActionModel)
    ensures
        action_key(a) == action_key(b) <==> a == b,
{
    if action_key(a) == action_key(b) {
        lemma_key_letters();
        assert(action_key(a)[0] == action_key(b)[0]);
        match (a, b) {
            (ActionModel::UpdateEnd(i, e), ActionModel::UpdateEnd(j, f)) => {
                assert(key_body(a) =~= text_key(i) + text_key(e));
                assert(key_body(b) =~= text_key(j) + text_key(f));
                lemma_two_texts_are_unique(i, e, j, f);
            },
            (ActionModel::RemoveListing(i, l), ActionModel::RemoveListing(j, m)) => {
                assert(key_body(a) =~= text_key(i) + text_key(l));
                assert(key_body(b) =~= text_key(j) + text_key(m));
                lemma_two_texts_are_unique(i, l, j, m);
            },
            (ActionModel::End(i), ActionModel::End(j)) => {
                assert(key_body(a) =~= text_key(i));
                assert(key_body(b) =~= text_key(j));
                lemma_text_is_unique(i, j);
            },
            (ActionModel::StartMarkdown(l, s, e), ActionModel::StartMarkdown(m, t, f)) => {
                assert(key_body(a) =~= listings_key(l) + (text_key(s) + text_key(e)));
                assert(key_body(b) =~= listings_key(m) + (text_key(t) + text_key(f)));
                lemma_start_is_unique(l, s, e, m, t, f);
            },
            (ActionModel::StartFallback(_, l, s, e), ActionModel::StartFallback(_, m, t, f)) => {
                assert(key_body(a) =~= listings_key(l) + (text_key(s) + text_key(e)));
                assert(key_body(b) =~= listings_key(m) + (text_key(t) + text_key(f)));
                lemma_start_is_unique(l, s, e, m, t, f);
            },
            _ => {},
        }
    }
}

fn push_number(key: &mut String, n: usize)
    ensures
        final(key)@ == old(key)@ + number_key(n as nat),
{
    key.append(decimal_text(n as u64).as_str());
    key.append(":");
    proof {
        reveal_strlit(":");
        assert(old(key)@ + decimal(n as nat) + ":"@ =~= old(key)@ + number_key(n as nat));
    }
}

fn push_text(key: &mut String, s: &str)
    ensures
        final(key)@ == old(key)@ + text_key(s@),
{
    push_number(key, s.unicode_len());
    key.append(s);
    proof {
        assert(old(key)@ + number_key(s@.len()) + s@ =~= old(key)@ + text_key(s@));
    }
}

fn push_listings(key: &mut String, listings: &Vec<ListingInfo>)
    ensures
        final(key)@ == old(key)@ + listings_key(listings_model(listings@)),
{
    let ghost model = listings_model(listings@);
    push_number(key, listings.len());
    let ghost head = key@;
    let mut i: usize = 0;
    proof {
        assert(model.skip(0) =~= model);
    }
    while i < listings.len()
        invariant
            i <= listings@.len(),
            model == listings_model(listings@),
            key@ + entries_key(model.skip(i as int)) == head + entries_key(model),
        decreases listings.len() - i,
    {
        let ghost before = key@;
        push_text(key, listings[i].listing_id.as_str());
        push_text(key, listings[i].cohort.as_str());
        proof {
            let rest = model.skip(i as int);
            assert(rest.skip(1) =~= model.skip(i + 1));
            assert(rest[0] == listings@[i as int]@);
            assert(before + entries_key(rest) =~= key@ + entries_key(model.skip(i + 1)));
        }
        i += 1;
    }
    proof {
        assert(key@ + entries_key(model.skip(i as int)) =~= key@);
        assert(old(key)@ + number_key(model.len()) + entries_key(model) =~= old(key)@
            + listings_key(model));
    }
}

fn start_key(letter: &str, listings: &Vec<ListingInfo>, start: &str, end: &str) -> (r: String)
    ensures
        r@ == letter@ + (listings_key(listings_model(listings@)) + (text_key(start@) + text_key(
            end@,
        ))),
{
    let mut key: String = letter.to_owned();
    push_listings(&mut key, listings);
    push_text(&mut key, start);
    push_text(&mut key, end);
    key
}

fn pair_key(letter: &str, a: &str, b: &str) -> (r: String)
    ensures
        r@ == letter@ + (text_key(a@) + text_key(b@)),
{
    let mut key: String = letter.to_owned();
    push_text(&mut key, a);
    push_text(&mut key, b);
    key
}

/// Remembers which actions have been carried out.
pub struct IdempotencyManager {
    executed_actions: Vec<String>,
}

impl IdempotencyManager {
    /// The keys of the actions that have been carried out.
    pub closed spec fn keys(self) -> Set<Seq<char>> {
        texts(self.executed_actions@).to_set()
    }

    /// Whether an action has been carried out.
    pub open spec fn has_executed(self, action: ActionModel) -> bool {
        self.keys().contains(action_key(action))
    }

    /// Each key is held once.
    #[verifier::type_invariant]
    spec fn holds_keys_once(self) -> bool {
        texts(self.executed_actions@).no_duplicates()
    }

    /// Remembers no action.
    pub fn new() -> (r: IdempotencyManager)
        ensures
            r.keys() == Set::<Seq<char>>::empty(),
    {
        let executed_actions: Vec<String> = Vec::new();
        proof {
            assert(texts(executed_actions@).to_set() =~= Set::<Seq<char>>::empty());
        }
        IdempotencyManager { executed_actions }
    }

    /// The key of an action. Actions that differ have different keys.
    pub fn generate_key(&self, action: &PromotionAction) -> (r: String)
        ensures
            r@ == action_key(action@),
    {
        match action {
            PromotionAction::UpdateEnd(id, end) => pair_key("U", id.as_str(), end.as_str()),
            PromotionAction::End(id) => {
                let mut key: String = "E".to_owned();
                push_text(&mut key, id.as_str());
                key
            },
            PromotionAction::StartMarkdown(listings, start, end) => start_key(
                "M",
                listings,
                start.as_str(),
                end.as_str(),
            ),
            PromotionAction::StartFallback(kind, listings, start, end) => {
                let letter: &str = match kind {
                    FallbackType::Order => "O",
                    FallbackType::Coupon => "C",
                };
                start_key(letter, listings, start.as_str(), end.as_str())
            },
            PromotionAction::RemoveListing(id, listing) => pair_key(
                "R",
                id.as_str(),
                listing.as_str(),
            ),
        }
    }

    /// Whether an action has been carried out.
    pub fn is_executed(&self, action: &PromotionAction) -> (r: bool)
        ensures
            r == self.has_executed(action@),
    {
        let key: String = self.generate_key(action);
        let mut i: usize = 0;
        while i < self.executed_actions.len()
            invariant
                i <= self.executed_actions@.len(),
                key@ == action_key(action@),
                forall|k: int| 0 <= k < i ==> #[trigger] texts(self.executed_actions@)[k] != key@,
            decreases self.executed_actions.len() - i,
        {
            if same_text(self.executed_actions[i].as_str(), key.as_str()) {
                proof {
                    assert(texts(self.executed_actions@)[i as int] == key@);
                }
                return true;
            }
            i += 1;
        }
        false
    }

    /// Remembers that an action has been carried out.
    pub fn mark_executed(&mut self, action: &PromotionAction)
        ensures
            final(self).keys() == old(self).keys().insert(action_key(action@)),
    {
        if self.is_executed(action) {
            proof {
                assert(self.keys().insert(action_key(action@)) =~= self.keys());
            }
            return;
        }
        proof {
            use_type_invariant(&*self);
        }
        let key: String = self.generate_key(action);
        let ghost before = texts(self.executed_actions@);
        let mut keys: Vec<String> = Vec::new();
        std::mem::swap(&mut keys, &mut self.executed_actions);
        keys.push(key);
        proof {
            let after = texts(keys@);
            assert(after =~= before.push(key@));
            assert(after.to_set() =~= before.to_set().insert(key@)) by {
                assert forall|k: Seq<char>| before.contains(k) implies after.contains(k) by {
                    let i = choose|i: int| 0 <= i < before.len() && before[i] == k;
                    assert(after[i] == k);
                }
                assert(after[before.len() as int] == key@);
            }
        }
        self.executed_actions = keys;
    }
}

/// What carrying out actions has come to.
#[verifier::ext_equal]
pub struct RunModel {
    /// The keys of the actions that succeeded.
    pub executed: Set<Seq<char>>,
    /// How many actions succeeded.
    pub ok: nat,
    /// How many attempts failed.
    pub fail: nat,
}

impl RunModel {
    /// The run after one more action, which succeeds or fails if it is
    /// attempted. An action that succeeded before is passed over.
    pub open spec fn after(self, action: ActionModel, success: bool) -> RunModel {
        if self.executed.contains(action_key(action)) {
            self
        } else if success {
            RunModel {
                executed: self.executed.insert(action_key(action)),
                ok: self.ok + 1,
                ..self
            }
        } else {
            RunModel { fail: self.fail + 1, ..self }
        }
    }
}

/// The run over the first `n` actions, where `outcomes[i]` says whether the
/// action at `i` succeeds if it is attempted.
pub open spec fn run_of(actions: Seq<ActionModel>, outcomes: Seq<bool>, n: nat) -> RunModel
    decreases n,
{
    if n == 0 {
        RunModel { executed: Set::empty(), ok: 0, fail: 0 }
    } else {
        run_of(actions, outcomes, (n - 1) as nat).after(actions[n - 1], outcomes[n - 1])
    }
}

/// Whether the run attempts the action at a position.
pub open spec fn is_attempted(actions: Seq<ActionModel>, outcomes: Seq<bool>, at: int) -> bool {
    !run_of(actions, outcomes, at as nat).executed.contains(action_key(actions[at]))
}

/// How many of the first `n` actions the run passes over.
pub open spec fn passed_over(actions: Seq<ActionModel>, outcomes: Seq<bool>, n: nat) -> nat
    decreases n,
{
    if n == 0 {
        0
    } else if is_attempted(actions, outcomes, n - 1) {
        passed_over(actions, outcomes, (n - 1) as nat)
    } else {
        passed_over(actions, outcomes, (n - 1) as nat) + 1
    }
}

/// A run over planned actions: which of them to attempt, and how many
/// succeeded and failed.
pub struct Execution {
    manager: IdempotencyManager,
    ok: usize,
    fail: usize,
}

impl View for Execution {
    type V = RunModel;

    closed spec fn view(&self) -> RunModel {
        RunModel { executed: self.manager.keys(), ok: self.ok as nat, fail: self.fail as nat }
    }
}

impl Execution {
    /// A run that has attempted nothing.
    pub fn new() -> (r: Execution)
        ensures
            r@ == (RunModel { executed: Set::empty(), ok: 0, fail: 0 }),
    {
        Execution { manager: IdempotencyManager::new(), ok: 0, fail: 0 }
    }

    /// Whether an action is to be attempted: it has not succeeded before.
    pub fn should_attempt(&self, action: &PromotionAction) -> (r: bool)
        ensures
            r == !self@.executed.contains(action_key(action@)),
    {
        !self.manager.is_executed(action)
    }

    /// Takes down how an attempted action went.
    pub fn record(&mut self, action: &PromotionAction, success: bool)
        requires
            !old(self)@.executed.contains(action_key(action@)),
            old(self)@.ok < usize::MAX,
            old(self)@.fail < usize::MAX,
        ensures
            final(self)@ == old(self)@.after(action@, success),
    {
        if success {
            self.ok = self.ok + 1;
            self.manager.mark_executed(action);
        } else {
            self.fail = self.fail + 1;
        }
    }

    /// How many actions succeeded, and how many attempts failed.
    pub fn counts(&self) -> (r: (usize, usize))
        ensures
            r.0 == self@.ok,
            r.1 == self@.fail,
    {
        (self.ok, self.fail)
    }
}

/// What a dry run over actions counts: all of them, and no failure.
pub fn dry_run_counts(actions: &Vec<PromotionAction>) -> (r: (usize, usize))
    ensures
        r.0 == actions@.len(),
        r.1 == 0,
{
    (actions.len(), 0)
}

proof fn lemma_executed_grows(actions: Seq<ActionModel>, outcomes: Seq<bool>, m: nat, n: nat)
    requires
        m <= n,
    ensures
        run_of(actions, outcomes, m).executed.subset_of(run_of(actions, outcomes, n).executed),
    decreases n,
{
    if m < n {
        lemma_executed_grows(actions, outcomes, m, (n - 1) as nat);
    }
}

/// An action that succeeded is not attempted again where the list repeats it.
pub proof fn law_success_is_not_repeated(
    actions: Seq<ActionModel>,
    outcomes: Seq<bool>,
    i: int,
    j: int,
)
    requires
        0 <= i < j < actions.len(),
        actions.len() == outcomes.len(),
        actions[i] == actions[j],
        is_attempted(actions, outcomes, i),
        outcomes[i],
    ensures
        !is_attempted(actions, outcomes, j),
{
    lemma_executed_grows(actions, outcomes, (i + 1) as nat, j as nat);
}

/// An action is passed over only where the same action succeeded before: a
/// different action is never mistaken for it, and a failed one is tried again.
pub proof fn law_only_successes_are_passed_over(
    actions: Seq<ActionModel>,
    outcomes: Seq<bool>,
    j: int,
)
    requires
        0 <= j < actions.len(),
        actions.len() == outcomes.len(),
        !is_attempted(actions, outcomes, j),
    ensures
        exists|i: int|
            0 <= i < j && #[trigger] actions[i] == actions[j] && is_attempted(
                actions,
                outcomes,
                i,
            ) && outcomes[i],
{
    lemma_passed_over(actions, outcomes, actions[j], j as nat);
}

proof fn lemma_passed_over(
    actions: Seq<ActionModel>,
    outcomes: Seq<bool>,
    action: ActionModel,
    n: nat,
)
    requires
        n <= actions.len(),
        run_of(actions, outcomes, n).executed.contains(action_key(action)),
    ensures
        exists|i: int|
            0 <= i < n && #[trigger] actions[i] == action && is_attempted(actions, outcomes, i)
                && outcomes[i],
    decreases n,
{
    if n > 0 {
        let last = n - 1;
        if run_of(actions, outcomes, last as nat).executed.contains(action_key(action)) {
            lemma_passed_over(actions, outcomes, action, last as nat);
        } else {
            assert(is_attempted(actions, outcomes, last) && outcomes[last]);
            law_action_key_is_unique(actions[last], action);
            assert(actions[last] == action);
        }
    }
}

/// As many actions have succeeded as different ones are remembered, and each
/// action of the list counts once: as a success, as a failure, or as passed
/// over.
pub proof fn law_run_counts_each_action_once(
    actions: Seq<ActionModel>,
    outcomes: Seq<bool>,
    n: nat,
)
    requires
        n <= actions.len(),
        actions.len() == outcomes.len(),
    ensures
        run_of(actions, outcomes, n).executed.finite(),
        run_of(actions, outcomes, n).executed.len() == run_of(actions, outcomes, n).ok,
        run_of(actions, outcomes, n).ok + run_of(actions, outcomes, n).fail + passed_over(
            actions,
            outcomes,
            n,
        ) == n,
    decreases n,
{
    if n > 0 {
        law_run_counts_each_action_once(actions, outcomes, (n - 1) as nat);
    }
}

/// Each action of the list changes the counts by one at most: an attempt that
/// succeeds adds a success, one that fails adds a failure, and an action that
/// is passed over adds nothing. A run begins with nothing.
pub proof fn law_each_attempt_counts(actions: Seq<ActionModel>, outcomes: Seq<bool>, n: nat)
    requires
        n < actions.len(),
        actions.len() == outcomes.len(),
    ensures
        run_of(actions, outcomes, 0).ok == 0,
        run_of(actions, outcomes, 0).fail == 0,
        ({
            let before = run_of(actions, outcomes, n);
            let after = run_of(actions, outcomes, n + 1);
            &&& is_attempted(actions, outcomes, n as int) && outcomes[n as int] ==> after.ok
                == before.ok + 1 && after.fail == before.fail
            &&& is_attempted(actions, outcomes, n as int) && !outcomes[n as int] ==> after.ok
                == before.ok && after.fail == before.fail + 1
            &&& !is_attempted(actions, outcomes, n as int) ==> after == before
        }),
{
}

/// What an attempt leaves behind: after a success the action counts as carried
/// out, after a failure it does not, and what is known of every other action
/// stays as it is.
pub proof fn law_only_success_is_remembered(
    run: RunModel,
    action: ActionModel,
    other: ActionModel,
    success: bool,
)
    requires
        !run.executed.contains(action_key(action)),
    ensures
        run.after(action, success).executed.contains(action_key(action)) == success,
        run.after(action, success).ok == run.ok + if success {
            1int
        } else {
            0int
        },
        run.after(action, success).fail == run.fail + if success {
            0int
        } else {
            1int
        },
        other != action ==> run.after(action, success).executed.contains(action_key(other))
            == run.executed.contains(action_key(other)),
{
    if action_key(other) == action_key(action) {
        law_action_key_is_unique(other, action);
    }
}

/// After an action has been marked it counts as carried out, and no other action
/// does that did not before. Before anything has been marked, none does.
pub proof fn law_executed_actions_are_those_marked(
    before: IdempotencyManager,
    after: IdempotencyManager,
    action: ActionModel,
    other: ActionModel,
)
    requires
        after.keys() == before.keys().insert(action_key(action)),
    ensures
        after.has_executed(action),
        other != action ==> after.has_executed(other) == before.has_executed(other),
        before.keys() == Set::<Seq<char>>::empty() ==> !before.has_executed(other),
{
    law_action_key_is_unique(action, other);
}

} // verus!
