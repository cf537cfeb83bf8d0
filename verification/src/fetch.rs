//! Collecting all promotions, page by page.
use crate::api::{get_request, promotions_path, ApiRequest, MarketingApi};
use crate::config::marketplace_of;
use crate::model::{promotions_model, PromotionList, PromotionModel, PromotionSummary};
use vstd::prelude::*;

verus! {

/// The promotions that one page has at most.
pub const PAGE_SIZE: u32 = 50;

/// How far the collection has come.
#[verifier::ext_equal]
pub struct FetchModel {
    /// The promotions collected so far.
    pub collected: Seq<PromotionModel>,
    /// Where the next page begins.
    pub offset: nat,
    /// Whether there is a next page to ask for.
    pub more: bool,
}

/// The beginning of a collection.
pub open spec fn fetch_start() -> FetchModel {
    FetchModel { collected: Seq::empty(), offset: 0, more: true }
}

impl FetchModel {
    /// The collection after one more page. A page that is not full is the last.
    pub open spec fn after(self, page: Seq<PromotionModel>) -> FetchModel {
        if page.len() < PAGE_SIZE {
            FetchModel { collected: self.collected + page, more: false, ..self }
        } else {
            FetchModel {
                collected: self.collected + page,
                offset: self.offset + PAGE_SIZE as nat,
                ..self
            }
        }
    }
}

/// A collection of promotions under way.
pub struct PromotionFetch {
    collected: Vec<PromotionSummary>,
    offset: u32,
    more: bool,
}

impl View for PromotionFetch {
    type V = FetchModel;

    closed spec fn view(&self) -> FetchModel {
        FetchModel {
            collected: promotions_model(self.collected@),
            offset: self.offset as nat,
            more: self.more,
        }
    }
}

impl PromotionFetch {
    /// The request for the next page, if there is one to ask for.
    pub fn next_request(&self, api: &MarketingApi) -> (r: Option<ApiRequest>)
        ensures
            match r {
                Some(request) => self@.more && request@ == get_request(
                    promotions_path(
                        PAGE_SIZE as nat,
                        self@.offset,
                        marketplace_of(api.cfg.env),
                    ),
                ),
                None => !self@.more,
            },
    {
        if self.more {
            Some(api.list_promotions(PAGE_SIZE, self.offset))
        } else {
            None
        }
    }

    /// Whether the next page can be counted.
    pub fn can_take_page(&self) -> (r: bool)
        ensures
            r == (self@.offset + PAGE_SIZE <= u32::MAX),
    {
        self.offset <= u32::MAX - PAGE_SIZE
    }

    /// Takes in one page.
    pub fn take_page(&mut self, page: PromotionList)
        requires
            page.promotions@.len() >= PAGE_SIZE ==> old(self)@.offset + PAGE_SIZE <= u32::MAX,
        ensures
            final(self)@ == old(self)@.after(promotions_model(page.promotions@)),
    {
        let mut promotions: Vec<PromotionSummary> = page.promotions;
        let n: usize = promotions.len();
        let ghost before = self.collected@;
        let ghost added = promotions@;
        self.collected.append(&mut promotions);
        proof {
            assert(promotions_model(self.collected@) =~= promotions_model(before)
                + promotions_model(added));
        }
        if n < PAGE_SIZE as usize {
            self.more = false;
        } else {
            self.offset = self.offset + PAGE_SIZE;
        }
    }

    /// What has been collected.
    pub fn into_promotions(self) -> (r: Vec<PromotionSummary>)
        ensures
            promotions_model(r@) == self@.collected,
    {
        self.collected
    }
}

/// Starts to fetch all promotions, with nothing collected.
pub fn fetch_all_promotions() -> (r: PromotionFetch)
    ensures
        r@ == fetch_start(),
{
    let collected: Vec<PromotionSummary> = Vec::new();
    proof {
        assert(promotions_model(collected@) =~= Seq::empty());
    }
    PromotionFetch { collected, offset: 0, more: true }
}

/// The page of a list that begins at an offset.
pub open spec fn page_at(all: Seq<PromotionModel>, offset: nat) -> Seq<PromotionModel> {
    if offset >= all.len() {
        Seq::empty()
    } else if offset + PAGE_SIZE <= all.len() {
        all.subrange(offset as int, offset + PAGE_SIZE)
    } else {
        all.skip(offset as int)
    }
}

/// The collection after `n` pages of a service that holds the promotions
/// `all` and answers every request with the page asked for.
pub open spec fn fetch_of(all: Seq<PromotionModel>, n: nat) -> FetchModel
    decreases n,
{
    if n == 0 {
        fetch_start()
    } else {
        let before = fetch_of(all, (n - 1) as nat);
        before.after(page_at(all, before.offset))
    }
}

/// Whatever the number of promotions that the service holds, the collection
/// comes to an end, and then holds all of them, each once and in order.
pub proof fn law_fetch_collects_everything(all: Seq<PromotionModel>)
    ensures
        fetch_of(all, all.len() / 50 + 1).collected == all,
        !fetch_of(all, all.len() / 50 + 1).more,
        forall|n: nat| n <= all.len() / 50 ==> (#[trigger] fetch_of(all, n)).more,
{
    let last = all.len() / 50;
    assert forall|n: nat| n <= last implies (#[trigger] fetch_of(all, n)).more by {
        lemma_full_pages(all, n);
    }
    lemma_full_pages(all, last);
    let before = fetch_of(all, last);
    assert(before.collected + page_at(all, before.offset) =~= all);
}

proof fn lemma_full_pages(all: Seq<PromotionModel>, n: nat)
    requires
        n <= all.len() / 50,
    ensures
        fetch_of(all, n) == (FetchModel {
            collected: all.take(50 * n as int),
            offset: 50 * n,
            more: true,
        }),
    decreases n,
{
    if n == 0 {
        assert(all.take(0) =~= Seq::empty());
    } else {
        lemma_full_pages(all, (n - 1) as nat);
        let before = fetch_of(all, (n - 1) as nat);
        let page = page_at(all, before.offset);
        assert(before.collected + page =~= all.take(50 * n as int));
    }
}

/// Every page is kept behind the pages before it. A page of 50 promotions or
/// more is followed by the one that begins 50 further on; a smaller one is the
/// last.
pub proof fn law_pages_follow_each_other(so_far: FetchModel, page: Seq<PromotionModel>)
    ensures
        so_far.after(page).collected == so_far.collected + page,
        page.len() >= 50 ==> so_far.after(page).offset == so_far.offset + 50 && so_far.after(
            page,
        ).more == so_far.more,
        page.len() < 50 ==> !so_far.after(page).more,
        fetch_start().collected.len() == 0,
        fetch_start().offset == 0,
        fetch_start().more,
        PAGE_SIZE == 50,
{
}

/// The page at an offset holds the promotions from there on, 50 at most.
pub proof fn law_page_holds_the_next_fifty(all: Seq<PromotionModel>, offset: nat, k: int)
    requires
        0 <= k < 50,
        offset + k < all.len(),
    ensures
        page_at(all, offset).len() == 50 || offset + page_at(all, offset).len() == all.len(),
        page_at(all, offset).len() <= 50,
        k < page_at(all, offset).len(),
        page_at(all, offset)[k] == all[offset + k],
{
}

} // verus!
