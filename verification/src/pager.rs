//! Walking a paginated listing.
//!
//! The service answers a listing page by page; each page names the address
//! of the next. Fetching is not done here. A [`Pager`] says which address to
//! ask next and takes the page that came back, until a page names no
//! successor.
use crate::text::owned;
use vstd::prelude::*;

verus! {

/// One page of a listing: its items and the address of the next page, if
/// there is one.
#[derive(Debug, PartialEq, Eq)]
pub struct Paginated<T> {
    pub values: Vec<T>,
    pub next: Option<String>,
}

/// The address in an optional link, as plain text.
pub open spec fn link_view(link: Option<String>) -> Option<Seq<char>> {
    match link {
        Some(url) => Some(url@),
        None => None,
    }
}

/// The items of the first `n` of `pages`, page after page.
pub open spec fn items_of<T>(pages: Seq<Paginated<T>>, n: int) -> Seq<T>
    decreases n,
{
    if n <= 0 {
        Seq::empty()
    } else {
        items_of(pages, n - 1) + pages[n - 1].values@
    }
}

/// The items of all of `act`, page after page, in the order in which each
/// page holds them.
pub fn activities_to_items<T>(act: Vec<Paginated<T>>) -> (r: Vec<T>)
    ensures
        r@ == items_of(act@, act@.len() as int),
{
    let mut act = act;
    let ghost pages = act@;
    let mut res: Vec<T> = Vec::new();
    let mut i: usize = 0;
    while i < act.len()
        invariant
            i <= act@.len(),
            act@.len() == pages.len(),
            forall|j: int| i <= j < pages.len() ==> act@[j] == pages[j],
            res@ == items_of(pages, i as int),
        decreases act@.len() - i,
    {
        res.append(&mut act[i].values);
        i += 1;
    }
    res
}

/// How far a walk through a listing has come: the items gathered so far and
/// the address to ask next, if the listing goes on.
#[derive(Debug, PartialEq, Eq)]
pub struct Pager<T> {
    values: Vec<T>,
    next: Option<String>,
}

/// A walk as a mathematical value.
pub struct PagerView<T> {
    pub values: Seq<T>,
    pub next: Option<Seq<char>>,
}

impl<T> View for Pager<T> {
    type V = PagerView<T>;

    closed spec fn view(&self) -> PagerView<T> {
        PagerView { values: self.values@, next: link_view(self.next) }
    }
}

/// The walk before its first page: nothing gathered, `url` to be asked.
pub open spec fn walk_start<T>(url: Seq<char>) -> PagerView<T> {
    PagerView { values: Seq::empty(), next: Some(url) }
}

/// The walk `p` after the page `page` came in: its items are added behind
/// those gathered, and the address it names is the one to ask next.
pub open spec fn after_page<T>(p: PagerView<T>, page: Paginated<T>) -> PagerView<T> {
    PagerView { values: p.values + page.values@, next: link_view(page.next) }
}

/// The walk `p` after the first `n` of `pages` came in, in order.
pub open spec fn after_pages<T>(p: PagerView<T>, pages: Seq<Paginated<T>>, n: int) -> PagerView<T>
    decreases n,
{
    if n <= 0 {
        p
    } else {
        after_page(after_pages(p, pages, n - 1), pages[n - 1])
    }
}

/// A walk that starts at `url` and has taken in the first `n` of `pages` has
/// gathered exactly their items, page after page and within a page in the
/// page's order. The address it asks next is `url` before the first page and
/// afterwards the one that the last page names: so every address that a page
/// names is asked once, directly after that page, and the walk is over when
/// a page names none.
pub proof fn lemma_walk_gathers_pages<T>(url: Seq<char>, pages: Seq<Paginated<T>>, n: int)
    requires
        0 <= n <= pages.len(),
    ensures
        after_pages(walk_start::<T>(url), pages, n).values == items_of(pages, n),
        after_pages(walk_start::<T>(url), pages, n).next == if n == 0 {
            Some(url)
        } else {
            link_view(pages[n - 1].next)
        },
    decreases n,
{
    if n > 0 {
        lemma_walk_gathers_pages(url, pages, n - 1);
    } else {
        assert(walk_start::<T>(url).values =~= items_of(pages, 0));
    }
}

impl<T> Pager<T> {
    /// The walk through the listing at `url`, before its first page.
    pub fn start(url: &str) -> (r: Pager<T>)
        ensures
            r@ == walk_start::<T>(url@),
    {
        Pager { values: Vec::new(), next: Some(owned(url)) }
    }

    /// The walk through a listing whose first page `first` is at hand.
    pub fn new(first: Paginated<T>) -> (r: Pager<T>)
        ensures
            r@.values == first.values@,
            r@.next == link_view(first.next),
    {
        Pager { values: first.values, next: first.next }
    }

    /// The address of the page to fetch next; `None` when the last page has
    /// come in.
    pub fn next_url(&self) -> (r: Option<&String>)
        ensures
            match r {
                Some(url) => self@.next == Some(url@),
                None => self@.next is None,
            },
    {
        match &self.next {
            Some(url) => Some(url),
            None => None,
        }
    }

    /// Whether the last page has come in.
    pub fn is_done(&self) -> (r: bool)
        ensures
            r == (self@.next is None),
    {
        self.next.is_none()
    }

    /// Takes in the page that was fetched from the address asked for.
    pub fn accept(&mut self, page: Paginated<T>)
        ensures
            final(self)@ == after_page(old(self)@, page),
    {
        let mut page = page;
        self.values.append(&mut page.values);
        self.next = page.next;
    }

    /// The items gathered, in the order in which they came in.
    pub fn into_values(self) -> (r: Vec<T>)
        ensures
            r@ == self@.values,
    {
        self.values
    }
}

} // verus!
