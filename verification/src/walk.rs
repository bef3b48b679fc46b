//! Reading a list that the venue hands out page by page.
//!
//! Each page holds a cursor for the next one. A walk gathers the items of all pages. It ends with
//! the page whose cursor is empty or absent. A walk that does not end within its number of pages is
//! refused: a list that may be cut short is never handed out as a whole one.

use vstd::prelude::*;

use crate::error::KalshiError;
use crate::orders::OrderRecord;
use crate::portfolio::{MarketPosition, RestFill};
use crate::rest::RestClient;
use crate::text::push_numeral;

verus! {

use crate::error::is_refusal;
use crate::text::numeral;

/// A walk that has not ended.
#[derive(Debug)]
pub struct CursorWalk<T> {
    label: &'static str,
    max_pages: usize,
    pages: usize,
    items: Vec<T>,
    cursor: Option<String>,
}

/// What a page did to a walk.
#[derive(Debug)]
pub enum WalkStep<T> {
    /// The walk has ended with these items.
    Done(Vec<T>),
    /// The walk goes on with the next page.
    More(CursorWalk<T>),
}

/// Whether a page with this cursor is the last.
pub open spec fn is_last(next: Option<Seq<char>>) -> bool {
    match next {
        Some(cursor) => cursor.len() == 0,
        None => true,
    }
}

pub open spec fn cursor_view(next: Option<String>) -> Option<Seq<char>> {
    match next {
        Some(cursor) => Some(cursor@),
        None => None,
    }
}

/// A page as contracts speak of it.
pub struct Page<T> {
    pub items: Seq<T>,
    pub next: Option<Seq<char>>,
}

/// How far a walk has come.
pub enum Progress<T> {
    /// It has read so many pages, with these items, and goes on.
    Going(nat, Seq<T>),
    /// It has ended with these items.
    Done(Seq<T>),
    /// It did not end in time.
    TooLong,
}

/// What a page does to a walk of at most `max_pages` pages.
pub open spec fn stepped<T>(progress: Progress<T>, max_pages: nat, page: Page<T>) -> Progress<T> {
    match progress {
        Progress::Going(pages, items) => if is_last(page.next) {
            Progress::Done(items + page.items)
        } else if pages + 1 >= max_pages {
            Progress::TooLong
        } else {
            Progress::Going(pages + 1, items + page.items)
        },
        ended => ended,
    }
}

/// How far a walk has come after these pages.
pub open spec fn walked<T>(max_pages: nat, pages: Seq<Page<T>>) -> Progress<T>
    decreases pages.len(),
{
    if pages.len() == 0 {
        Progress::Going(0, Seq::empty())
    } else {
        stepped(walked(max_pages, pages.drop_last()), max_pages, pages.last())
    }
}

/// The items of these pages, in order.
pub open spec fn all_items<T>(pages: Seq<Page<T>>) -> Seq<T>
    decreases pages.len(),
{
    if pages.len() == 0 {
        Seq::empty()
    } else {
        all_items(pages.drop_last()) + pages.last().items
    }
}

/// The text of the refusal of a walk that is too long.
pub open spec fn too_long_text(label: Seq<char>, max_pages: nat) -> Seq<char> {
    label + ": cursor walk exceeded "@ + numeral(max_pages)
        + " pages — refusing to return a possibly-truncated inventory"@
}

impl<T> CursorWalk<T> {
    /// A walk that has not ended has a page left to read.
    #[verifier::type_invariant]
    spec fn has_a_page_left(self) -> bool {
        self.pages < self.max_pages
    }

    /// What the walk reads, as a refusal names it.
    pub closed spec fn label(self) -> Seq<char> {
        self.label@
    }

    /// How many pages it may read.
    pub closed spec fn max_pages(self) -> nat {
        self.max_pages as nat
    }

    /// How many pages it has read.
    pub closed spec fn pages(self) -> nat {
        self.pages as nat
    }

    /// The items of those pages.
    pub closed spec fn items(self) -> Seq<T> {
        self.items@
    }

    /// How far it has come. It has not ended.
    pub open spec fn progress(self) -> Progress<T> {
        Progress::Going(self.pages(), self.items())
    }

    /// The cursor of the next page: none for the first.
    pub closed spec fn next(self) -> Option<Seq<char>> {
        cursor_view(self.cursor)
    }

    /// A walk before its first page.
    pub open spec fn is_start(self, label: Seq<char>, max_pages: nat) -> bool {
        &&& self.label() == label
        &&& self.max_pages() == max_pages
        &&& self.progress() == walked(max_pages, Seq::<Page<T>>::empty())
        &&& self.next() is None
    }

    /// `step` is what a page does to the walk.
    pub open spec fn is_step(
        self,
        page: Page<T>,
        step: Result<WalkStep<T>, KalshiError>,
    ) -> bool {
        let after = stepped(self.progress(), self.max_pages(), page);
        match step {
            Ok(WalkStep::Done(items)) => after == Progress::Done(items@),
            Ok(WalkStep::More(walk)) => {
                &&& after == walk.progress()
                &&& walk.label() == self.label()
                &&& walk.max_pages() == self.max_pages()
                &&& walk.next() == page.next
            },
            Err(error) => {
                &&& after == Progress::<T>::TooLong
                &&& is_refusal(error, too_long_text(self.label(), self.max_pages()))
            },
        }
    }

    fn start(label: &'static str, max_pages: usize) -> (walk: CursorWalk<T>)
        requires
            max_pages > 0,
        ensures
            walk.is_start(label@, max_pages as nat),
    {
        CursorWalk { label, max_pages, pages: 0, items: Vec::new(), cursor: None }
    }

    /// The cursor with which to ask for the next page.
    pub fn cursor(&self) -> (cursor: Option<&str>)
        ensures
            match cursor {
                Some(cursor) => self.next() == Some(cursor@),
                None => self.next() is None,
            },
    {
        match &self.cursor {
            Some(cursor) => Some(cursor.as_str()),
            None => None,
        }
    }

    /// Takes in a page: its items and its cursor.
    pub fn step(self, page: Vec<T>, next: Option<String>) -> (step: Result<
        WalkStep<T>,
        KalshiError,
    >)
        ensures
            self.is_step(Page { items: page@, next: cursor_view(next) }, step),
            step is Ok && step->Ok_0 is Done <==> next is None || next->0@.len() == 0,
            step is Ok && step->Ok_0 is Done ==> step->Ok_0->Done_0@ == self.items() + page@,
            step is Ok && step->Ok_0 is More <==> next is Some && next->0@.len() > 0 && self.pages()
                + 1 < self.max_pages(),
            step is Ok && step->Ok_0 is More ==> {
                &&& step->Ok_0->More_0.next() == Some(next->0@)
                &&& step->Ok_0->More_0.items() == self.items() + page@
                &&& step->Ok_0->More_0.pages() == self.pages() + 1
                &&& step->Ok_0->More_0.max_pages() == self.max_pages()
                &&& step->Ok_0->More_0.label() == self.label()
            },
    {
        proof {
            use_type_invariant(&self);
        }
        let mut page = page;
        let mut items = self.items;
        items.append(&mut page);
        let last = match &next {
            Some(cursor) => cursor.as_str().is_empty(),
            None => true,
        };
        if last {
            return Ok(WalkStep::Done(items));
        }
        if self.pages + 1 >= self.max_pages {
            let mut body = String::from_str(self.label);
            body.append(": cursor walk exceeded ");
            push_numeral(&mut body, self.max_pages as u64);
            body.append(" pages — refusing to return a possibly-truncated inventory");
            return Err(KalshiError::Api { status: 0, body });
        }
        Ok(
            WalkStep::More(
                CursorWalk {
                    label: self.label,
                    max_pages: self.max_pages,
                    pages: self.pages + 1,
                    items,
                    cursor: next,
                },
            ),
        )
    }
}

impl CursorWalk<OrderRecord> {
    /// A walk over every resting order.
    pub fn resting_orders() -> (walk: CursorWalk<OrderRecord>)
        ensures
            walk.is_start("get_resting_orders"@, RestClient::ORDERS_WALK_MAX_PAGES as nat),
    {
        CursorWalk::start("get_resting_orders", RestClient::ORDERS_WALK_MAX_PAGES)
    }
}

impl CursorWalk<MarketPosition> {
    /// A walk over every position.
    pub fn all_positions() -> (walk: CursorWalk<MarketPosition>)
        ensures
            walk.is_start("get_all_positions"@, RestClient::POSITIONS_WALK_MAX_PAGES as nat),
    {
        CursorWalk::start("get_all_positions", RestClient::POSITIONS_WALK_MAX_PAGES)
    }
}

impl CursorWalk<RestFill> {
    /// A walk over every fill.
    pub fn all_fills() -> (walk: CursorWalk<RestFill>)
        ensures
            walk.is_start("get_all_fills"@, RestClient::FILLS_WALK_MAX_PAGES as nat),
    {
        CursorWalk::start("get_all_fills", RestClient::FILLS_WALK_MAX_PAGES)
    }
}

// ---------------------------------------------------------------------------
// Laws
// ---------------------------------------------------------------------------

proof fn lemma_going<T>(max_pages: nat, pages: Seq<Page<T>>)
    requires
        pages.len() == 0 || pages.len() < max_pages,
        forall|i: int| 0 <= i < pages.len() ==> !is_last((#[trigger] pages[i]).next),
    ensures
        walked(max_pages, pages) == Progress::Going(pages.len(), all_items(pages)),
    decreases pages.len(),
{
    if pages.len() > 0 {
        let front = pages.drop_last();
        assert forall|i: int| 0 <= i < front.len() implies !is_last((#[trigger] front[i]).next) by {
            assert(front[i] == pages[i]);
        }
        lemma_going(max_pages, front);
        assert(!is_last(pages[pages.len() - 1].next));
    }
}

/// Only an empty or an absent cursor ends a list. Any other, however long, leads on.
pub proof fn law_only_an_empty_cursor_ends(cursor: Seq<char>, text: String)
    ensures
        is_last(None),
        cursor.len() == 0 ==> is_last(Some(cursor)),
        cursor.len() > 0 ==> !is_last(Some(cursor)),
        cursor_view(Some(text)) == Some(text@),
        cursor_view(None) is None,
{
}

/// A page with a cursor sends the walk on to the page of that very cursor, with the page's items
/// behind those it had, as long as it may read another page after this one.
pub proof fn law_cursor_leads_to_the_next_page<T>(
    walk: CursorWalk<T>,
    page: Page<T>,
    step: Result<WalkStep<T>, KalshiError>,
    cursor: Seq<char>,
)
    requires
        walk.is_step(page, step),
        page.next == Some(cursor),
        cursor.len() > 0,
        walk.pages() + 2 <= walk.max_pages(),
    ensures
        step is Ok,
        step->Ok_0 is More,
        step->Ok_0->More_0.next() == Some(cursor),
        step->Ok_0->More_0.items() == walk.items() + page.items,
        step->Ok_0->More_0.pages() == walk.pages() + 1,
        step->Ok_0->More_0.max_pages() == walk.max_pages(),
        step->Ok_0->More_0.label() == walk.label(),
{
}

/// A walk hands out its items where the page has no cursor or an empty one, and only there, and
/// what it hands out is what it had and the page's items behind that.
pub proof fn law_walk_is_done_only_without_a_cursor<T>(
    walk: CursorWalk<T>,
    page: Page<T>,
    step: Result<WalkStep<T>, KalshiError>,
)
    requires
        walk.is_step(page, step),
    ensures
        step is Ok && step->Ok_0 is Done <==> page.next is None || page.next->0.len() == 0,
        step is Ok && step->Ok_0 is Done ==> step->Ok_0->Done_0@ == walk.items() + page.items,
{
}

/// A walk is refused where its last page has a cursor still, and only there.
pub proof fn law_walk_is_refused_only_at_its_limit<T>(
    walk: CursorWalk<T>,
    page: Page<T>,
    step: Result<WalkStep<T>, KalshiError>,
)
    requires
        walk.is_step(page, step),
    ensures
        step is Err <==> page.next is Some && page.next->0.len() > 0 && walk.pages() + 1
            >= walk.max_pages(),
        step is Err ==> is_refusal(step->Err_0, too_long_text(walk.label(), walk.max_pages())),
{
}

/// A walk starts with no page read, no items and no cursor.
pub proof fn law_walk_starts_empty<T>(walk: CursorWalk<T>, label: Seq<char>, max_pages: nat)
    requires
        walk.is_start(label, max_pages),
    ensures
        walk.pages() == 0,
        walk.items() == Seq::<T>::empty(),
        walk.next() is None,
        walk.label() == label,
        walk.max_pages() == max_pages,
{
}

/// The three walks read at most fifty pages each, and a refusal names the walk.
pub proof fn law_refusal_names_the_walk()
    ensures
        RestClient::ORDERS_WALK_MAX_PAGES == 50,
        RestClient::POSITIONS_WALK_MAX_PAGES == 50,
        RestClient::FILLS_WALK_MAX_PAGES == 50,
        forall|label: Seq<char>| #[trigger]
            too_long_text(label, 50) == label
                + ": cursor walk exceeded 50 pages — refusing to return a possibly-truncated inventory"@,
{
    reveal_strlit(": cursor walk exceeded ");
    reveal_strlit(" pages — refusing to return a possibly-truncated inventory");
    reveal_strlit(
        ": cursor walk exceeded 50 pages — refusing to return a possibly-truncated inventory",
    );
    reveal_with_fuel(numeral, 3);
    assert(numeral(50) =~= seq!['5', '0']);
    assert forall|label: Seq<char>| #[trigger]
        too_long_text(label, 50) == label
            + ": cursor walk exceeded 50 pages — refusing to return a possibly-truncated inventory"@ by {
        assert(too_long_text(label, 50) =~= label
            + ": cursor walk exceeded 50 pages — refusing to return a possibly-truncated inventory"@);
    }
}

/// How far a walk has come, page by page. Before the first page it has nothing. A page without a
/// cursor ends it with all items up to there; a page with one sends it on, and at the limit it is
/// refused. After its end nothing changes.
pub proof fn law_walk_page_by_page<T>(max_pages: nat, pages: Seq<Page<T>>, page: Page<T>)
    ensures
        walked(max_pages, Seq::<Page<T>>::empty()) == Progress::Going(0, Seq::<T>::empty()),
        all_items(Seq::<Page<T>>::empty()) == Seq::<T>::empty(),
        all_items(pages.push(page)) == all_items(pages) + page.items,
        walked(max_pages, pages.push(page)) == (match walked(max_pages, pages) {
            Progress::Going(read, items) => if page.next is None || page.next->0.len() == 0 {
                Progress::Done(items + page.items)
            } else if read + 1 < max_pages {
                Progress::Going(read + 1, items + page.items)
            } else {
                Progress::TooLong
            },
            Progress::Done(items) => Progress::Done(items),
            Progress::TooLong => Progress::TooLong,
        }),
{
    assert(pages.push(page).drop_last() =~= pages);
    assert(pages.push(page).last() == page);
}

/// A walk that reaches the last page in time hands out the items of all pages, in order.
pub proof fn law_walk_gathers_every_page<T>(max_pages: nat, pages: Seq<Page<T>>)
    requires
        0 < pages.len() <= max_pages,
        pages.last().next is None || pages.last().next->0.len() == 0,
        forall|i: int|
            0 <= i < pages.len() - 1 ==> (#[trigger] pages[i]).next is Some
                && pages[i].next->0.len()
                > 0,
    ensures
        walked(max_pages, pages) == Progress::Done(all_items(pages)),
{
    let front = pages.drop_last();
    assert forall|i: int| 0 <= i < front.len() implies !is_last((#[trigger] front[i]).next) by {
        assert(front[i] == pages[i]);
    }
    lemma_going(max_pages, front);
}

/// A walk whose pages go on past its limit is refused.
pub proof fn law_endless_walk_is_refused<T>(max_pages: nat, pages: Seq<Page<T>>)
    requires
        max_pages > 0,
        pages.len() == max_pages,
        forall|i: int|
            0 <= i < pages.len() ==> (#[trigger] pages[i]).next is Some && pages[i].next->0.len()
                > 0,
    ensures
        walked(max_pages, pages) is TooLong,
{
    let front = pages.drop_last();
    assert forall|i: int| 0 <= i < front.len() implies !is_last((#[trigger] front[i]).next) by {
        assert(front[i] == pages[i]);
    }
    lemma_going(max_pages, front);
    assert(!is_last(pages[pages.len() - 1].next));
}

/// What a walk hands out is never cut short: it is the items of every page up to and with the first
/// whose cursor is empty or absent.
pub proof fn law_walk_is_never_cut_short<T>(max_pages: nat, pages: Seq<Page<T>>)
    requires
        walked(max_pages, pages) is Done,
    ensures
        exists|k: int|
            0 < k <= pages.len() && ((#[trigger] pages[k - 1]).next is None || pages[k
                - 1].next->0.len() == 0) && (forall|i: int|
                0 <= i < k - 1 ==> (#[trigger] pages[i]).next is Some && pages[i].next->0.len() > 0)
                && walked(max_pages, pages) == Progress::Done(all_items(pages.take(k))),
    decreases pages.len(),
{
    let front = pages.drop_last();
    if walked(max_pages, front) is Done {
        law_walk_is_never_cut_short(max_pages, front);
        let k = choose|k: int|
            0 < k <= front.len() && ((#[trigger] front[k - 1]).next is None || front[k
                - 1].next->0.len() == 0) && (forall|i: int|
                0 <= i < k - 1 ==> (#[trigger] front[i]).next is Some && front[i].next->0.len() > 0)
                && walked(max_pages, front) == Progress::Done(all_items(front.take(k)));
        assert(front.take(k) =~= pages.take(k));
        assert(pages[k - 1] == front[k - 1]);
        assert forall|i: int| 0 <= i < k - 1 implies (#[trigger] pages[i]).next is Some
            && pages[i].next->0.len() > 0 by {
            assert(front[i] == pages[i]);
        }
    } else {
        lemma_going_means_no_last(max_pages, front);
        let k = pages.len() as int;
        assert(pages.take(k) =~= pages);
        assert(is_last(pages[k - 1].next));
        assert forall|i: int| 0 <= i < k - 1 implies (#[trigger] pages[i]).next is Some
            && pages[i].next->0.len() > 0 by {
            assert(front[i] == pages[i]);
        }
    }
}

proof fn lemma_going_means_no_last<T>(max_pages: nat, pages: Seq<Page<T>>)
    requires
        walked(max_pages, pages) is Going,
    ensures
        forall|i: int| 0 <= i < pages.len() ==> !is_last((#[trigger] pages[i]).next),
        walked(max_pages, pages) == Progress::Going(pages.len(), all_items(pages)),
    decreases pages.len(),
{
    if pages.len() > 0 {
        let front = pages.drop_last();
        lemma_going_means_no_last(max_pages, front);
        assert forall|i: int| 0 <= i < pages.len() implies !is_last((#[trigger] pages[i]).next) by {
            if i < front.len() {
                assert(front[i] == pages[i]);
            }
        }
    }
}

} // verus!
