//! Splitting a list of rows into numbered pages, and moving between pages
//! with wrap-around.

use vstd::prelude::*;
use crate::config::TERMS_PER_PAGE;
use vstd::arithmetic::div_mod::{lemma_fundamental_div_mod, lemma_mod_pos_bound};

verus! {

/// A row that can be shown on a page: a title and a body of text.
pub trait PageRow {
    fn title(&self) -> String;

    fn body(&self) -> String;
}

/// Pages needed for `n` rows at `per` rows a page; an empty list still has
/// one (empty) page.
pub open spec fn pages_needed(n: int, per: int) -> int {
    if n == 0 {
        1
    } else {
        (n + per - 1) / per
    }
}

/// The rows of page `i` when `es` is cut into pages of `per` rows.
pub open spec fn rows_of_page<A>(es: Seq<A>, per: int, i: int) -> Seq<A> {
    es.subrange(
        i * per,
        if (i + 1) * per < es.len() {
            (i + 1) * per
        } else {
            es.len() as int
        },
    )
}

/// Rows a page holds for a list with the given title: the glossary shows
/// one term a page, every other list `TERMS_PER_PAGE` rows.
pub fn terms_per_page(title: &String) -> (per: usize)
    ensures
        per == (if title@ == "Glossary"@ {
            1usize
        } else {
            10usize
        }),
{
    let glossary = "Glossary".to_owned();
    if *title == glossary {
        1
    } else {
        TERMS_PER_PAGE
    }
}

/// One page: its rows, its number (from 0), and how many pages there are.
pub struct PaginationPage<'a, T> {
    entries: Vec<&'a T>,
    page_number: usize,
    page_count: usize,
}

impl<'a, T> PaginationPage<'a, T> {
    pub closed spec fn rows(&self) -> Seq<&'a T> {
        self.entries@
    }

    pub closed spec fn number(&self) -> nat {
        self.page_number as nat
    }

    pub closed spec fn of_pages(&self) -> nat {
        self.page_count as nat
    }

    /// Whether the page holds no rows.
    pub fn is_empty(&self) -> (r: bool)
        ensures
            r == (self.rows().len() == 0),
    {
        self.entries.len() == 0
    }

    /// The rows of the page.
    pub fn entries(&self) -> (r: &Vec<&'a T>)
        ensures
            r@ == self.rows(),
    {
        &self.entries
    }

    /// The number of the page, from 0.
    pub fn page_number(&self) -> (r: usize)
        ensures
            r == self.number(),
    {
        self.page_number
    }

    /// How many pages the list has.
    pub fn page_count(&self) -> (r: usize)
        ensures
            r == self.of_pages(),
    {
        self.page_count
    }
}

/// A titled list cut into pages.
pub struct Pagination<'a, T> {
    page_data: Vec<PaginationPage<'a, T>>,
    page_count: usize,
    title: String,
}

impl<'a, T> Pagination<'a, T> {
    pub closed spec fn count(&self) -> nat {
        self.page_count as nat
    }

    pub closed spec fn page_at(&self, i: int) -> PaginationPage<'a, T> {
        self.page_data@[i]
    }

    pub closed spec fn heading(&self) -> Seq<char> {
        self.title@
    }

    /// There is at least one page, and page `i` carries number `i` and the
    /// page count.
    pub closed spec fn wf(&self) -> bool {
        &&& self.page_count >= 1
        &&& self.page_data@.len() == self.page_count
        &&& forall|i: int|
            0 <= i < self.page_count ==> (#[trigger] self.page_data@[i]).page_number == i
                && self.page_data@[i].page_count == self.page_count
    }

    /// Cuts `entries` into pages of `terms_per_page(title)` rows, in order;
    /// an empty list gets a single empty page.
    pub fn new(title: String, entries: Vec<&'a T>) -> (r: Pagination<'a, T>)
        ensures
            r.wf(),
            r.heading() == title@,
            r.count() == pages_needed(
                entries@.len() as int,
                (if title@ == "Glossary"@ {
                    1int
                } else {
                    10int
                }),
            ),
            forall|i: int|
                0 <= i < r.count() ==> (#[trigger] r.page_at(i)).rows() == rows_of_page(
                    entries@,
                    (if title@ == "Glossary"@ {
                        1int
                    } else {
                        10int
                    }),
                    i,
                ) && r.page_at(i).number() == i && r.page_at(i).of_pages() == r.count(),
    {
        let per = terms_per_page(&title);
        let n = entries.len();
        let mut page_data: Vec<PaginationPage<'a, T>> = Vec::new();
        if n == 0 {
            page_data.push(PaginationPage { entries: Vec::new(), page_number: 0, page_count: 1 });
            proof {
                assert(rows_of_page(entries@, per as int, 0) =~= Seq::<&'a T>::empty());
                assert(page_data@[0].entries@ =~= Seq::<&'a T>::empty());
            }
            return Pagination { page_data, page_count: 1, title };
        }
        let page_count: usize = if n % per == 0 {
            n / per
        } else {
            n / per + 1
        };
        proof {
            lemma_page_count(n as int, per as int);
        }
        let mut p: usize = 0;
        while p < page_count
            invariant
                per == 1 || per == 10,
                n == entries@.len(),
                n > 0,
                page_count == pages_needed(n as int, per as int),
                p <= page_count,
                page_data@.len() == p,
                forall|i: int|
                    0 <= i < p ==> (#[trigger] page_data@[i]).entries@ == rows_of_page(
                        entries@,
                        per as int,
                        i,
                    ) && page_data@[i].page_number == i && page_data@[i].page_count == page_count,
            decreases page_count - p,
        {
            proof {
                lemma_page_start(n as int, per as int, p as int);
            }
            let start = p * per;
            let end = if n - start <= per {
                n
            } else {
                start + per
            };
            let mut rows: Vec<&'a T> = Vec::new();
            let mut k: usize = start;
            while k < end
                invariant
                    start <= k <= end,
                    end <= entries@.len(),
                    rows@ == entries@.subrange(start as int, k as int),
                decreases end - k,
            {
                rows.push(entries[k]);
                k = k + 1;
                proof {
                    assert(rows@ =~= entries@.subrange(start as int, k as int));
                }
            }
            proof {
                assert((p + 1) * per == start + per) by (nonlinear_arith)
                    requires
                        start == p * per,
                ;
                assert(rows@ =~= rows_of_page(entries@, per as int, p as int));
            }
            page_data.push(PaginationPage { entries: rows, page_number: p, page_count });
            p = p + 1;
        }
        Pagination { page_data, page_count, title }
    }

    /// How many pages there are.
    pub fn get_page_count(&self) -> (r: usize)
        ensures
            r == self.count(),
    {
        self.page_count
    }

    /// The number of the last page.
    pub fn get_last_page_number(&self) -> (r: usize)
        requires
            self.wf(),
        ensures
            r == self.count() - 1,
    {
        self.page_count - 1
    }

    /// The title of the list.
    pub fn title(&self) -> (r: &String)
        ensures
            r@ == self.heading(),
    {
        &self.title
    }

    /// Page `page`, or `None` past the last page.
    pub fn get_page(&self, page: usize) -> (r: Option<&PaginationPage<'a, T>>)
        requires
            self.wf(),
        ensures
            r.is_some() == (page < self.count()),
            r.is_some() ==> *r.unwrap() == self.page_at(page as int),
    {
        if page < self.page_data.len() {
            Some(&self.page_data[page])
        } else {
            None
        }
    }

    /// The page reached by moving `change_by` pages from `current_page`,
    /// wrapping to the last page before the first and to the first page
    /// past the last.
    pub fn update_page_number(&self, current_page: usize, change_by: isize) -> (r: usize)
        requires
            self.wf(),
        ensures
            r == (if current_page + change_by < 0 {
                self.count() - 1
            } else if current_page + change_by >= self.count() {
                0
            } else {
                current_page + change_by
            }),
    {
        let target: i128 = current_page as i128 + change_by as i128;
        if target < 0 {
            self.page_count - 1
        } else if target >= self.page_count as i128 {
            0
        } else {
            target as usize
        }
    }
}

proof fn lemma_page_count(n: int, per: int)
    requires
        n > 0,
        per > 0,
    ensures
        (if n % per == 0 {
            n / per
        } else {
            n / per + 1
        }) == pages_needed(n, per),
        pages_needed(n, per) <= n,
        pages_needed(n, per) >= 1,
{
    lemma_fundamental_div_mod(n, per);
    lemma_fundamental_div_mod(n + per - 1, per);
    lemma_mod_pos_bound(n, per);
    lemma_mod_pos_bound(n + per - 1, per);
    assert(n / per <= n) by (nonlinear_arith)
        requires
            n > 0,
            per > 0,
            n == per * (n / per) + n % per,
            0 <= n % per < per,
    ;
    if n % per == 0 {
        assert((n + per - 1) / per == n / per) by (nonlinear_arith)
            requires
                n > 0,
                per > 0,
                n == per * (n / per),
                (n + per - 1) == per * ((n + per - 1) / per) + (n + per - 1) % per,
                0 <= (n + per - 1) % per < per,
        ;
        assert(n / per >= 1) by (nonlinear_arith)
            requires
                n > 0,
                per > 0,
                n == per * (n / per),
        ;
    } else {
        assert((n + per - 1) / per == n / per + 1) by (nonlinear_arith)
            requires
                n > 0,
                per > 0,
                n == per * (n / per) + n % per,
                0 < n % per < per,
                (n + per - 1) == per * ((n + per - 1) / per) + (n + per - 1) % per,
                0 <= (n + per - 1) % per < per,
        ;
        assert(n / per + 1 <= n) by (nonlinear_arith)
            requires
                n > 0,
                per > 0,
                n == per * (n / per) + n % per,
                0 < n % per < per,
        ;
        assert(n / per >= 0) by (nonlinear_arith)
            requires
                n > 0,
                per > 0,
                n == per * (n / per) + n % per,
                0 <= n % per < per,
        ;
    }
}

/// Every page but none past them starts on a row that exists.
proof fn lemma_page_start(n: int, per: int, p: int)
    requires
        n > 0,
        per > 0,
        0 <= p < pages_needed(n, per),
    ensures
        0 <= p * per < n,
{
    lemma_fundamental_div_mod(n + per - 1, per);
    lemma_mod_pos_bound(n + per - 1, per);
    assert(0 <= p * per < n) by (nonlinear_arith)
        requires
            n > 0,
            per > 0,
            0 <= p,
            p < (n + per - 1) / per,
            (n + per - 1) == per * ((n + per - 1) / per) + (n + per - 1) % per,
            0 <= (n + per - 1) % per < per,
    ;
}

} // verus!
