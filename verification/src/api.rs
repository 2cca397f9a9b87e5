//! The requests the client sends to the Raindrop.io API and the rule that
//! pages through all raindrops: the decisions between the network calls.

use vstd::prelude::*;

use crate::models::{ApiCollection, ApiRaindrop};

verus! {

/// The root of the REST API.
pub const BASE_URL: &'static str = "https://api.raindrop.io/rest/v1";

/// The path of the list of all raindrops, of every collection.
pub const RAINDROPS_PATH: &'static str = "/raindrops/0";

/// The path of the root collections.
pub const ROOT_COLLECTIONS_PATH: &'static str = "/collections";

/// The path of the nested collections.
pub const CHILD_COLLECTIONS_PATH: &'static str = "/collections/childrens";

/// How many raindrops one page holds at most.
pub const PER_PAGE: u32 = 50;

/// The pause between two page requests, in seconds: one request a second
/// is 60 a minute, half the 120 the API allows.
pub const REQUEST_INTERVAL_SECS: u64 = 1;

/// The decimal digit for `d` below 10.
pub open spec fn digit_char(d: nat) -> char {
    if d == 0 {
        '0'
    } else if d == 1 {
        '1'
    } else if d == 2 {
        '2'
    } else if d == 3 {
        '3'
    } else if d == 4 {
        '4'
    } else if d == 5 {
        '5'
    } else if d == 6 {
        '6'
    } else if d == 7 {
        '7'
    } else if d == 8 {
        '8'
    } else {
        '9'
    }
}

/// The decimal notation of `n`, without leading zeros.
pub open spec fn decimal_text(n: nat) -> Seq<char>
    decreases n,
{
    if n < 10 {
        seq![digit_char(n)]
    } else {
        decimal_text(n / 10) + seq![digit_char(n % 10)]
    }
}

/// The number a string of decimal digits stands for, reading its characters
/// by their code points ('0' is 48, '9' is 57).
pub open spec fn decimal_value(s: Seq<char>) -> int
    decreases s.len(),
{
    if s.len() == 0 {
        0
    } else {
        decimal_value(s.drop_last()) * 10 + (s.last() as int - '0' as int)
    }
}

/// The decimal notation of `n` is made of the characters '0' to '9', reads
/// back as `n`, and begins with '0' only when it is "0".
pub proof fn law_decimal_reads_back(n: nat)
    ensures
        decimal_text(n).len() >= 1,
        forall|i: int|
            0 <= i < decimal_text(n).len() ==> '0' <= #[trigger] decimal_text(n)[i] <= '9',
        decimal_value(decimal_text(n)) == n,
        decimal_text(n)[0] == '0' ==> n == 0 && decimal_text(n).len() == 1,
    decreases n,
{
    let s = decimal_text(n);
    if n < 10 {
        assert(s.drop_last() =~= Seq::<char>::empty());
        assert(digit_char(n) as int == '0' as int + n);
        assert(decimal_value(s) == decimal_value(s.drop_last()) * 10 + (s.last() as int - '0' as int));
    } else {
        law_decimal_reads_back(n / 10);
        let r = n % 10;
        assert(digit_char(r) as int == '0' as int + r);
        assert(s.drop_last() =~= decimal_text(n / 10));
        assert forall|i: int| 0 <= i < s.len() implies '0' <= #[trigger] s[i] <= '9' by {
            if i < s.len() - 1 {
                assert(s[i] == decimal_text(n / 10)[i]);
            }
        }
        assert(s[0] == decimal_text(n / 10)[0]);
        assert(s.last() == digit_char(r));
        vstd::arithmetic::div_mod::lemma_fundamental_div_mod(n as int, 10);
        assert(decimal_value(s) == decimal_value(decimal_text(n / 10)) * 10 + r);
    }
}

fn digit_str(d: u32) -> (s: &'static str)
    requires
        d < 10,
    ensures
        s@ == seq![digit_char(d as nat)],
{
    if d == 0 {
        proof { reveal_strlit("0"); }
        "0"
    } else if d == 1 {
        proof { reveal_strlit("1"); }
        "1"
    } else if d == 2 {
        proof { reveal_strlit("2"); }
        "2"
    } else if d == 3 {
        proof { reveal_strlit("3"); }
        "3"
    } else if d == 4 {
        proof { reveal_strlit("4"); }
        "4"
    } else if d == 5 {
        proof { reveal_strlit("5"); }
        "5"
    } else if d == 6 {
        proof { reveal_strlit("6"); }
        "6"
    } else if d == 7 {
        proof { reveal_strlit("7"); }
        "7"
    } else if d == 8 {
        proof { reveal_strlit("8"); }
        "8"
    } else {
        proof { reveal_strlit("9"); }
        "9"
    }
}

/// The decimal notation of `n`, as `n.to_string()` writes it.
pub fn decimal(n: u32) -> (s: String)
    ensures
        s@ == decimal_text(n as nat),
    decreases n,
{
    if n < 10 {
        String::from_str(digit_str(n))
    } else {
        decimal(n / 10).concat(digit_str(n % 10))
    }
}

/// The URL of `path` under the API root.
pub fn collections_url(path: &str) -> (url: String)
    ensures
        url@ == BASE_URL@ + path@,
{
    String::from_str(BASE_URL).concat(path)
}

/// The URL of the list of all raindrops.
pub fn raindrops_url() -> (url: String)
    ensures
        url@ == BASE_URL@ + RAINDROPS_PATH@,
{
    String::from_str(BASE_URL).concat(RAINDROPS_PATH)
}

/// The text of a list of query pairs.
pub open spec fn pairs_text(q: Seq<(String, String)>) -> Seq<(Seq<char>, Seq<char>)> {
    q.map_values(|p: (String, String)| (p.0@, p.1@))
}

/// The query of page `page`: `PER_PAGE` raindrops a page, and the page number.
pub open spec fn page_query_text(page: nat) -> Seq<(Seq<char>, Seq<char>)> {
    seq![("perpage"@, decimal_text(PER_PAGE as nat)), ("page"@, decimal_text(page))]
}

/// The query parameters that ask for page `page` of the raindrops.
pub fn page_query(page: u32) -> (query: Vec<(String, String)>)
    ensures
        pairs_text(query@) == page_query_text(page as nat),
{
    let mut query: Vec<(String, String)> = Vec::new();
    query.push((String::from_str("perpage"), decimal(PER_PAGE)));
    query.push((String::from_str("page"), decimal(page)));
    assert(pairs_text(query@) =~= page_query_text(page as nat));
    query
}

/// A request for one page of raindrops.
pub struct PageRequest {
    pub url: String,
    pub query: Vec<(String, String)>,
}

/// What to do after a page has arrived.
pub enum PageStep {
    /// Wait `REQUEST_INTERVAL_SECS`, then ask for page `page`.
    Fetch { page: u32 },
    /// All raindrops have arrived.
    Finished,
}

/// The state of paging through all raindrops: the page asked for next (or
/// last, once finished), what has arrived so far, and whether a short page
/// has ended the listing.
pub struct RaindropPager {
    page: u32,
    items: Vec<ApiRaindrop>,
    finished: bool,
}

impl RaindropPager {
    /// The number of the page asked for next, or the last page once finished.
    pub closed spec fn spec_page(&self) -> nat {
        self.page as nat
    }

    /// The raindrops that have arrived, in the order of their pages.
    pub closed spec fn spec_items(&self) -> Seq<ApiRaindrop> {
        self.items@
    }

    /// A short page has arrived: there is nothing more to ask for.
    pub closed spec fn spec_finished(&self) -> bool {
        self.finished
    }

    /// Nothing has arrived yet; the first page is page 0.
    pub fn new() -> (p: RaindropPager)
        ensures
            p.spec_page() == 0,
            p.spec_items() == Seq::<ApiRaindrop>::empty(),
            !p.spec_finished(),
    {
        RaindropPager { page: 0, items: Vec::new(), finished: false }
    }

    /// The number of the page to ask for next.
    pub fn page(&self) -> (page: u32)
        ensures
            page as nat == self.spec_page(),
    {
        self.page
    }

    /// Whether a short page has ended the listing.
    pub fn is_finished(&self) -> (finished: bool)
        ensures
            finished == self.spec_finished(),
    {
        self.finished
    }

    /// The request for the page to ask for next.
    pub fn request(&self) -> (req: PageRequest)
        ensures
            req.url@ == BASE_URL@ + RAINDROPS_PATH@,
            pairs_text(req.query@) == page_query_text(self.spec_page()),
    {
        PageRequest { url: raindrops_url(), query: page_query(self.page) }
    }

    /// Takes in the raindrops of the page just asked for. A page with fewer than
    /// `PER_PAGE` raindrops is the last one; after a full page, the next page is
    /// asked for.
    pub fn record_page(&mut self, page_items: Vec<ApiRaindrop>) -> (step: PageStep)
        requires
            !old(self).spec_finished(),
            page_items.len() < PER_PAGE || old(self).spec_page() < u32::MAX,
        ensures
            final(self).spec_items() == old(self).spec_items() + page_items@,
            page_items.len() < PER_PAGE ==> {
                &&& step is Finished
                &&& final(self).spec_finished()
                &&& final(self).spec_page() == old(self).spec_page()
            },
            page_items.len() >= PER_PAGE ==> {
                &&& step == (PageStep::Fetch { page: (old(self).spec_page() + 1) as u32 })
                &&& !final(self).spec_finished()
                &&& final(self).spec_page() == old(self).spec_page() + 1
            },
    {
        let count = page_items.len();
        let mut page_items = page_items;
        self.items.append(&mut page_items);
        if count < PER_PAGE as usize {
            self.finished = true;
            PageStep::Finished
        } else {
            self.page = self.page + 1;
            PageStep::Fetch { page: self.page }
        }
    }

    /// All raindrops that have arrived, in the order of their pages.
    pub fn into_items(self) -> (items: Vec<ApiRaindrop>)
        ensures
            items@ == self.spec_items(),
    {
        self.items
    }
}

/// All collections: the root ones, then the nested ones.
pub fn merge_collections(root: Vec<ApiCollection>, children: Vec<ApiCollection>) -> (all: Vec<
    ApiCollection,
>)
    ensures
        all@ == root@ + children@,
{
    let mut all = root;
    let mut children = children;
    all.append(&mut children);
    all
}

} // verus!
