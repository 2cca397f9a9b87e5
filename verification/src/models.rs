//! The records of the Raindrop.io API and the bookmark record of the output file.

use vstd::prelude::*;

pub use self::ApiListResponse as ApiItemsResponse;

verus! {

/// A list or items response of the API: a page of records.
pub struct ApiListResponse<T> {
    pub items: Vec<T>,
}

/// The collection a raindrop belongs to, as the API embeds it.
pub struct CollectionRef {
    pub id: i64,
}

/// A single raindrop as the API returns it.
pub struct ApiRaindrop {
    pub id: i64,
    pub title: Option<String>,
    pub link: String,
    pub tags: Option<Vec<String>>,
    pub collection: Option<CollectionRef>,
    pub created: Option<String>,
    pub last_update: Option<String>,
    pub excerpt: Option<String>,
    pub kind: Option<String>,
}

/// A collection as the API returns it.
pub struct ApiCollection {
    pub id: i64,
    pub title: String,
}

/// One bookmark of the output file.
pub struct Bookmark {
    pub id: i64,
    pub title: String,
    pub link: String,
    pub tags: Vec<String>,
    pub collection_id: i64,
    pub collection: String,
    pub created: String,
    pub last_update: String,
    pub excerpt: String,
    pub kind: String,
}

/// The id that stands for "no collection".
pub const NO_COLLECTION_ID: i64 = -1;

/// The kind a bookmark gets when the API gives none.
pub const DEFAULT_KIND: &'static str = "link";

/// The text of an optional string, the empty text where there is none.
pub open spec fn text_or_empty(s: Option<String>) -> Seq<char> {
    match s {
        Some(t) => t@,
        None => Seq::empty(),
    }
}

/// The collection id of a raindrop, `NO_COLLECTION_ID` where it has no collection.
pub open spec fn collection_id_of(r: ApiRaindrop) -> i64 {
    match r.collection {
        Some(c) => c.id,
        None => NO_COLLECTION_ID,
    }
}

/// The tags of a raindrop, none where the API gives none.
pub open spec fn tags_of(r: ApiRaindrop) -> Seq<String> {
    match r.tags {
        Some(t) => t@,
        None => Seq::empty(),
    }
}

/// The kind of a raindrop, `DEFAULT_KIND` where the API gives none.
pub open spec fn kind_of(r: ApiRaindrop) -> Seq<char> {
    match r.kind {
        Some(k) => k@,
        None => DEFAULT_KIND@,
    }
}

/// `b` is the bookmark made of raindrop `r` filed under the collection named `name`.
pub open spec fn is_bookmark_of(b: Bookmark, r: ApiRaindrop, name: Seq<char>) -> bool {
    &&& b.id == r.id
    &&& b.title@ == text_or_empty(r.title)
    &&& b.link@ == r.link@
    &&& b.tags@ == tags_of(r)
    &&& b.collection_id == collection_id_of(r)
    &&& b.collection@ == name
    &&& b.created@ == text_or_empty(r.created)
    &&& b.last_update@ == text_or_empty(r.last_update)
    &&& b.excerpt@ == text_or_empty(r.excerpt)
    &&& b.kind@ == kind_of(r)
}

/// A bookmark carries every field of its raindrop as the API gave it: the
/// same id, link and, where the API gave them, the same title, tags (all of
/// them, in order), collection id, dates, excerpt and kind; what the API left
/// out is empty, the collection id -1 and the kind "link". Its collection name
/// is the name it was filed under.
pub proof fn law_bookmark_keeps_the_raindrop(b: Bookmark, r: ApiRaindrop, name: Seq<char>)
    requires
        is_bookmark_of(b, r, name),
    ensures
        b.id == r.id,
        b.link@ == r.link@,
        b.collection@ == name,
        r.title matches Some(t) ==> b.title@ == t@,
        r.title is None ==> b.title@.len() == 0,
        r.tags matches Some(t) ==> b.tags@ == t@ && b.tags@.len() == t@.len(),
        r.tags is None ==> b.tags@.len() == 0,
        r.collection matches Some(c) ==> b.collection_id == c.id,
        r.collection is None ==> b.collection_id == -1,
        r.created matches Some(t) ==> b.created@ == t@,
        r.created is None ==> b.created@.len() == 0,
        r.last_update matches Some(t) ==> b.last_update@ == t@,
        r.last_update is None ==> b.last_update@.len() == 0,
        r.excerpt matches Some(t) ==> b.excerpt@ == t@,
        r.excerpt is None ==> b.excerpt@.len() == 0,
        r.kind matches Some(k) ==> b.kind@ == k@,
        r.kind is None ==> b.kind@ == seq!['l', 'i', 'n', 'k'],
{
    reveal_strlit("link");
}

fn string_or_empty(s: Option<String>) -> (t: String)
    ensures
        t@ == text_or_empty(s),
{
    match s {
        Some(t) => t,
        None => String::new(),
    }
}

impl Bookmark {
    /// The bookmark made of raindrop `r` filed under the collection named
    /// `collection_name`; what the API leaves out becomes empty, the collection
    /// id `NO_COLLECTION_ID` and the kind `DEFAULT_KIND`.
    pub fn from_api(r: ApiRaindrop, collection_name: &str) -> (b: Bookmark)
        ensures
            is_bookmark_of(b, r, collection_name@),
    {
        let collection_id = match &r.collection {
            Some(c) => c.id,
            None => NO_COLLECTION_ID,
        };
        let tags = match r.tags {
            Some(t) => t,
            None => Vec::new(),
        };
        let kind = match r.kind {
            Some(k) => k,
            None => String::from_str(DEFAULT_KIND),
        };
        Bookmark {
            id: r.id,
            title: string_or_empty(r.title),
            link: r.link,
            tags,
            collection_id,
            collection: String::from_str(collection_name),
            created: string_or_empty(r.created),
            last_update: string_or_empty(r.last_update),
            excerpt: string_or_empty(r.excerpt),
            kind,
        }
    }
}

} // verus!
