//! Turning what the API returned into the bookmarks of the output file.

use std::collections::HashMap;

use vstd::prelude::*;

use crate::models::{ApiCollection, ApiRaindrop, Bookmark, is_bookmark_of};

verus! {

broadcast use vstd::std_specs::hash::group_hash_axioms;

/// The collection name given to a bookmark whose collection is unknown.
pub const UNSORTED: &'static str = "Unsorted";

/// The names of the collections by id; where an id occurs more than once,
/// the later collection's title wins.
pub open spec fn names_by_id(cs: Seq<ApiCollection>) -> Map<i64, String>
    decreases cs.len(),
{
    if cs.len() == 0 {
        Map::empty()
    } else {
        names_by_id(cs.drop_last()).insert(cs.last().id, cs.last().title)
    }
}

/// The name of the collection raindrop `r` is filed under: its collection's
/// name in `names`, or `UNSORTED` where it has no collection or `names` lacks it.
pub open spec fn collection_name_of(r: ApiRaindrop, names: Map<i64, String>) -> Seq<char> {
    match r.collection {
        Some(c) => if names.contains_key(c.id) {
            names[c.id]@
        } else {
            UNSORTED@
        },
        None => UNSORTED@,
    }
}

/// `bookmarks` are the raindrops `rs`, one for one and in order, each filed
/// under the name `names` gives its collection.
pub open spec fn bookmarks_of(
    bookmarks: Seq<Bookmark>,
    rs: Seq<ApiRaindrop>,
    names: Map<i64, String>,
) -> bool {
    &&& bookmarks.len() == rs.len()
    &&& forall|i: int|
        0 <= i < rs.len() ==> #[trigger] is_bookmark_of(
            bookmarks[i],
            rs[i],
            collection_name_of(rs[i], names),
        )
}

/// Every collection's id is named, nothing else is, and an id is named after
/// the last collection in the list that has it.
pub proof fn law_names_come_from_the_collections(cs: Seq<ApiCollection>)
    ensures
        forall|i: int| 0 <= i < cs.len() ==> names_by_id(cs).contains_key(#[trigger] cs[i].id),
        forall|k: i64|
            #![trigger names_by_id(cs).contains_key(k)]
            names_by_id(cs).contains_key(k) ==> exists|i: int| 0 <= i < cs.len() && cs[i].id == k,
        forall|i: int|
            0 <= i < cs.len() && (forall|j: int| i < j < cs.len() ==> cs[j].id != cs[i].id)
                ==> names_by_id(cs)[#[trigger] cs[i].id] == cs[i].title,
    decreases cs.len(),
{
    if cs.len() > 0 {
        let rest = cs.drop_last();
        law_names_come_from_the_collections(rest);
        let last = cs.last();
        assert forall|i: int| 0 <= i < cs.len() implies names_by_id(cs).contains_key(
            #[trigger] cs[i].id,
        ) by {
            if i < cs.len() - 1 {
                assert(rest[i] == cs[i]);
            }
        }
        assert forall|k: i64| #![trigger names_by_id(cs).contains_key(k)]
            names_by_id(cs).contains_key(k) implies exists|i: int| 0 <= i < cs.len() && cs[i].id == k by {
            if k != last.id {
                assert(names_by_id(rest).contains_key(k));
                let i = choose|i: int| 0 <= i < rest.len() && rest[i].id == k;
                assert(cs[i] == rest[i]);
            } else {
                assert(cs[cs.len() - 1].id == k);
            }
        }
        assert forall|i: int|
            0 <= i < cs.len() && (forall|j: int| i < j < cs.len() ==> cs[j].id != cs[i].id)
            implies names_by_id(cs)[#[trigger] cs[i].id] == cs[i].title by {
            if i < cs.len() - 1 {
                assert(rest[i] == cs[i]);
                assert(cs[cs.len() - 1].id != cs[i].id);
                assert forall|j: int| i < j < rest.len() implies rest[j].id != rest[i].id by {
                    assert(rest[j] == cs[j]);
                }
            }
        }
    }
}

/// The bookmarks built from raindrops and collections: one per raindrop, in
/// order, each named after the last collection in the list with its
/// collection's id, or "Unsorted" where it has no collection or no
/// collection in the list has that id.
pub proof fn law_bookmarks_named_after_their_collections(
    bookmarks: Seq<Bookmark>,
    rs: Seq<ApiRaindrop>,
    cs: Seq<ApiCollection>,
)
    requires
        bookmarks_of(bookmarks, rs, names_by_id(cs)),
    ensures
        bookmarks.len() == rs.len(),
        forall|i: int| 0 <= i < rs.len() ==> (#[trigger] bookmarks[i]).id == rs[i].id,
        forall|i: int| #![trigger bookmarks[i]]
            0 <= i < rs.len() && rs[i].collection is None ==> bookmarks[i].collection@
                == UNSORTED@,
        forall|i: int, j: int| #![trigger bookmarks[i], cs[j]]
            0 <= i < rs.len() && 0 <= j < cs.len() && rs[i].collection is Some
                && rs[i].collection->0.id == cs[j].id && (forall|k: int| j < k < cs.len() ==> cs[k].id != cs[j].id)
                ==> bookmarks[i].collection@ == cs[j].title@,
        forall|i: int| #![trigger bookmarks[i]]
            0 <= i < rs.len() && rs[i].collection is Some && (forall|j: int|
                0 <= j < cs.len() ==> cs[j].id != rs[i].collection->0.id) ==> bookmarks[i].collection@
                == UNSORTED@,
{
    law_names_come_from_the_collections(cs);
    assert forall|i: int| 0 <= i < rs.len() implies (#[trigger] bookmarks[i]).id == rs[i].id by {
        assert(is_bookmark_of(bookmarks[i], rs[i], collection_name_of(rs[i], names_by_id(cs))));
    }
    assert forall|i: int| #![trigger bookmarks[i]]
        0 <= i < rs.len() && rs[i].collection is None implies bookmarks[i].collection@
            == UNSORTED@ by {
        assert(is_bookmark_of(bookmarks[i], rs[i], collection_name_of(rs[i], names_by_id(cs))));
    }
    assert forall|i: int, j: int| #![trigger bookmarks[i], cs[j]]
        0 <= i < rs.len() && 0 <= j < cs.len() && rs[i].collection is Some
            && rs[i].collection->0.id == cs[j].id && (forall|k: int| j < k < cs.len() ==> cs[k].id != cs[j].id)
            implies bookmarks[i].collection@ == cs[j].title@ by {
        assert(is_bookmark_of(bookmarks[i], rs[i], collection_name_of(rs[i], names_by_id(cs))));
        assert(names_by_id(cs).contains_key(cs[j].id));
        assert(names_by_id(cs)[cs[j].id] == cs[j].title);
    }
    assert forall|i: int| #![trigger bookmarks[i]]
        0 <= i < rs.len() && rs[i].collection is Some && (forall|j: int|
            0 <= j < cs.len() ==> cs[j].id != rs[i].collection->0.id) implies bookmarks[i].collection@
            == UNSORTED@ by {
        assert(is_bookmark_of(bookmarks[i], rs[i], collection_name_of(rs[i], names_by_id(cs))));
        let c = rs[i].collection->0;
        if names_by_id(cs).contains_key(c.id) {
            let j = choose|j: int| 0 <= j < cs.len() && cs[j].id == c.id;
            assert(cs[j].id != c.id);
        }
    }
}

/// The map from collection id to collection title.
pub fn collection_names(collections: Vec<ApiCollection>) -> (names: HashMap<i64, String>)
    ensures
        names@ == names_by_id(collections@),
{
    let ghost cs = collections@;
    let mut names: HashMap<i64, String> = HashMap::new();
    for c in it: collections.into_iter()
        invariant
            it.seq() == cs,
            names@ == names_by_id(cs.take(it.index() as int)),
    {
        let ghost i = it.index();
        assert(cs.take(i + 1).drop_last() =~= cs.take(i as int));
        names.insert(c.id, c.title);
    }
    assert(cs.take(cs.len() as int) =~= cs);
    names
}

/// The name of the collection of raindrop `r`, looked up in `names`.
fn name_for(r: &ApiRaindrop, names: &HashMap<i64, String>) -> (name: String)
    ensures
        name@ == collection_name_of(*r, names@),
{
    match &r.collection {
        Some(c) => match names.get(&c.id) {
            Some(n) => n.clone(),
            None => String::from_str(UNSORTED),
        },
        None => String::from_str(UNSORTED),
    }
}

/// The bookmarks made of `raindrops`, in the same order, each filed under
/// the name of its collection in `collection_names`.
pub fn map_bookmarks(
    raindrops: Vec<ApiRaindrop>,
    collection_names: &HashMap<i64, String>,
) -> (bookmarks: Vec<Bookmark>)
    ensures
        bookmarks_of(bookmarks@, raindrops@, collection_names@),
{
    let ghost rs = raindrops@;
    let mut bookmarks: Vec<Bookmark> = Vec::new();
    for r in it: raindrops.into_iter()
        invariant
            it.seq() == rs,
            bookmarks.len() == it.index(),
            forall|i: int|
                0 <= i < it.index() ==> #[trigger] is_bookmark_of(
                    bookmarks@[i],
                    rs[i],
                    collection_name_of(rs[i], collection_names@),
                ),
    {
        let name = name_for(&r, collection_names);
        let b = Bookmark::from_api(r, name.as_str());
        bookmarks.push(b);
    }
    bookmarks
}

/// The bookmarks of the output file, made of all raindrops and named after
/// all collections that the API returned.
pub fn build_bookmarks(
    raindrops: Vec<ApiRaindrop>,
    collections: Vec<ApiCollection>,
) -> (bookmarks: Vec<Bookmark>)
    ensures
        bookmarks_of(bookmarks@, raindrops@, names_by_id(collections@)),
{
    let names = collection_names(collections);
    map_bookmarks(raindrops, &names)
}

} // verus!
