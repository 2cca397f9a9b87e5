//! The views of recently updated bookmarks: which bookmarks were updated at or
//! after a cutoff, and the three files of the last day, week and month.

use vstd::prelude::*;

use crate::models::Bookmark;
use crate::paths::{join_path, path_join};

verus! {

/// An instant, as whole seconds since 1970-01-01T00:00:00Z and the nanoseconds
/// past that second (more than a second's worth during a leap second).
#[derive(Clone, Copy, Debug)]
pub struct Timestamp {
    pub secs: i64,
    pub nanos: u32,
}

/// The nanoseconds from the Unix epoch to `t`.
pub open spec fn epoch_nanos(t: Timestamp) -> int {
    t.secs * 1_000_000_000 + t.nanos
}

/// The instant `secs` seconds and `nanos` nanoseconds after the Unix epoch.
pub fn timestamp_after_epoch(secs: u64, nanos: u32) -> (t: Timestamp)
    requires
        secs <= i64::MAX,
        nanos < 1_000_000_000,
    ensures
        t.secs == secs,
        t.nanos == nanos,
        epoch_nanos(t) == secs * 1_000_000_000 + nanos,
{
    Timestamp { secs: secs as i64, nanos }
}

/// The instant `secs` seconds and `nanos` nanoseconds before the Unix
/// epoch, with the nanoseconds counted forward from the whole second before it.
pub fn timestamp_before_epoch(secs: u64, nanos: u32) -> (t: Timestamp)
    requires
        secs <= i64::MAX,
        nanos < 1_000_000_000,
    ensures
        epoch_nanos(t) == -(secs * 1_000_000_000 + nanos),
        t.nanos < 1_000_000_000,
{
    let whole: i64 = -(secs as i64);
    if nanos == 0 {
        Timestamp { secs: whole, nanos: 0 }
    } else {
        Timestamp { secs: whole - 1, nanos: 1_000_000_000 - nanos }
    }
}

/// `a` is earlier than `b`.
pub open spec fn is_before(a: Timestamp, b: Timestamp) -> bool {
    a.secs < b.secs || (a.secs == b.secs && a.nanos < b.nanos)
}

/// Outside leap seconds (nanoseconds below one second), one timestamp is
/// before another exactly when it lies fewer nanoseconds after the epoch.
pub proof fn law_before_is_earlier_instant(a: Timestamp, b: Timestamp)
    requires
        a.nanos < 1_000_000_000,
        b.nanos < 1_000_000_000,
    ensures
        is_before(a, b) <==> epoch_nanos(a) < epoch_nanos(b),
{
    if a.secs < b.secs {
        assert(epoch_nanos(a) < epoch_nanos(b)) by (nonlinear_arith)
            requires
                a.secs < b.secs,
                a.nanos < 1_000_000_000,
                epoch_nanos(a) == a.secs * 1_000_000_000 + a.nanos,
                epoch_nanos(b) == b.secs * 1_000_000_000 + b.nanos,
        ;
    } else if a.secs > b.secs {
        assert(epoch_nanos(a) > epoch_nanos(b)) by (nonlinear_arith)
            requires
                a.secs > b.secs,
                b.nanos < 1_000_000_000,
                epoch_nanos(a) == a.secs * 1_000_000_000 + a.nanos,
                epoch_nanos(b) == b.secs * 1_000_000_000 + b.nanos,
        ;
    }
}

/// The instant an RFC 3339 date-and-time denotes, as seconds since the Unix
/// epoch and nanoseconds past that second, or `None` where chrono's
/// `DateTime::parse_from_rfc3339` refuses the text.
pub uninterp spec fn rfc3339_instant(text: Seq<char>) -> Option<(i64, u32)>;

/// Calls chrono's `DateTime::parse_from_rfc3339` and reads the instant back
/// with `timestamp` and `timestamp_subsec_nanos`. Trusted: the result is the
/// named instant of the text, and the empty text is refused (chrono refuses
/// any text shorter than 19 bytes).
#[verifier::external_body]
fn parse_rfc3339(text: &str) -> (parsed: Option<(i64, u32)>)
    ensures
        parsed == rfc3339_instant(text@),
        text@.len() == 0 ==> parsed is None,
{
    match chrono::DateTime::parse_from_rfc3339(text) {
        Ok(dt) => Some((dt.timestamp(), dt.timestamp_subsec_nanos())),
        Err(_) => None,
    }
}

/// The instant of an RFC 3339 text as a `Timestamp`.
pub open spec fn timestamp_of(text: Seq<char>) -> Option<Timestamp> {
    match rfc3339_instant(text) {
        Some(p) => Some(Timestamp { secs: p.0, nanos: p.1 }),
        None => None,
    }
}

/// Parses an RFC 3339 date-and-time into the instant it denotes.
pub fn parse_timestamp(text: &str) -> (parsed: Option<Timestamp>)
    ensures
        parsed == timestamp_of(text@),
        text@.len() == 0 ==> parsed is None,
{
    match parse_rfc3339(text) {
        Some((secs, nanos)) => Some(Timestamp { secs, nanos }),
        None => None,
    }
}

/// Bookmark `b` was last updated at or after `cutoff`; a bookmark whose
/// update time does not parse never is.
pub open spec fn updated_since(b: Bookmark, cutoff: Timestamp) -> bool {
    match timestamp_of(b.last_update@) {
        Some(t) => !is_before(t, cutoff),
        None => false,
    }
}

/// The bookmarks a list of references points to.
pub open spec fn pointees(s: Seq<&Bookmark>) -> Seq<Bookmark> {
    s.map_values(|b: &Bookmark| *b)
}

/// The bookmarks of `bookmarks`, in order, that were updated at or after `cutoff`.
pub open spec fn recent(bookmarks: Seq<Bookmark>, cutoff: Timestamp) -> Seq<Bookmark> {
    bookmarks.filter(|b: Bookmark| updated_since(b, cutoff))
}

/// The bookmarks updated at or after `cutoff`, in their order in `bookmarks`.
pub fn filter_by_cutoff<'a>(bookmarks: &'a [Bookmark], cutoff: &Timestamp) -> (kept: Vec<
    &'a Bookmark,
>)
    ensures
        pointees(kept@) == recent(bookmarks@, *cutoff),
{
    let ghost pred = |b: Bookmark| updated_since(b, *cutoff);
    let mut kept: Vec<&'a Bookmark> = Vec::new();
    let n = bookmarks.len();
    for i in 0..n
        invariant
            n == bookmarks@.len(),
            pred == (|b: Bookmark| updated_since(b, *cutoff)),
            pointees(kept@) == bookmarks@.take(i as int).filter(pred),
    {
        let b = &bookmarks[i];
        let keep = match parse_timestamp(b.last_update.as_str()) {
            Some(t) => !(t.secs < cutoff.secs || (t.secs == cutoff.secs && t.nanos < cutoff.nanos)),
            None => false,
        };
        proof {
            assert(bookmarks@.take(i + 1) =~= bookmarks@.take(i as int).push(*b));
            bookmarks@.take(i as int).lemma_filter_push(*b, pred);
        }
        let ghost before = kept@;
        if keep {
            kept.push(b);
            assert(pointees(kept@) =~= pointees(before).push(*b));
        }
    }
    assert(bookmarks@.take(n as int) =~= bookmarks@);
    kept
}

/// A later cutoff keeps fewer bookmarks: every bookmark updated at or after
/// `late` was also updated at or after an earlier (or equal) `early`, so the
/// view since `late` holds no bookmark the view since `early` lacks, and no more
/// of them.
pub proof fn law_later_cutoff_keeps_fewer(bookmarks: Seq<Bookmark>, early: Timestamp, late: Timestamp)
    requires
        !is_before(late, early),
    ensures
        recent(bookmarks, late).len() <= recent(bookmarks, early).len(),
        forall|b: Bookmark| recent(bookmarks, late).contains(b) ==> recent(bookmarks, early).contains(b),
    decreases bookmarks.len(),
{
    reveal(Seq::filter);
    if bookmarks.len() > 0 {
        let rest = bookmarks.drop_last();
        let last = bookmarks.last();
        law_later_cutoff_keeps_fewer(rest, early, late);
        assert(recent(bookmarks, late) == if updated_since(last, late) {
            recent(rest, late).push(last)
        } else {
            recent(rest, late)
        });
        assert(recent(bookmarks, early) == if updated_since(last, early) {
            recent(rest, early).push(last)
        } else {
            recent(rest, early)
        });
        assert forall|b: Bookmark| recent(bookmarks, late).contains(b) implies recent(
            bookmarks,
            early,
        ).contains(b) by {
            if updated_since(last, late) {
                if b != last {
                    let i = choose|i: int| 0 <= i < recent(bookmarks, late).len() && recent(bookmarks, late)[i] == b;
                    assert(recent(rest, late)[i] == b);
                    assert(recent(rest, late).contains(b));
                    let j = choose|j: int| 0 <= j < recent(rest, early).len() && recent(rest, early)[j] == b;
                    assert(recent(bookmarks, early)[j] == b);
                } else {
                    assert(recent(bookmarks, early).last() == b);
                    assert(recent(bookmarks, early)[recent(bookmarks, early).len() - 1] == b);
                }
            } else {
                if updated_since(last, early) {
                    let j = choose|j: int| 0 <= j < recent(rest, early).len() && recent(rest, early)[j] == b;
                    assert(recent(bookmarks, early)[j] == b);
                }
            }
        }
    }
}

/// A view holds nothing but bookmarks of the list it was drawn from, each
/// updated at or after the cutoff, and every such bookmark of the list is in it.
pub proof fn law_view_is_exactly_the_recent_bookmarks(bookmarks: Seq<Bookmark>, cutoff: Timestamp)
    ensures
        forall|b: Bookmark| #[trigger]
            recent(bookmarks, cutoff).contains(b) ==> bookmarks.contains(b) && updated_since(
                b,
                cutoff,
            ),
        forall|i: int|
            0 <= i < bookmarks.len() && updated_since(#[trigger] bookmarks[i], cutoff) ==> recent(
                bookmarks,
                cutoff,
            ).contains(bookmarks[i]),
        recent(bookmarks, cutoff).len() <= bookmarks.len(),
{
    let pred = |b: Bookmark| updated_since(b, cutoff);
    assert forall|b: Bookmark| #[trigger]
        recent(bookmarks, cutoff).contains(b) implies bookmarks.contains(b) && updated_since(
            b,
            cutoff,
        ) by {
        bookmarks.lemma_filter_contains_rev(pred, b);
        let i = choose|i: int|
            0 <= i < recent(bookmarks, cutoff).len() && recent(bookmarks, cutoff)[i] == b;
        bookmarks.lemma_filter_pred(pred, i);
    }
    assert forall|i: int|
        0 <= i < bookmarks.len() && updated_since(#[trigger] bookmarks[i], cutoff) implies recent(
            bookmarks,
            cutoff,
        ).contains(bookmarks[i]) by {
        bookmarks.lemma_filter_contains(pred, i);
    }
    bookmarks.lemma_filter_len(pred);
}

/// The file of the bookmarks updated since the start of today.
pub const DAY_FILE: &'static str = "last_day_bookmarks.json";

/// The file of the bookmarks updated since the start of the week.
pub const WEEK_FILE: &'static str = "last_week_bookmarks.json";

/// The file of the bookmarks updated since the start of the month.
pub const MONTH_FILE: &'static str = "last_month_bookmarks.json";

/// The instants the three views count from.
#[derive(Clone, Copy, Debug)]
pub struct Cutoffs {
    pub day: Timestamp,
    pub week: Timestamp,
    pub month: Timestamp,
}

/// How many bookmarks each view holds.
pub struct FilteredCounts {
    pub day: usize,
    pub week: usize,
    pub month: usize,
}

/// One view to be written: where, and which bookmarks in which order.
pub struct FilteredFile<'a> {
    /// The file name, under the directory.
    pub name: String,
    /// The directory joined with the file name.
    pub path: String,
    pub items: Vec<&'a Bookmark>,
}

/// The three views to be written, day, week and month in that order, and
/// their sizes.
pub struct FilteredFiles<'a> {
    pub files: Vec<FilteredFile<'a>>,
    pub counts: FilteredCounts,
}

/// `f` is the view of `bookmarks` since `cutoff` written to `dir` joined with `name`.
pub open spec fn is_view(
    f: FilteredFile,
    bookmarks: Seq<Bookmark>,
    dir: Seq<char>,
    name: Seq<char>,
    cutoff: Timestamp,
) -> bool {
    &&& f.name@ == name
    &&& f.path@ == path_join(dir, name)
    &&& pointees(f.items@) == recent(bookmarks, cutoff)
}

fn view_file<'a>(bookmarks: &'a [Bookmark], dir: &str, name: &str, cutoff: &Timestamp) -> (f:
    FilteredFile<'a>)
    ensures
        is_view(f, bookmarks@, dir@, name@, *cutoff),
{
    FilteredFile {
        name: String::from_str(name),
        path: join_path(dir, name),
        items: filter_by_cutoff(bookmarks, cutoff),
    }
}

/// Whether a bookmark is kept depends on its `last_update` text alone: it is
/// kept exactly when that text parses to an instant at or after the cutoff,
/// so two bookmarks with the same `last_update` are kept or dropped together,
/// whatever their other fields.
pub proof fn law_kept_by_last_update_alone(bookmarks: Seq<Bookmark>, cutoff: Timestamp)
    ensures
        forall|i: int| #![trigger bookmarks[i]]
            0 <= i < bookmarks.len() ==> (recent(bookmarks, cutoff).contains(bookmarks[i]) <==> (
            rfc3339_instant(bookmarks[i].last_update@) is Some && {
                let (secs, nanos) = rfc3339_instant(bookmarks[i].last_update@)->0;
                secs > cutoff.secs || (secs == cutoff.secs && nanos >= cutoff.nanos)
            })),
        forall|i: int, j: int| #![trigger bookmarks[i], bookmarks[j]]
            0 <= i < bookmarks.len() && 0 <= j < bookmarks.len() && bookmarks[i].last_update@
                == bookmarks[j].last_update@ ==> (recent(bookmarks, cutoff).contains(bookmarks[i])
                <==> recent(bookmarks, cutoff).contains(bookmarks[j])),
{
    law_view_is_exactly_the_recent_bookmarks(bookmarks, cutoff);
}

/// The view is built up one bookmark at a time: the view of no bookmarks is
/// empty, and adding a bookmark at the end adds it at the end of the view
/// exactly when its `last_update` parses to an instant at or after the cutoff,
/// leaving the view otherwise unchanged.
pub proof fn law_view_grows_at_the_end(bookmarks: Seq<Bookmark>, b: Bookmark, cutoff: Timestamp)
    ensures
        recent(Seq::<Bookmark>::empty(), cutoff) == Seq::<Bookmark>::empty(),
        recent(bookmarks.push(b), cutoff) == if rfc3339_instant(b.last_update@) is Some && {
            let (secs, nanos) = rfc3339_instant(b.last_update@)->0;
            secs > cutoff.secs || (secs == cutoff.secs && nanos >= cutoff.nanos)
        } {
            recent(bookmarks, cutoff).push(b)
        } else {
            recent(bookmarks, cutoff)
        },
{
    reveal(Seq::filter);
    bookmarks.lemma_filter_push(b, |x: Bookmark| updated_since(x, cutoff));
}

/// When the day's cutoff is not before the week's and the month's, the
/// day view holds no bookmark the week and month views lack, and no more
/// bookmarks than either. (The week may start in the month before, so the
/// week and month views are not ordered.)
pub proof fn law_day_view_within_week_and_month(bookmarks: Seq<Bookmark>, cutoffs: Cutoffs)
    requires
        !is_before(cutoffs.day, cutoffs.week),
        !is_before(cutoffs.day, cutoffs.month),
    ensures
        recent(bookmarks, cutoffs.day).len() <= recent(bookmarks, cutoffs.week).len(),
        recent(bookmarks, cutoffs.day).len() <= recent(bookmarks, cutoffs.month).len(),
        forall|b: Bookmark|
            recent(bookmarks, cutoffs.day).contains(b) ==> recent(bookmarks, cutoffs.week).contains(
                b,
            ) && recent(bookmarks, cutoffs.month).contains(b),
{
    law_later_cutoff_keeps_fewer(bookmarks, cutoffs.week, cutoffs.day);
    law_later_cutoff_keeps_fewer(bookmarks, cutoffs.month, cutoffs.day);
}

/// The last-day, last-week and last-month views of `bookmarks`, to be
/// written into the directory `dir` of the main bookmarks file, with the
/// number of bookmarks in each.
pub fn write_filtered_files<'a>(bookmarks: &'a [Bookmark], dir: &str, cutoffs: &Cutoffs) -> (out:
    FilteredFiles<'a>)
    ensures
        out.files.len() == 3,
        is_view(out.files[0], bookmarks@, dir@, DAY_FILE@, cutoffs.day),
        is_view(out.files[1], bookmarks@, dir@, WEEK_FILE@, cutoffs.week),
        is_view(out.files[2], bookmarks@, dir@, MONTH_FILE@, cutoffs.month),
        out.counts.day == recent(bookmarks@, cutoffs.day).len(),
        out.counts.week == recent(bookmarks@, cutoffs.week).len(),
        out.counts.month == recent(bookmarks@, cutoffs.month).len(),
{
    let day = view_file(bookmarks, dir, DAY_FILE, &cutoffs.day);
    let week = view_file(bookmarks, dir, WEEK_FILE, &cutoffs.week);
    let month = view_file(bookmarks, dir, MONTH_FILE, &cutoffs.month);
    let counts = FilteredCounts { day: day.items.len(), week: week.items.len(), month: month.items.len() };
    let mut files: Vec<FilteredFile<'a>> = Vec::new();
    files.push(day);
    files.push(week);
    files.push(month);
    FilteredFiles { files, counts }
}

} // verus!
