//! Breadcrumbs: the last lines of a log file, attached to an event.

use vstd::prelude::*;
use crate::level::{category_level, level_named, Level};
use crate::text::{ascii_lowercase, cut, split_once, texts_of};
use crate::timestamp::Timestamp;

verus! {

/// An event carries at most this many breadcrumbs.
pub const MAX_BREADCRUMBS: usize = 100;

/// One line of a log, attached to an event for context.
#[derive(Clone, Debug, PartialEq, Eq)]
pub struct Breadcrumb {
    pub timestamp: Timestamp,
    pub level: Option<Level>,
    pub message: String,
}

/// What a `Breadcrumb` stands for.
pub struct BreadcrumbView {
    pub timestamp: Timestamp,
    pub level: Option<Level>,
    pub message: Seq<char>,
}

impl View for Breadcrumb {
    type V = BreadcrumbView;

    open spec fn view(&self) -> BreadcrumbView {
        BreadcrumbView { timestamp: self.timestamp, level: self.level, message: self.message@ }
    }
}

/// What each breadcrumb of a list stands for.
pub open spec fn crumbs_view(crumbs: Seq<Breadcrumb>) -> Seq<BreadcrumbView> {
    Seq::new(crumbs.len(), |i: int| crumbs[i]@)
}

/// What parts a category from the rest of a line: a colon and a space.
pub open spec fn category_mark() -> Seq<char> {
    seq![':', ' ']
}

/// The breadcrumb of one line. Without categories it is the line as it
/// stands, with no level. With categories, a line that starts with a level
/// name in any case, a colon and a space gives that level and the rest of the
/// line; any other line is taken as it stands.
pub open spec fn crumb_of(line: Seq<char>, with_categories: bool, stamp: Timestamp) -> BreadcrumbView {
    let plain = BreadcrumbView { timestamp: stamp, level: None, message: line };
    if with_categories {
        match cut(line, category_mark()) {
            Some((token, rest)) => match level_named(ascii_lowercase(token)) {
                Some(level) => BreadcrumbView {
                    timestamp: stamp,
                    level: Some(level),
                    message: rest,
                },
                None => plain,
            },
            None => plain,
        }
    } else {
        plain
    }
}

/// How many of the first lines are dropped so that at most
/// `MAX_BREADCRUMBS` stay.
pub open spec fn dropped(count: nat) -> nat {
    if count > MAX_BREADCRUMBS {
        (count - MAX_BREADCRUMBS) as nat
    } else {
        0
    }
}

/// The breadcrumbs of a log: those of its last `MAX_BREADCRUMBS` lines, in
/// the order of the lines.
pub open spec fn crumbs_of(lines: Seq<Seq<char>>, with_categories: bool, stamp: Timestamp) -> Seq<
    BreadcrumbView,
> {
    Seq::new(
        (lines.len() - dropped(lines.len())) as nat,
        |i: int| crumb_of(lines[dropped(lines.len()) + i], with_categories, stamp),
    )
}

/// Turns one line of a log into a breadcrumb with the given timestamp.
pub fn breadcrumb_of(line: &str, with_categories: bool, stamp: Timestamp) -> (r: Breadcrumb)
    ensures
        r@ == crumb_of(line@, with_categories, stamp),
{
    if with_categories {
        proof {
            reveal_strlit(": ");
            assert(": "@ =~= category_mark());
        }
        if let Some((token, rest)) = split_once(line, ": ") {
            if let Some(level) = category_level(token.as_str()) {
                return Breadcrumb { timestamp: stamp, level: Some(level), message: rest };
            }
        }
    }
    Breadcrumb { timestamp: stamp, level: None, message: line.to_owned() }
}

/// Turns the lines of a log into breadcrumbs, each with the given
/// timestamp. Only the last `MAX_BREADCRUMBS` lines are kept; they stay in
/// their order, the oldest first.
pub fn extract_breadcrumbs(lines: &Vec<String>, with_categories: bool, stamp: Timestamp) -> (r: Vec<
    Breadcrumb,
>)
    ensures
        crumbs_view(r@) == crumbs_of(texts_of(lines@), with_categories, stamp),
        r@.len() <= MAX_BREADCRUMBS,
        r@.len() == lines@.len() - dropped(lines@.len()),
{
    let total: usize = lines.len();
    let first: usize = if total > MAX_BREADCRUMBS {
        total - MAX_BREADCRUMBS
    } else {
        0
    };
    let mut crumbs: Vec<Breadcrumb> = Vec::new();
    let mut at: usize = first;
    while at < total
        invariant
            first <= at <= total,
            total == lines@.len(),
            first == dropped(lines@.len()),
            crumbs@.len() == at - first,
            forall|i: int|
                0 <= i < crumbs@.len() ==> (#[trigger] crumbs@[i])@ == crumb_of(
                    lines@[first + i]@,
                    with_categories,
                    stamp,
                ),
        decreases total - at,
    {
        crumbs.push(breadcrumb_of(lines[at].as_str(), with_categories, stamp));
        at += 1;
    }
    assert(crumbs_view(crumbs@) =~= crumbs_of(texts_of(lines@), with_categories, stamp));
    crumbs
}

/// Where a log has more lines than are kept, the breadcrumbs are those of
/// its last `MAX_BREADCRUMBS` lines; else each line has its breadcrumb.
pub proof fn lemma_last_lines_kept(
    lines: Seq<Seq<char>>,
    with_categories: bool,
    stamp: Timestamp,
    i: int,
)
    requires
        0 <= i < crumbs_of(lines, with_categories, stamp).len(),
    ensures
        lines.len() <= MAX_BREADCRUMBS ==> crumbs_of(lines, with_categories, stamp).len()
            == lines.len() && crumbs_of(lines, with_categories, stamp)[i] == crumb_of(
            lines[i],
            with_categories,
            stamp,
        ),
        lines.len() > MAX_BREADCRUMBS ==> crumbs_of(lines, with_categories, stamp).len()
            == MAX_BREADCRUMBS && crumbs_of(lines, with_categories, stamp)[i] == crumb_of(
            lines[lines.len() - MAX_BREADCRUMBS + i],
            with_categories,
            stamp,
        ),
{
}

} // verus!
