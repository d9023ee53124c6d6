//! The selection logic of the batch tag-error workflow.
//!
//! The workflow fetches the item list, fetches every item's trackers, and
//! tags the items whose trackers report trouble.  The fetching is the
//! caller's concurrent plumbing; the decisions live here: which tracker
//! disqualifies its item, which items are selected, and the query of the
//! one follow-up add-tags call.

use vstd::prelude::*;
use crate::data::{Tracker, TrackerRep, TrackerStatus, spec_tracker_status_of};
use crate::decode::trackers_view;
use crate::encode::spec_join;

verus! {

/// True of a tracker that disqualifies its item: its status is neither
/// disabled nor working, and it carries a message unless `include_all`
/// asks for every such tracker.
pub open spec fn spec_tracker_disqualifies(t: TrackerRep, include_all: bool) -> bool {
    &&& spec_tracker_status_of(t.status) != TrackerStatus::TrackerDisabled
    &&& spec_tracker_status_of(t.status) != TrackerStatus::Working
    &&& (t.msg.len() > 0 || include_all)
}

/// Decides whether one tracker disqualifies its item.
pub fn tracker_disqualifies(t: &Tracker, include_all: bool) -> (r: bool)
    ensures
        r == spec_tracker_disqualifies(t@, include_all),
{
    let status = t.status();
    match status {
        TrackerStatus::TrackerDisabled => false,
        TrackerStatus::Working => false,
        _ => include_all || !t.msg().as_str().is_empty(),
    }
}

/// True of an item some tracker of which disqualifies it.
pub open spec fn spec_item_selected(ts: Seq<TrackerRep>, include_all: bool) -> bool {
    exists|i: int| 0 <= i < ts.len() && spec_tracker_disqualifies(#[trigger] ts[i], include_all)
}

/// Decides whether an item is selected: its trackers are scanned in the
/// order given and the scan stops at the first disqualifying tracker; an
/// item with no disqualifying tracker is not selected.
pub fn item_selected(trackers: &Vec<Tracker>, include_all: bool) -> (r: bool)
    ensures
        r == spec_item_selected(trackers_view(trackers@), include_all),
{
    let ghost tv = trackers_view(trackers@);
    let mut i: usize = 0;
    while i < trackers.len()
        invariant
            i <= trackers@.len(),
            tv == trackers_view(trackers@),
            forall|j: int| 0 <= j < i ==> !spec_tracker_disqualifies(#[trigger] tv[j], include_all),
        decreases trackers@.len() - i,
    {
        if tracker_disqualifies(&trackers[i], include_all) {
            proof {
                assert(spec_tracker_disqualifies(tv[i as int], include_all));
            }
            return true;
        }
        i += 1;
    }
    false
}

/// The view of a fetched batch: each item's identifier with its trackers.
pub open spec fn batch_view(items: Seq<(crate::data::Hash, Vec<Tracker>)>) -> Seq<
    (Seq<char>, Seq<TrackerRep>),
> {
    items.map_values(|p: (crate::data::Hash, Vec<Tracker>)| (p.0@, trackers_view(p.1@)))
}

/// The identifiers of the selected items, in the order given.
pub open spec fn spec_selected_hashes(
    items: Seq<(Seq<char>, Seq<TrackerRep>)>,
    include_all: bool,
) -> Seq<Seq<char>>
    decreases items.len(),
{
    if items.len() == 0 {
        Seq::empty()
    } else {
        let rest = spec_selected_hashes(items.drop_first(), include_all);
        if spec_item_selected(items[0].1, include_all) {
            seq![items[0].0] + rest
        } else {
            rest
        }
    }
}

/// Selects the items to tag: exactly those with a disqualifying tracker,
/// their identifiers in the order the batch gives them.
pub fn select_error_hashes(
    items: &Vec<(crate::data::Hash, Vec<Tracker>)>,
    include_all: bool,
) -> (r: Vec<crate::data::Hash>)
    ensures
        r@.map_values(|h: crate::data::Hash| h@) == spec_selected_hashes(
            batch_view(items@),
            include_all,
        ),
{
    let ghost bv = batch_view(items@);
    let mut out: Vec<crate::data::Hash> = Vec::new();
    let mut i: usize = 0;
    proof {
        assert(bv.skip(0) =~= bv);
    }
    while i < items.len()
        invariant
            i <= items@.len(),
            bv == batch_view(items@),
            spec_selected_hashes(bv, include_all) == out@.map_values(|h: crate::data::Hash| h@)
                + spec_selected_hashes(bv.skip(i as int), include_all),
        decreases items@.len() - i,
    {
        let p = &items[i];
        proof {
            assert(bv.skip(i as int)[0] == bv[i as int]);
            assert(bv[i as int] == (items@[i as int].0@, trackers_view(items@[i as int].1@)));
            assert(bv.skip(i as int).drop_first() =~= bv.skip(i + 1));
        }
        if item_selected(&p.1, include_all) {
            let ghost out0 = out@.map_values(|h: crate::data::Hash| h@);
            let h = crate::data::Hash { hash: p.0.hash.clone() };
            out.push(h);
            proof {
                assert(out@.map_values(|h: crate::data::Hash| h@) =~= out0 + seq![
                    bv[i as int].0,
                ]);
                assert((out0 + seq![bv[i as int].0]) + spec_selected_hashes(
                    bv.skip(i + 1),
                    include_all,
                ) =~= out0 + (seq![bv[i as int].0] + spec_selected_hashes(
                    bv.skip(i + 1),
                    include_all,
                )));
            }
        }
        i += 1;
    }
    proof {
        assert(bv.skip(i as int) =~= Seq::<(Seq<char>, Seq<TrackerRep>)>::empty());
        assert(out@.map_values(|h: crate::data::Hash| h@) + Seq::<Seq<char>>::empty()
            =~= out@.map_values(|h: crate::data::Hash| h@));
    }
    out
}

/// The query of the one follow-up add-tags call, or nothing when no item
/// was selected and no call is owed: the identifiers joined with `|`, the
/// tags joined with `,`.
pub fn batch_tag_query(
    hashes: &Vec<crate::data::Hash>,
    tags: &Vec<String>,
) -> (r: Option<String>)
    ensures
        r is Some <==> hashes@.len() > 0,
        r matches Some(q) ==> q@ == "hashes="@ + spec_join(
            hashes@.map_values(|h: crate::data::Hash| h@),
            '|',
        ) + "&tags="@ + spec_join(tags@.map_values(|t: String| t@), ','),
{
    if hashes.len() == 0 {
        return None;
    }
    let helper = crate::queries::TagsUrlHelper { hashes, tags };
    match helper.url() {
        Ok(q) => Some(q),
        Err(_) => None,
    }
}

} // verus!
