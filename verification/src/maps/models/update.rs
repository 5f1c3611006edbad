//! Request payloads for updating maps, and their validation.

use super::{CourseID, FilterID};
use super::new_map::{filter_slot, too_hard_to_rank};
use crate::kz::{GlobalStatus, Mode, RankedStatus, SteamID};
use crate::maps::Tier;
use std::collections::BTreeMap;
use vstd::prelude::*;

verus! {

/// An update to a course filter.
#[derive(Debug)]
pub struct FilterUpdate {
    /// A new tier.
    pub tier: Option<Tier>,
    /// A new ranked status.
    pub ranked_status: Option<RankedStatus>,
    /// New notes (`Some(None)` clears them).
    pub notes: Option<Option<String>>,
}

/// A filter update as submitted: the filter it is for, and the update.
#[derive(Debug)]
pub struct RawFilterUpdate {
    pub mode: Mode,
    pub teleports: bool,
    pub update: FilterUpdate,
}

/// Validated filter updates, keyed by mode and teleport setting: at most one
/// per key, ordered by mode and then Pro before TP (the order of an ordered
/// map with these keys).
pub type FilterUpdates = Vec<((Mode, bool), FilterUpdate)>;

/// An update to a map course's metadata.
#[derive(Debug)]
pub struct CourseUpdate {
    /// The course's new name (`Some(None)` clears it).
    pub name: Option<Option<String>>,
    /// A new description (`Some(None)` clears it).
    pub description: Option<Option<String>>,
    /// SteamIDs to add as mappers.
    pub added_mappers: Option<Vec<SteamID>>,
    /// SteamIDs to remove as mappers.
    pub removed_mappers: Option<Vec<SteamID>>,
    /// Updates to the course's filters.
    pub filter_updates: Option<FilterUpdates>,
}

/// Request payload for updating a map.
#[derive(Debug)]
pub struct MapUpdate {
    /// A new description.
    pub description: Option<String>,
    /// A new global status.
    pub global_status: Option<GlobalStatus>,
    /// A new Workshop ID; implies `check_workshop`.
    pub workshop_id: Option<u32>,
    /// Check the Workshop for a new name / checksum.
    pub check_workshop: bool,
    /// SteamIDs to add as mappers.
    pub added_mappers: Option<Vec<SteamID>>,
    /// SteamIDs to remove as mappers.
    pub removed_mappers: Option<Vec<SteamID>>,
    /// Updates to courses of the map.
    pub course_updates: Option<BTreeMap<CourseID, CourseUpdate>>,
}

impl FilterUpdate {
    /// Whether the update changes nothing.
    pub open spec fn empty(self) -> bool {
        self.tier is None && self.ranked_status is None && self.notes is None
    }

    /// Checks if a filter update is empty, i.e., only holds empty containers.
    pub fn is_empty(&self) -> (r: bool)
        ensures
            r == self.empty(),
    {
        self.tier.is_none() && self.ranked_status.is_none() && self.notes.is_none()
    }
}

impl CourseUpdate {
    /// Whether the update changes nothing.
    pub open spec fn empty(self) -> bool {
        self.name is None && self.description is None && self.added_mappers is None
            && self.removed_mappers is None && self.filter_updates is None
    }

    /// Checks if a course update is empty, i.e., only holds empty containers.
    pub fn is_empty(&self) -> (r: bool)
        ensures
            r == self.empty(),
    {
        self.name.is_none() && self.description.is_none() && self.added_mappers.is_none()
            && self.removed_mappers.is_none() && self.filter_updates.is_none()
    }
}

impl MapUpdate {
    /// Whether the update changes nothing.
    pub open spec fn empty(self) -> bool {
        self.description is None && self.global_status is None && self.workshop_id is None
            && !self.check_workshop && self.added_mappers is None && self.removed_mappers is None
            && self.course_updates is None
    }

    /// Checks if a map update is empty, i.e., only holds empty containers.
    pub fn is_empty(&self) -> (r: bool)
        ensures
            r == self.empty(),
    {
        self.description.is_none() && self.global_status.is_none() && self.workshop_id.is_none()
            && !self.check_workshop && self.added_mappers.is_none()
            && self.removed_mappers.is_none() && self.course_updates.is_none()
    }

    /// Whether the Workshop has to be consulted for a new name and checksum:
    /// when asked to, or when the Workshop ID changes.
    pub fn needs_workshop_check(&self) -> (r: bool)
        ensures
            r == (self.check_workshop || self.workshop_id is Some),
    {
        self.check_workshop || self.workshop_id.is_some()
    }
}

/// A submitted list with the empty list read as absent.
pub open spec fn none_if_empty_list<T>(list: Option<Vec<T>>) -> Option<Vec<T>> {
    match list {
        Some(v) => if v@.len() == 0 {
            None
        } else {
            Some(v)
        },
        None => None,
    }
}

/// Reads a submitted optional list, taking the empty list as absent.
pub fn list_or_none<T>(list: Option<Vec<T>>) -> (r: Option<Vec<T>>)
    ensures
        r == none_if_empty_list(list),
{
    match list {
        Some(v) => if v.len() == 0 {
            None
        } else {
            Some(v)
        },
        None => None,
    }
}

impl CourseUpdate {
    /// The update with empty lists of added or removed mappers read as
    /// absent (filter updates are read by
    /// [`CourseUpdate::validate_filter_updates`]).
    pub fn normalized(self) -> (r: CourseUpdate)
        ensures
            r.name == self.name,
            r.description == self.description,
            r.added_mappers == none_if_empty_list(self.added_mappers),
            r.removed_mappers == none_if_empty_list(self.removed_mappers),
            r.filter_updates == self.filter_updates,
    {
        let CourseUpdate { name, description, added_mappers, removed_mappers, filter_updates } =
            self;
        CourseUpdate {
            name,
            description,
            added_mappers: list_or_none(added_mappers),
            removed_mappers: list_or_none(removed_mappers),
            filter_updates,
        }
    }
}

impl MapUpdate {
    /// The update with empty lists of added or removed mappers, and an empty
    /// set of course updates, read as absent.
    pub fn normalized(self) -> (r: MapUpdate)
        ensures
            r.description == self.description,
            r.global_status == self.global_status,
            r.workshop_id == self.workshop_id,
            r.check_workshop == self.check_workshop,
            r.added_mappers == none_if_empty_list(self.added_mappers),
            r.removed_mappers == none_if_empty_list(self.removed_mappers),
            r.course_updates == (match self.course_updates {
                Some(m) => if m@.is_empty() {
                    None
                } else {
                    Some(m)
                },
                None => None,
            }),
    {
        let MapUpdate {
            description,
            global_status,
            workshop_id,
            check_workshop,
            added_mappers,
            removed_mappers,
            course_updates,
        } = self;
        let course_updates = match course_updates {
            Some(m) => if m.is_empty() {
                None
            } else {
                Some(m)
            },
            None => None,
        };
        MapUpdate {
            description,
            global_status,
            workshop_id,
            check_workshop,
            added_mappers: list_or_none(added_mappers),
            removed_mappers: list_or_none(removed_mappers),
            course_updates,
        }
    }
}

/// Why submitted filter updates were refused.
#[derive(Debug, Clone, Copy, PartialEq, Eq, Structural)]
pub enum InvalidFilterUpdate {
    /// A ranked filter would get a tier above [`Tier::Death`] ("tier `{tier}`
    /// is too high for a ranked filter ({mode}, {TP|Pro})").
    TierTooHigh { tier: Tier, mode: Mode, teleports: bool },
    /// Two updates name the same filter ("cannot submit duplicate update for
    /// filter ({mode}, {TP|Pro})").
    Duplicate { mode: Mode, teleports: bool },
}

/// Whether a raw update sets both a tier and a ranked status that together
/// are refused.
pub open spec fn raw_too_hard(r: RawFilterUpdate) -> bool {
    &&& r.update.tier matches Some(tier)
    &&& r.update.ranked_status matches Some(status)
    &&& too_hard_to_rank(tier, status)
}

/// Whether an update among `raws[..j]` is for the same filter as `raws[j]`.
pub open spec fn repeats_earlier(raws: Seq<RawFilterUpdate>, j: int) -> bool {
    exists|i: int|
        0 <= i < j && (#[trigger] raws[i]).mode == raws[j].mode && raws[i].teleports
            == raws[j].teleports
}

/// The first problem among `raws[j..]`, taking each update in turn: first its
/// tier, then whether an earlier update was for the same filter.
pub open spec fn filter_updates_problem(raws: Seq<RawFilterUpdate>, j: int) -> Option<
    InvalidFilterUpdate,
>
    decreases raws.len() - j,
{
    if j < 0 || j >= raws.len() {
        None
    } else if raw_too_hard(raws[j]) {
        Some(
            InvalidFilterUpdate::TierTooHigh {
                tier: raws[j].update.tier->0,
                mode: raws[j].mode,
                teleports: raws[j].teleports,
            },
        )
    } else if repeats_earlier(raws, j) {
        Some(InvalidFilterUpdate::Duplicate { mode: raws[j].mode, teleports: raws[j].teleports })
    } else {
        filter_updates_problem(raws, j + 1)
    }
}

/// The validated form of accepted raw updates: each update keyed by its
/// filter.
pub open spec fn keyed_updates(raws: Seq<RawFilterUpdate>) -> Seq<((Mode, bool), FilterUpdate)> {
    raws.map_values(|r: RawFilterUpdate| ((r.mode, r.teleports), r.update))
}

/// The position of a filter key in key order: by mode, then Pro before TP.
pub open spec fn key_slot(key: (Mode, bool)) -> int {
    filter_slot(key.0, key.1)
}

/// The first entry of `ups` whose key is in slot `s`.
pub open spec fn slot_entry(ups: Seq<((Mode, bool), FilterUpdate)>, s: int) -> Option<
    ((Mode, bool), FilterUpdate),
>
    decreases ups.len(),
{
    if ups.len() == 0 {
        None
    } else {
        let prev = slot_entry(ups.drop_last(), s);
        if prev is Some {
            prev
        } else if key_slot(ups.last().0) == s {
            Some(ups.last())
        } else {
            None
        }
    }
}

/// The value of `o`, if any, as a sequence.
pub open spec fn present<T>(o: Option<T>) -> Seq<T> {
    match o {
        Some(v) => seq![v],
        None => seq![],
    }
}

/// The entries of `ups` for the slots from `s` on, in key order: for each
/// slot the first entry with that key.
pub open spec fn ordered_from(ups: Seq<((Mode, bool), FilterUpdate)>, s: int) -> Seq<
    ((Mode, bool), FilterUpdate),
>
    decreases 4 - s,
{
    if s >= 4 || s < 0 {
        seq![]
    } else {
        present(slot_entry(ups, s)) + ordered_from(ups, s + 1)
    }
}

/// The entries of `ups` in key order, one per key.
pub open spec fn ordered_updates(ups: Seq<((Mode, bool), FilterUpdate)>) -> Seq<
    ((Mode, bool), FilterUpdate),
> {
    ordered_from(ups, 0)
}

/// What [`slot_entry`] finds: the first entry in slot `s`, or none when no
/// entry is in that slot.
proof fn lemma_slot_entry(ups: Seq<((Mode, bool), FilterUpdate)>, s: int)
    ensures
        slot_entry(ups, s) is None <==> forall|i: int|
            0 <= i < ups.len() ==> key_slot((#[trigger] ups[i]).0) != s,
        slot_entry(ups, s) matches Some(e) ==> exists|i: int|
            0 <= i < ups.len() && ups[i] == e && key_slot(e.0) == s && forall|m: int|
                0 <= m < i ==> key_slot((#[trigger] ups[m]).0) != s,
    decreases ups.len(),
{
    if ups.len() > 0 {
        let front = ups.drop_last();
        lemma_slot_entry(front, s);
        assert forall|i: int| 0 <= i < front.len() implies front[i] == ups[i] by {}
        if let Some(e) = slot_entry(front, s) {
            let i = choose|i: int|
                0 <= i < front.len() && front[i] == e && key_slot(e.0) == s && forall|m: int|
                    0 <= m < i ==> key_slot((#[trigger] front[m]).0) != s;
            assert(ups[i] == e);
            assert forall|m: int| 0 <= m < i implies key_slot((#[trigger] ups[m]).0) != s by {
                assert(ups[m] == front[m]);
            }
        } else if key_slot(ups.last().0) == s {
            assert forall|m: int| 0 <= m < ups.len() - 1 implies key_slot((#[trigger] ups[m]).0)
                != s by {
                assert(ups[m] == front[m]);
            }
        } else {
            assert forall|i: int| 0 <= i < ups.len() implies key_slot((#[trigger] ups[i]).0) != s by {
                if i < ups.len() - 1 {
                    assert(ups[i] == front[i]);
                }
            }
        }
    }
}

/// Every entry of [`ordered_from`] has a slot from `s` to 3, each is the
/// entry that [`slot_entry`] finds for its slot, and the slots ascend
/// strictly.
proof fn lemma_ordered_from(ups: Seq<((Mode, bool), FilterUpdate)>, s: int)
    requires
        0 <= s <= 4,
    ensures
        forall|k: int|
            0 <= k < ordered_from(ups, s).len() ==> s <= key_slot(
                (#[trigger] ordered_from(ups, s)[k]).0,
            ) < 4 && slot_entry(ups, key_slot(ordered_from(ups, s)[k].0)) == Some(
                ordered_from(ups, s)[k],
            ),
        forall|k1: int, k2: int|
            0 <= k1 < k2 < ordered_from(ups, s).len() ==> key_slot(
                (#[trigger] ordered_from(ups, s)[k1]).0,
            ) < key_slot((#[trigger] ordered_from(ups, s)[k2]).0),
        forall|t: int|
            s <= t < 4 && (#[trigger] slot_entry(ups, t)) is Some ==> exists|k: int|
                0 <= k < ordered_from(ups, s).len() && ordered_from(ups, s)[k] == slot_entry(
                    ups,
                    t,
                )->0,
    decreases 4 - s,
{
    if s < 4 {
        lemma_ordered_from(ups, s + 1);
        lemma_slot_entry(ups, s);
        let head = present(slot_entry(ups, s));
        let tail = ordered_from(ups, s + 1);
        let all = ordered_from(ups, s);
        assert(all == head + tail);
        assert forall|k: int| 0 <= k < all.len() implies s <= key_slot((#[trigger] all[k]).0) < 4
            && slot_entry(ups, key_slot(all[k].0)) == Some(all[k]) by {
            if k >= head.len() {
                assert(all[k] == tail[k - head.len()]);
            }
        }
        assert forall|k1: int, k2: int| 0 <= k1 < k2 < all.len() implies key_slot(
            (#[trigger] all[k1]).0,
        ) < key_slot((#[trigger] all[k2]).0) by {
            assert(all[k2] == tail[k2 - head.len()]);
            if k1 >= head.len() {
                assert(all[k1] == tail[k1 - head.len()]);
            }
        }
        assert forall|t: int| s <= t < 4 && (#[trigger] slot_entry(ups, t)) is Some implies exists|
            k: int,
        | 0 <= k < all.len() && all[k] == slot_entry(ups, t)->0 by {
            if t == s {
                assert(all[0] == slot_entry(ups, t)->0);
            } else {
                let k = choose|k: int|
                    0 <= k < tail.len() && tail[k] == slot_entry(ups, t)->0;
                assert(all[k + head.len()] == tail[k]);
            }
        }
    }
}

proof fn lemma_no_filter_update_problem(raws: Seq<RawFilterUpdate>, j: int)
    requires
        0 <= j,
        filter_updates_problem(raws, j) is None,
    ensures
        forall|k: int|
            j <= k < raws.len() ==> !raw_too_hard(#[trigger] raws[k]) && !repeats_earlier(raws, k),
    decreases raws.len() - j,
{
    if j < raws.len() {
        lemma_no_filter_update_problem(raws, j + 1);
    }
}

proof fn lemma_filter_update_problem(raws: Seq<RawFilterUpdate>, j: int)
    requires
        0 <= j,
    ensures
        filter_updates_problem(raws, j) is None <==> forall|k: int|
            j <= k < raws.len() ==> !raw_too_hard(#[trigger] raws[k]) && !repeats_earlier(raws, k),
        filter_updates_problem(raws, j) matches Some(InvalidFilterUpdate::TierTooHigh {
            tier,
            mode,
            teleports,
        }) ==> exists|k: int|
            j <= k < raws.len() && raw_too_hard(#[trigger] raws[k]) && raws[k].update.tier == Some(
                tier,
            ) && raws[k].mode == mode && raws[k].teleports == teleports,
        filter_updates_problem(raws, j) matches Some(InvalidFilterUpdate::Duplicate {
            mode,
            teleports,
        }) ==> exists|k: int|
            j <= k < raws.len() && repeats_earlier(raws, k) && (#[trigger] raws[k]).mode == mode
                && raws[k].teleports == teleports,
    decreases raws.len() - j,
{
    if j < raws.len() {
        lemma_filter_update_problem(raws, j + 1);
    }
}

/// Submitted filter updates are refused exactly when one of them ranks its
/// filter while giving it a tier no human can complete (unfeasible or
/// impossible), or when two of them are for the same filter (mode and
/// teleport setting). A tier refusal names such an update's tier and
/// filter; a duplicate refusal names a filter that two updates share.
pub proof fn law_filter_update_refusals(raws: Seq<RawFilterUpdate>)
    ensures
        (filter_updates_problem(raws, 0) is Some) == ((exists|k: int|
            0 <= k < raws.len() && (#[trigger] raws[k]).update.ranked_status == Some(
                RankedStatus::Ranked,
            ) && (raws[k].update.tier == Some(Tier::Unfeasible) || raws[k].update.tier == Some(
                Tier::Impossible,
            ))) || (exists|i: int, j: int|
            0 <= i < j < raws.len() && (#[trigger] raws[i]).mode == (#[trigger] raws[j]).mode
                && raws[i].teleports == raws[j].teleports)),
        filter_updates_problem(raws, 0) matches Some(InvalidFilterUpdate::TierTooHigh {
            tier,
            mode,
            teleports,
        }) ==> (tier == Tier::Unfeasible || tier == Tier::Impossible) && exists|k: int|
            0 <= k < raws.len() && (#[trigger] raws[k]).update.tier == Some(tier)
                && raws[k].update.ranked_status == Some(RankedStatus::Ranked) && raws[k].mode
                == mode && raws[k].teleports == teleports,
        filter_updates_problem(raws, 0) matches Some(InvalidFilterUpdate::Duplicate {
            mode,
            teleports,
        }) ==> exists|i: int, j: int|
            0 <= i < j < raws.len() && (#[trigger] raws[i]).mode == mode && raws[i].teleports
                == teleports && (#[trigger] raws[j]).mode == mode && raws[j].teleports == teleports,
{
    lemma_filter_update_problem(raws, 0);
    let bad_tier = exists|k: int|
        0 <= k < raws.len() && (#[trigger] raws[k]).update.ranked_status == Some(
            RankedStatus::Ranked,
        ) && (raws[k].update.tier == Some(Tier::Unfeasible) || raws[k].update.tier == Some(
            Tier::Impossible,
        ));
    let dup = exists|i: int, j: int|
        0 <= i < j < raws.len() && (#[trigger] raws[i]).mode == (#[trigger] raws[j]).mode
            && raws[i].teleports == raws[j].teleports;
    if bad_tier {
        let k = choose|k: int|
            0 <= k < raws.len() && (#[trigger] raws[k]).update.ranked_status == Some(
                RankedStatus::Ranked,
            ) && (raws[k].update.tier == Some(Tier::Unfeasible) || raws[k].update.tier == Some(
                Tier::Impossible,
            ));
        assert(raw_too_hard(raws[k]));
    }
    if dup {
        let (i, j) = choose|i: int, j: int|
            0 <= i < j < raws.len() && (#[trigger] raws[i]).mode == (#[trigger] raws[j]).mode
                && raws[i].teleports == raws[j].teleports;
        assert(repeats_earlier(raws, j));
    }
    if filter_updates_problem(raws, 0) is Some {
        let k = choose|k: int|
            0 <= k < raws.len() && !(!raw_too_hard(#[trigger] raws[k]) && !repeats_earlier(
                raws,
                k,
            ));
        if raw_too_hard(raws[k]) {
            assert(bad_tier);
        } else {
            let i = choose|i: int|
                0 <= i < k && (#[trigger] raws[i]).mode == raws[k].mode && raws[i].teleports
                    == raws[k].teleports;
            assert(dup);
        }
    }
    if let Some(InvalidFilterUpdate::TierTooHigh { tier, mode, teleports }) =
        filter_updates_problem(raws, 0) {
        let k = choose|k: int|
            0 <= k < raws.len() && raw_too_hard(#[trigger] raws[k]) && raws[k].update.tier == Some(
                tier,
            ) && raws[k].mode == mode && raws[k].teleports == teleports;
        assert(raws[k].update.tier == Some(tier));
    }
    if let Some(InvalidFilterUpdate::Duplicate { mode, teleports }) = filter_updates_problem(
        raws,
        0,
    ) {
        let k = choose|k: int|
            0 <= k < raws.len() && repeats_earlier(raws, k) && (#[trigger] raws[k]).mode == mode
                && raws[k].teleports == teleports;
        let i = choose|i: int|
            0 <= i < k && (#[trigger] raws[i]).mode == raws[k].mode && raws[i].teleports
                == raws[k].teleports;
        assert(raws[i].mode == mode);
    }
}

/// Accepted filter updates are sound and complete: no update ranks a filter
/// with a tier above [`Tier::Death`], no two updates are for the same
/// filter, the validated updates come in strictly ascending key order, and
/// every submitted update is among them.
pub proof fn law_accepted_filter_updates(raws: Seq<RawFilterUpdate>)
    requires
        filter_updates_problem(raws, 0) is None,
    ensures
        forall|k: int| 0 <= k < raws.len() ==> !raw_too_hard(#[trigger] raws[k]),
        forall|i: int, j: int|
            0 <= i < j < raws.len() ==> (#[trigger] keyed_updates(raws)[i]).0 != (
            #[trigger] keyed_updates(raws)[j]).0,
        forall|k1: int, k2: int|
            0 <= k1 < k2 < ordered_updates(keyed_updates(raws)).len() ==> key_slot(
                (#[trigger] ordered_updates(keyed_updates(raws))[k1]).0,
            ) < key_slot((#[trigger] ordered_updates(keyed_updates(raws))[k2]).0),
        forall|i: int|
            0 <= i < raws.len() ==> exists|k: int|
                0 <= k < ordered_updates(keyed_updates(raws)).len() && ordered_updates(
                    keyed_updates(raws),
                )[k] == #[trigger] keyed_updates(raws)[i],
{
    let ups = keyed_updates(raws);
    lemma_no_filter_update_problem(raws, 0);
    assert forall|i: int, j: int| 0 <= i < j < raws.len() implies (#[trigger] keyed_updates(
        raws,
    )[i]).0 != (#[trigger] keyed_updates(raws)[j]).0 by {
        assert(!repeats_earlier(raws, j));
        if raws[i].mode == raws[j].mode && raws[i].teleports == raws[j].teleports {
            assert(repeats_earlier(raws, j));
        }
    }
    lemma_ordered_from(ups, 0);
    assert forall|i: int| 0 <= i < raws.len() implies exists|k: int|
        0 <= k < ordered_updates(ups).len() && ordered_updates(ups)[k] == #[trigger] keyed_updates(
            raws,
        )[i] by {
        let t = key_slot(ups[i].0);
        lemma_slot_entry(ups, t);
        assert(slot_entry(ups, t) is Some);
        let e = slot_entry(ups, t)->0;
        let i2 = choose|i2: int|
            0 <= i2 < ups.len() && ups[i2] == e && key_slot(e.0) == t && forall|m: int|
                0 <= m < i2 ==> key_slot((#[trigger] ups[m]).0) != t;
        assert(ups[i2].0 == ups[i].0) by {
            assert(key_slot(ups[i2].0) == key_slot(ups[i].0));
            assert(ups[i2].0.0.rank() == ups[i].0.0.rank());
        }
        if i2 < i {
            assert(keyed_updates(raws)[i2].0 != keyed_updates(raws)[i].0);
        } else if i < i2 {
            assert(key_slot(ups[i].0) != t);
        }
        assert(e == ups[i]);
        assert(0 <= t < 4);
        let k = choose|k: int| 0 <= k < ordered_from(ups, 0).len() && ordered_from(ups, 0)[k]
            == slot_entry(ups, t)->0;
        assert(ordered_updates(ups)[k] == keyed_updates(raws)[i]);
    }
}

/// The slot of a filter key.
fn slot_of_key(mode: Mode, teleports: bool) -> (r: usize)
    ensures
        r as int == key_slot((mode, teleports)),
        r < 4,
{
    let m: usize = match mode {
        Mode::Vanilla => 0,
        Mode::Classic => 2,
    };
    if teleports {
        m + 1
    } else {
        m
    }
}

impl CourseUpdate {
    /// Validates submitted filter updates.
    ///
    /// No updates (a missing or an empty list) gives `None`. Otherwise each
    /// update is taken in turn: a ranked status with a tier above
    /// [`Tier::Death`] is refused, and so is a second update for the same
    /// filter. Accepted updates are returned keyed by mode and teleports, in
    /// key order.
    pub fn validate_filter_updates(raw: Option<Vec<RawFilterUpdate>>) -> (r: Result<
        Option<FilterUpdates>,
        InvalidFilterUpdate,
    >)
        ensures
            raw is None ==> r matches Ok(None),
            raw matches Some(raws) ==> (raws@.len() == 0 ==> r matches Ok(None)),
            raw matches Some(raws) ==> (filter_updates_problem(raws@, 0) matches Some(e) ==> r
                == Err::<Option<FilterUpdates>, _>(e)),
            raw matches Some(raws) ==> (raws@.len() > 0 && filter_updates_problem(raws@, 0) is None
                ==> (r matches Ok(Some(updates)) && updates@ == ordered_updates(
                keyed_updates(raws@),
            ))),
            raw matches Some(raws) ==> ((r is Err) == (exists|k: int|
                0 <= k < raws@.len() && (#[trigger] raws@[k]).update.ranked_status == Some(
                    RankedStatus::Ranked,
                ) && (raws@[k].update.tier == Some(Tier::Unfeasible) || raws@[k].update.tier
                    == Some(Tier::Impossible))) || (exists|i: int, j: int|
                0 <= i < j < raws@.len() && (#[trigger] raws@[i]).mode == (#[trigger] raws@[j]).mode
                    && raws@[i].teleports == raws@[j].teleports)),
    {
        let raws = match raw {
            None => {
                return Ok(None);
            },
            Some(raws) => raws,
        };
        proof {
            law_filter_update_refusals(raws@);
        }
        if raws.len() == 0 {
            return Ok(None);
        }
        let ghost input = raws@;
        let mut s0: Option<((Mode, bool), FilterUpdate)> = None;
        let mut s1: Option<((Mode, bool), FilterUpdate)> = None;
        let mut s2: Option<((Mode, bool), FilterUpdate)> = None;
        let mut s3: Option<((Mode, bool), FilterUpdate)> = None;
        for r in it: raws.into_iter()
            invariant
                it.seq() == input,
                raw matches Some(rs) && rs@ == input,
                input.len() > 0,
                s0 == slot_entry(keyed_updates(input.take(it.index() as int)), 0),
                s1 == slot_entry(keyed_updates(input.take(it.index() as int)), 1),
                s2 == slot_entry(keyed_updates(input.take(it.index() as int)), 2),
                s3 == slot_entry(keyed_updates(input.take(it.index() as int)), 3),
                filter_updates_problem(input, 0) == filter_updates_problem(
                    input,
                    it.index() as int,
                ),
        {
            let ghost j = it.index() as int;
            let ghost done = keyed_updates(input.take(j));
            let ghost entry = ((r.mode, r.teleports), r.update);
            proof {
                assert(input[j] == r);
                assert(keyed_updates(input.take(j + 1)).drop_last() =~= done);
                assert(keyed_updates(input.take(j + 1)).last() == entry);
            }
            if let (Some(tier), Some(status)) = (r.update.tier, r.update.ranked_status) {
                if !tier.is_humanly_possible() && status.is_ranked() {
                    return Err(
                        InvalidFilterUpdate::TierTooHigh {
                            tier,
                            mode: r.mode,
                            teleports: r.teleports,
                        },
                    );
                }
            }
            let k = slot_of_key(r.mode, r.teleports);
            let seen = match k {
                0 => s0.is_some(),
                1 => s1.is_some(),
                2 => s2.is_some(),
                _ => s3.is_some(),
            };
            proof {
                lemma_slot_entry(done, k as int);
                assert(seen == repeats_earlier(input, j)) by {
                    if seen {
                        let i = choose|i: int|
                            0 <= i < done.len() && key_slot(done[i].0) == k as int && forall|
                                m: int,
                            | 0 <= m < i ==> key_slot((#[trigger] done[m]).0) != k as int;
                        assert(input.take(j)[i] == input[i]);
                        assert(done[i].0 == (input[i].mode, input[i].teleports));
                        assert(input[i].mode == input[j].mode);
                    }
                    if repeats_earlier(input, j) {
                        let i = choose|i: int|
                            0 <= i < j && (#[trigger] input[i]).mode == input[j].mode
                                && input[i].teleports == input[j].teleports;
                        assert(input.take(j)[i] == input[i]);
                        assert(key_slot(done[i].0) == k as int);
                    }
                }
            }
            if seen {
                return Err(InvalidFilterUpdate::Duplicate { mode: r.mode, teleports: r.teleports });
            }
            let key = (r.mode, r.teleports);
            let e = (key, r.update);
            match k {
                0 => {
                    s0 = Some(e);
                },
                1 => {
                    s1 = Some(e);
                },
                2 => {
                    s2 = Some(e);
                },
                _ => {
                    s3 = Some(e);
                },
            }
        }
        proof {
            assert(input.take(input.len() as int) =~= input);
        }
        let mut updates: FilterUpdates = Vec::new();
        if let Some(e) = s0 {
            updates.push(e);
        }
        if let Some(e) = s1 {
            updates.push(e);
        }
        if let Some(e) = s2 {
            updates.push(e);
        }
        if let Some(e) = s3 {
            updates.push(e);
        }
        proof {
            let ups = keyed_updates(input);
            assert(ordered_from(ups, 4) =~= Seq::<((Mode, bool), FilterUpdate)>::empty());
            assert(ordered_from(ups, 3) =~= present(slot_entry(ups, 3)));
            assert(ordered_from(ups, 2) =~= present(slot_entry(ups, 2)) + present(
                slot_entry(ups, 3),
            ));
            assert(ordered_from(ups, 1) =~= present(slot_entry(ups, 1)) + present(
                slot_entry(ups, 2),
            ) + present(slot_entry(ups, 3)));
            assert(ordered_from(ups, 0) =~= present(slot_entry(ups, 0)) + present(
                slot_entry(ups, 1),
            ) + present(slot_entry(ups, 2)) + present(slot_entry(ups, 3)));
            assert(updates@ =~= ordered_updates(ups));
        }
        Ok(Some(updates))
    }
}

} // verus!
