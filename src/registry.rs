//! The canonical device registry and the id-keyed diff that reconciles a
//! scan pass against it.
//!
//! The registry is modelled as the sequence of stored device views, whose ids
//! are pairwise distinct. A pass first folds each incoming device into the
//! store (emitting `Added`, or `BatteryChanged`/`Updated` for a changed
//! record), then drops every stored device whose id the pass did not report
//! (emitting `Removed`).
use crate::device::{device_views, event_views, Device, DeviceEvent, DeviceView, EventView};
use vstd::prelude::*;

verus! {

/// No two entries share an id.
pub open spec fn ids_unique(s: Seq<DeviceView>) -> bool {
    forall|i: int, j: int| 0 <= i < s.len() && 0 <= j < s.len() && i != j ==> s[i].id != s[j].id
}

/// The ids that occur in a list of devices.
pub open spec fn id_set(s: Seq<DeviceView>) -> Set<Seq<char>> {
    Set::new(|id: Seq<char>| exists|i: int| 0 <= i < s.len() && s[i].id == id)
}

/// The index of the last entry with the given id, or -1 when there is none.
pub open spec fn position_of(s: Seq<DeviceView>, id: Seq<char>) -> int
    decreases s.len(),
{
    if s.len() == 0 {
        -1
    } else if s.last().id == id {
        s.len() - 1
    } else {
        position_of(s.drop_last(), id)
    }
}

/// The events for a stored record `prev` replaced by a different `next`:
/// a battery change first (only when the level differs and a new one is
/// known), then the update.
pub open spec fn change_events(prev: DeviceView, next: DeviceView) -> Seq<EventView> {
    if prev.battery_level != next.battery_level && next.battery_level is Some {
        seq![EventView::BatteryChanged(next.id, next.battery_level->0), EventView::Updated(next)]
    } else {
        seq![EventView::Updated(next)]
    }
}

/// Folds one incoming device into the store: the new store and the events.
pub open spec fn upsert(s: Seq<DeviceView>, d: DeviceView) -> (Seq<DeviceView>, Seq<EventView>) {
    let p = position_of(s, d.id);
    if p < 0 {
        (s.push(d), seq![EventView::Added(d)])
    } else if s[p] == d {
        (s, Seq::empty())
    } else {
        (s.update(p, d), change_events(s[p], d))
    }
}

/// Folds a whole scan pass into the store, in order.
pub open spec fn upsert_all(s: Seq<DeviceView>, scan: Seq<DeviceView>) -> (
    Seq<DeviceView>,
    Seq<EventView>,
)
    decreases scan.len(),
{
    if scan.len() == 0 {
        (s, Seq::empty())
    } else {
        let (s1, e1) = upsert_all(s, scan.drop_last());
        let (s2, e2) = upsert(s1, scan.last());
        (s2, e1 + e2)
    }
}

/// The entries whose id is in `keep`, in order.
pub open spec fn retained(s: Seq<DeviceView>, keep: Set<Seq<char>>) -> Seq<DeviceView>
    decreases s.len(),
{
    if s.len() == 0 {
        s
    } else if keep.contains(s.last().id) {
        retained(s.drop_last(), keep).push(s.last())
    } else {
        retained(s.drop_last(), keep)
    }
}

/// A `Removed` event for each entry whose id is not in `keep`, in order.
pub open spec fn removals(s: Seq<DeviceView>, keep: Set<Seq<char>>) -> Seq<EventView>
    decreases s.len(),
{
    if s.len() == 0 {
        Seq::empty()
    } else if keep.contains(s.last().id) {
        removals(s.drop_last(), keep)
    } else {
        removals(s.drop_last(), keep).push(EventView::Removed(s.last().id))
    }
}

/// The store after a diff against `scan`.
pub open spec fn diff_store(s: Seq<DeviceView>, scan: Seq<DeviceView>) -> Seq<DeviceView> {
    retained(upsert_all(s, scan).0, id_set(scan))
}

/// The events of a diff against `scan`, in emission order.
pub open spec fn diff_events(s: Seq<DeviceView>, scan: Seq<DeviceView>) -> Seq<EventView> {
    upsert_all(s, scan).1 + removals(upsert_all(s, scan).0, id_set(scan))
}

proof fn lemma_position(s: Seq<DeviceView>, id: Seq<char>)
    ensures
        -1 <= position_of(s, id) < s.len(),
        position_of(s, id) >= 0 ==> s[position_of(s, id)].id == id,
        position_of(s, id) == -1 ==> forall|k: int| 0 <= k < s.len() ==> s[k].id != id,
        ids_unique(s) ==> forall|k: int|
            0 <= k < s.len() && s[k].id == id ==> position_of(s, id) == k,
    decreases s.len(),
{
    if s.len() > 0 {
        lemma_position(s.drop_last(), id);
        assert forall|k: int| 0 <= k < s.len() - 1 implies s.drop_last()[k] == s[k] by {}
    }
}

proof fn lemma_id_set_push(s: Seq<DeviceView>, d: DeviceView)
    ensures
        id_set(s.push(d)) == id_set(s).insert(d.id),
{
    assert forall|id: Seq<char>| id_set(s.push(d)).contains(id) implies id_set(s).insert(
        d.id,
    ).contains(id) by {
        let i = choose|i: int| 0 <= i < s.push(d).len() && s.push(d)[i].id == id;
        if i < s.len() {
            assert(s[i].id == id);
        }
    }
    assert forall|id: Seq<char>| id_set(s).insert(d.id).contains(id) implies id_set(
        s.push(d),
    ).contains(id) by {
        if id == d.id {
            assert(s.push(d)[s.len() as int].id == id);
        } else {
            let i = choose|i: int| 0 <= i < s.len() && s[i].id == id;
            assert(s.push(d)[i].id == id);
        }
    }
    assert(id_set(s.push(d)) =~= id_set(s).insert(d.id));
}

proof fn lemma_id_set_drop_last(s: Seq<DeviceView>)
    requires
        s.len() > 0,
    ensures
        id_set(s) == id_set(s.drop_last()).insert(s.last().id),
{
    lemma_id_set_push(s.drop_last(), s.last());
    assert(s.drop_last().push(s.last()) =~= s);
}

proof fn lemma_upsert(s: Seq<DeviceView>, d: DeviceView)
    requires
        ids_unique(s),
    ensures
        ids_unique(upsert(s, d).0),
        id_set(upsert(s, d).0) == id_set(s).insert(d.id),
{
    lemma_position(s, d.id);
    let p = position_of(s, d.id);
    if p < 0 {
        lemma_id_set_push(s, d);
    } else {
        let t = s.update(p, d);
        assert forall|id: Seq<char>| id_set(t).contains(id) <==> id_set(s).insert(d.id).contains(
            id,
        ) by {
            if id_set(t).contains(id) {
                let i = choose|i: int| 0 <= i < t.len() && t[i].id == id;
                assert(s[i].id == id);
            }
            if id_set(s).insert(d.id).contains(id) {
                if id == d.id {
                    assert(t[p].id == id);
                } else {
                    let i = choose|i: int| 0 <= i < s.len() && s[i].id == id;
                    assert(t[i].id == id);
                }
            }
        }
        assert(id_set(t) =~= id_set(s).insert(d.id));
    }
}

proof fn lemma_upsert_all(s: Seq<DeviceView>, scan: Seq<DeviceView>)
    requires
        ids_unique(s),
    ensures
        ids_unique(upsert_all(s, scan).0),
        id_set(upsert_all(s, scan).0) == id_set(s) + id_set(scan),
    decreases scan.len(),
{
    if scan.len() == 0 {
        assert(id_set(scan) =~= Set::empty());
        assert(id_set(s) + id_set(scan) =~= id_set(s));
    } else {
        lemma_upsert_all(s, scan.drop_last());
        lemma_upsert(upsert_all(s, scan.drop_last()).0, scan.last());
        lemma_id_set_drop_last(scan);
        assert(id_set(s) + id_set(scan) =~= (id_set(s) + id_set(scan.drop_last())).insert(
            scan.last().id,
        ));
    }
}

proof fn lemma_retained(s: Seq<DeviceView>, keep: Set<Seq<char>>)
    requires
        ids_unique(s),
    ensures
        ids_unique(retained(s, keep)),
        id_set(retained(s, keep)) == id_set(s).intersect(keep),
    decreases s.len(),
{
    if s.len() == 0 {
        assert(id_set(s) =~= Set::empty());
        assert(id_set(retained(s, keep)) =~= id_set(s).intersect(keep));
    } else {
        let t = s.drop_last();
        assert(ids_unique(t)) by {
            assert forall|i: int, j: int|
                0 <= i < t.len() && 0 <= j < t.len() && i != j implies t[i].id != t[j].id by {
                assert(t[i] == s[i] && t[j] == s[j]);
            }
        }
        lemma_retained(t, keep);
        lemma_id_set_drop_last(s);
        let r = retained(t, keep);
        if keep.contains(s.last().id) {
            lemma_id_set_push(r, s.last());
            assert(!id_set(t).contains(s.last().id)) by {
                if id_set(t).contains(s.last().id) {
                    let i = choose|i: int| 0 <= i < t.len() && t[i].id == s.last().id;
                    assert(s[i].id == s[s.len() - 1].id);
                }
            }
            assert(!id_set(r).contains(s.last().id));
            assert forall|i: int, j: int|
                0 <= i < r.push(s.last()).len() && 0 <= j < r.push(s.last()).len() && i
                    != j implies r.push(s.last())[i].id != r.push(s.last())[j].id by {
                if i < r.len() && j == r.len() {
                    assert(id_set(r).contains(r[i].id));
                }
                if j < r.len() && i == r.len() {
                    assert(id_set(r).contains(r[j].id));
                }
            }
            assert(id_set(s).intersect(keep) =~= id_set(t).intersect(keep).insert(s.last().id));
        } else {
            assert(id_set(s).intersect(keep) =~= id_set(t).intersect(keep));
        }
    }
}

proof fn lemma_diff_store(s: Seq<DeviceView>, scan: Seq<DeviceView>)
    requires
        ids_unique(s),
    ensures
        ids_unique(diff_store(s, scan)),
        id_set(diff_store(s, scan)) == id_set(scan),
{
    lemma_upsert_all(s, scan);
    lemma_retained(upsert_all(s, scan).0, id_set(scan));
    assert((id_set(s) + id_set(scan)).intersect(id_set(scan)) =~= id_set(scan));
}

/// The record stored under `id`, if any.
pub open spec fn lookup(s: Seq<DeviceView>, id: Seq<char>) -> Option<DeviceView> {
    if position_of(s, id) >= 0 {
        Some(s[position_of(s, id)])
    } else {
        None
    }
}

/// The events of folding `d` into a store whose record under `d.id` is
/// `prev`.
pub open spec fn fold_events(prev: Option<DeviceView>, d: DeviceView) -> Seq<EventView> {
    match prev {
        None => seq![EventView::Added(d)],
        Some(p) => if p == d {
            Seq::empty()
        } else {
            change_events(p, d)
        },
    }
}

/// The events of a list that concern the given id, in order.
pub open spec fn events_about(evs: Seq<EventView>, id: Seq<char>) -> Seq<EventView>
    decreases evs.len(),
{
    if evs.len() == 0 {
        evs
    } else if evs.last().subject() == id {
        events_about(evs.drop_last(), id).push(evs.last())
    } else {
        events_about(evs.drop_last(), id)
    }
}

/// Every entry of `scan` that carries `d`'s id is `d` itself.
pub open spec fn reports_only(scan: Seq<DeviceView>, d: DeviceView) -> bool {
    forall|i: int| 0 <= i < scan.len() && #[trigger] scan[i].id == d.id ==> scan[i] == d
}

proof fn lemma_events_about_concat(a: Seq<EventView>, b: Seq<EventView>, id: Seq<char>)
    ensures
        events_about(a + b, id) == events_about(a, id) + events_about(b, id),
    decreases b.len(),
{
    if b.len() == 0 {
        assert(a + b =~= a);
        assert(events_about(a, id) + events_about(b, id) =~= events_about(a, id));
    } else {
        lemma_events_about_concat(a, b.drop_last(), id);
        assert((a + b).drop_last() =~= a + b.drop_last());
        assert((a + b).last() == b.last());
        if b.last().subject() == id {
            assert(events_about(a, id) + events_about(b, id) =~= (events_about(a, id)
                + events_about(b.drop_last(), id)).push(b.last()));
        }
    }
}

proof fn lemma_events_about_uniform(evs: Seq<EventView>, subject: Seq<char>, id: Seq<char>)
    requires
        forall|k: int| 0 <= k < evs.len() ==> (#[trigger] evs[k]).subject() == subject,
    ensures
        events_about(evs, id) == if subject == id {
            evs
        } else {
            Seq::<EventView>::empty()
        },
    decreases evs.len(),
{
    if evs.len() > 0 {
        let t = evs.drop_last();
        assert forall|k: int| 0 <= k < t.len() implies (#[trigger] t[k]).subject() == subject by {
            assert(t[k] == evs[k]);
        }
        lemma_events_about_uniform(t, subject, id);
        assert(evs[evs.len() - 1].subject() == subject);
        if subject == id {
            assert(t.push(evs.last()) =~= evs);
        }
    }
}

proof fn lemma_upsert_lookup(t: Seq<DeviceView>, d: DeviceView, x: Seq<char>)
    requires
        ids_unique(t),
    ensures
        upsert(t, d).1 == fold_events(lookup(t, d.id), d),
        lookup(upsert(t, d).0, x) == if x == d.id {
            Some(d)
        } else {
            lookup(t, x)
        },
        events_about(upsert(t, d).1, x) == if x == d.id {
            upsert(t, d).1
        } else {
            Seq::<EventView>::empty()
        },
{
    lemma_position(t, d.id);
    lemma_position(t, x);
    lemma_upsert(t, d);
    let n = upsert(t, d).0;
    lemma_position(n, x);
    let p = position_of(t, d.id);
    if p < 0 {
        assert(n.drop_last() =~= t);
    } else {
        if x != d.id {
            if position_of(t, x) >= 0 {
                let q = position_of(t, x);
                assert(n[q] == t[q]);
            } else {
                assert forall|k: int| 0 <= k < n.len() implies n[k].id != x by {
                    if k != p {
                        assert(n[k] == t[k]);
                    }
                }
            }
        } else {
            assert(n[p].id == x);
        }
    }
    let evs = upsert(t, d).1;
    assert forall|k: int| 0 <= k < evs.len() implies (#[trigger] evs[k]).subject() == d.id by {}
    lemma_events_about_uniform(evs, d.id, x);
}

proof fn lemma_upsert_all_about(s: Seq<DeviceView>, scan: Seq<DeviceView>, d: DeviceView)
    requires
        ids_unique(s),
        reports_only(scan, d),
    ensures
        id_set(scan).contains(d.id) ==> events_about(upsert_all(s, scan).1, d.id) == fold_events(
            lookup(s, d.id),
            d,
        ) && lookup(upsert_all(s, scan).0, d.id) == Some(d),
        !id_set(scan).contains(d.id) ==> events_about(upsert_all(s, scan).1, d.id) == Seq::<
            EventView,
        >::empty() && lookup(upsert_all(s, scan).0, d.id) == lookup(s, d.id),
    decreases scan.len(),
{
    let id = d.id;
    if scan.len() == 0 {
        assert(!id_set(scan).contains(id));
    } else {
        let t = scan.drop_last();
        let e = scan.last();
        assert(reports_only(t, d)) by {
            assert forall|i: int| 0 <= i < t.len() && #[trigger] t[i].id == d.id implies t[i]
                == d by {
                assert(t[i] == scan[i]);
            }
        }
        lemma_upsert_all_about(s, t, d);
        lemma_upsert_all(s, t);
        let (s1, e1) = upsert_all(s, t);
        lemma_upsert_lookup(s1, e, id);
        lemma_events_about_concat(e1, upsert(s1, e).1, id);
        lemma_id_set_drop_last(scan);
        assert(events_about(upsert_all(s, scan).1, id) =~= events_about(e1, id) + events_about(
            upsert(s1, e).1,
            id,
        ));
        if e.id == id {
            assert(scan[scan.len() - 1].id == d.id);
            assert(e == d);
        }
    }
}

proof fn lemma_removals_about(t: Seq<DeviceView>, keep: Set<Seq<char>>, id: Seq<char>)
    requires
        ids_unique(t),
    ensures
        events_about(removals(t, keep), id) == if !keep.contains(id) && id_set(t).contains(id) {
            seq![EventView::Removed(id)]
        } else {
            Seq::<EventView>::empty()
        },
    decreases t.len(),
{
    if t.len() == 0 {
        assert(!id_set(t).contains(id));
    } else {
        let u = t.drop_last();
        assert(ids_unique(u)) by {
            assert forall|i: int, j: int|
                0 <= i < u.len() && 0 <= j < u.len() && i != j implies u[i].id != u[j].id by {
                assert(u[i] == t[i] && u[j] == t[j]);
            }
        }
        lemma_removals_about(u, keep, id);
        lemma_id_set_drop_last(t);
        if t.last().id == id {
            assert(!id_set(u).contains(id)) by {
                if id_set(u).contains(id) {
                    let i = choose|i: int| 0 <= i < u.len() && u[i].id == id;
                    assert(t[i].id == t[t.len() - 1].id);
                }
            }
        }
        if !keep.contains(t.last().id) {
            let r = removals(u, keep);
            assert(r.push(EventView::Removed(t.last().id)).drop_last() =~= r);
        }
    }
}

proof fn lemma_lookup_some(s: Seq<DeviceView>, id: Seq<char>)
    ensures
        lookup(s, id) is Some <==> id_set(s).contains(id),
{
    lemma_position(s, id);
    if id_set(s).contains(id) {
        let i = choose|i: int| 0 <= i < s.len() && s[i].id == id;
    }
}

/// After a diff, the registry tracks exactly the ids of the scan pass, and
/// still tracks each of them once.
pub proof fn law_registry_matches_scan(s: Seq<DeviceView>, scan: Seq<DeviceView>)
    requires
        ids_unique(s),
    ensures
        id_set(diff_store(s, scan)) == id_set(scan),
        ids_unique(diff_store(s, scan)),
{
    lemma_diff_store(s, scan);
}

proof fn lemma_diff_about_reported(s: Seq<DeviceView>, scan: Seq<DeviceView>, d: DeviceView)
    requires
        ids_unique(s),
        reports_only(scan, d),
        id_set(scan).contains(d.id),
    ensures
        events_about(diff_events(s, scan), d.id) == fold_events(lookup(s, d.id), d),
{
    lemma_upsert_all_about(s, scan, d);
    lemma_upsert_all(s, scan);
    let (t, e) = upsert_all(s, scan);
    lemma_removals_about(t, id_set(scan), d.id);
    lemma_events_about_concat(e, removals(t, id_set(scan)), d.id);
    assert(events_about(diff_events(s, scan), d.id) =~= fold_events(lookup(s, d.id), d));
}

/// A device whose id the registry does not track, reported by a pass (every
/// entry of the pass under that id being this same record), yields exactly
/// one `Added` event and nothing else about that id.
pub proof fn law_new_device_added_once(s: Seq<DeviceView>, scan: Seq<DeviceView>, d: DeviceView)
    requires
        ids_unique(s),
        !id_set(s).contains(d.id),
        scan.contains(d),
        reports_only(scan, d),
    ensures
        events_about(diff_events(s, scan), d.id) == seq![EventView::Added(d)],
{
    lemma_lookup_some(s, d.id);
    let i = choose|i: int| 0 <= i < scan.len() && scan[i] == d;
    assert(scan[i].id == d.id);
    lemma_diff_about_reported(s, scan, d);
}

/// A device reported exactly as it is stored yields no event about its id.
pub proof fn law_unchanged_device_silent(s: Seq<DeviceView>, scan: Seq<DeviceView>, d: DeviceView)
    requires
        ids_unique(s),
        s.contains(d),
        scan.contains(d),
        reports_only(scan, d),
    ensures
        events_about(diff_events(s, scan), d.id) == Seq::<EventView>::empty(),
{
    let i = choose|i: int| 0 <= i < scan.len() && scan[i] == d;
    assert(scan[i].id == d.id);
    let j = choose|j: int| 0 <= j < s.len() && s[j] == d;
    lemma_position(s, d.id);
    lemma_diff_about_reported(s, scan, d);
}

/// A stored device reported again with only its battery level changed, from
/// one known level to another, yields exactly `BatteryChanged` with the new
/// level followed by `Updated` with the new record, for that id.
pub proof fn law_battery_change_reported(
    s: Seq<DeviceView>,
    scan: Seq<DeviceView>,
    prev: DeviceView,
    level: u8,
)
    requires
        ids_unique(s),
        s.contains(prev),
        prev.battery_level is Some,
        prev.battery_level != Some(level),
        scan.contains(DeviceView { battery_level: Some(level), ..prev }),
        reports_only(scan, DeviceView { battery_level: Some(level), ..prev }),
    ensures
        events_about(diff_events(s, scan), prev.id) == seq![
            EventView::BatteryChanged(prev.id, level),
            EventView::Updated(DeviceView { battery_level: Some(level), ..prev }),
        ],
{
    let d = DeviceView { battery_level: Some(level), ..prev };
    let i = choose|i: int| 0 <= i < scan.len() && scan[i] == d;
    assert(scan[i].id == d.id);
    let j = choose|j: int| 0 <= j < s.len() && s[j] == prev;
    lemma_position(s, d.id);
    lemma_diff_about_reported(s, scan, d);
}

/// A tracked device that a pass does not report yields exactly one
/// `Removed` event about its id, and the registry no longer tracks it.
pub proof fn law_absent_device_removed(s: Seq<DeviceView>, scan: Seq<DeviceView>, id: Seq<char>)
    requires
        ids_unique(s),
        id_set(s).contains(id),
        !id_set(scan).contains(id),
    ensures
        events_about(diff_events(s, scan), id) == seq![EventView::Removed(id)],
        !id_set(diff_store(s, scan)).contains(id),
{
    let d = DeviceView { id, ..s[0] };
    assert(reports_only(scan, d));
    lemma_upsert_all_about(s, scan, d);
    lemma_upsert_all(s, scan);
    let (t, e) = upsert_all(s, scan);
    lemma_lookup_some(s, id);
    lemma_lookup_some(t, id);
    lemma_removals_about(t, id_set(scan), id);
    lemma_events_about_concat(e, removals(t, id_set(scan)), id);
    assert(events_about(diff_events(s, scan), id) =~= seq![EventView::Removed(id)]);
    lemma_diff_store(s, scan);
}

/// Whether some device of the list has the given id.
fn list_has_id(list: &Vec<Device>, id: &String) -> (r: bool)
    ensures
        r == id_set(device_views(list@)).contains(id@),
{
    let ghost views = device_views(list@);
    let mut i: usize = 0;
    while i < list.len()
        invariant
            views == device_views(list@),
            i <= list@.len(),
            forall|k: int| 0 <= k < i ==> views[k].id != id@,
        decreases list@.len() - i,
    {
        if list[i].id == *id {
            assert(views[i as int].id == id@);
            return true;
        }
        i = i + 1;
    }
    false
}

/// Whether two optional battery levels are equal.
fn same_level(a: Option<u8>, b: Option<u8>) -> (r: bool)
    ensures
        r == (a == b),
{
    match (a, b) {
        (Some(x), Some(y)) => x == y,
        (None, None) => true,
        _ => false,
    }
}

/// The id-keyed store of tracked devices.
pub struct DeviceRegistry {
    devices: Vec<Device>,
}

impl View for DeviceRegistry {
    type V = Seq<DeviceView>;

    closed spec fn view(&self) -> Seq<DeviceView> {
        device_views(self.devices@)
    }
}

impl DeviceRegistry {
    /// Every tracked id occurs once.
    pub open spec fn wf(&self) -> bool {
        ids_unique(self@)
    }

    /// An empty registry.
    pub fn new() -> (r: DeviceRegistry)
        ensures
            r.wf(),
            r@ == Seq::<DeviceView>::empty(),
    {
        let r = DeviceRegistry { devices: Vec::new() };
        assert(r@ =~= Seq::<DeviceView>::empty());
        r
    }

    /// The number of tracked devices.
    pub fn len(&self) -> (r: usize)
        ensures
            r == self@.len(),
    {
        self.devices.len()
    }

    /// Where the device with the given id is stored.
    fn find(&self, id: &String) -> (r: Option<usize>)
        ensures
            match r {
                Some(i) => i == position_of(self@, id@),
                None => position_of(self@, id@) == -1,
            },
    {
        let ghost s = self@;
        let mut j: usize = self.devices.len();
        assert(s.subrange(0, j as int) =~= s);
        while j > 0
            invariant
                s == self@,
                j <= s.len(),
                position_of(s, id@) == position_of(s.subrange(0, j as int), id@),
            decreases j,
        {
            assert(s.subrange(0, j as int).drop_last() =~= s.subrange(0, j - 1));
            if self.devices[j - 1].id == *id {
                return Some(j - 1);
            }
            j = j - 1;
        }
        None
    }

    /// A copy of the stored record with the given id, if it is tracked.
    pub fn get(&self, id: &String) -> (r: Option<Device>)
        requires
            self.wf(),
        ensures
            r is Some <==> id_set(self@).contains(id@),
            r is Some ==> r->0@ == self@[position_of(self@, id@)],
    {
        proof {
            lemma_position(self@, id@);
        }
        match self.find(id) {
            Some(i) => Some(self.devices[i].clone()),
            None => None,
        }
    }

    /// A point-in-time copy of every tracked record.
    pub fn snapshot(&self) -> (r: Vec<Device>)
        ensures
            device_views(r@) == self@,
    {
        let mut out: Vec<Device> = Vec::new();
        let mut i: usize = 0;
        while i < self.devices.len()
            invariant
                i <= self@.len(),
                out@.len() == i,
                device_views(out@) == self@.subrange(0, i as int),
            decreases self@.len() - i,
        {
            let d = self.devices[i].clone();
            assert(d@ == self@[i as int]);
            out.push(d);
            i = i + 1;
            assert(device_views(out@) =~= self@.subrange(0, i as int));
        }
        assert(self@.subrange(0, i as int) =~= self@);
        out
    }

    /// Folds one incoming device into the store, appending its events.
    fn upsert_one(&mut self, device: Device, events: &mut Vec<DeviceEvent>)
        requires
            ids_unique(old(self)@),
        ensures
            ids_unique(final(self)@),
            final(self)@ == upsert(old(self)@, device@).0,
            event_views(final(events)@) == event_views(old(events)@) + upsert(
                old(self)@,
                device@,
            ).1,
    {
        let ghost s = self@;
        let ghost e0 = event_views(events@);
        proof {
            lemma_position(s, device@.id);
            lemma_upsert(s, device@);
        }
        match self.find(&device.id) {
            Some(i) => {
                if !self.devices[i].eq(&device) {
                    if !same_level(self.devices[i].battery_level, device.battery_level) {
                        match device.battery_level {
                            Some(level) => {
                                events.push(DeviceEvent::BatteryChanged(device.id.clone(), level));
                            },
                            None => {},
                        }
                    }
                    events.push(DeviceEvent::DeviceUpdated(device.clone()));
                    self.devices.set(i, device);
                    assert(self@ =~= s.update(i as int, device@));
                }
                assert(event_views(events@) =~= e0 + upsert(s, device@).1);
            },
            None => {
                events.push(DeviceEvent::DeviceAdded(device.clone()));
                self.devices.push(device);
                assert(self@ =~= s.push(device@));
                assert(event_views(events@) =~= e0 + upsert(s, device@).1);
            },
        }
    }

    /// Stores a record, replacing the one under the same id if there is one.
    pub fn put(&mut self, device: Device)
        requires
            old(self).wf(),
        ensures
            final(self).wf(),
            final(self)@ == upsert(old(self)@, device@).0,
    {
        let mut scratch: Vec<DeviceEvent> = Vec::new();
        self.upsert_one(device, &mut scratch);
    }

    /// Stops tracking the device with the given id and returns its record.
    pub fn remove(&mut self, id: &String) -> (r: Option<Device>)
        requires
            old(self).wf(),
        ensures
            final(self).wf(),
            r is Some <==> id_set(old(self)@).contains(id@),
            r is Some ==> r->0@ == old(self)@[position_of(old(self)@, id@)] && final(self)@
                == old(self)@.remove(position_of(old(self)@, id@)),
            r is None ==> final(self)@ == old(self)@,
    {
        let ghost s = self@;
        proof {
            lemma_position(s, id@);
        }
        match self.find(id) {
            Some(i) => {
                let d = self.devices.remove(i);
                assert(self@ =~= s.remove(i as int));
                assert forall|a: int, b: int|
                    0 <= a < self@.len() && 0 <= b < self@.len() && a != b implies self@[a].id
                    != self@[b].id by {
                    let a0 = if a < i {
                        a
                    } else {
                        a + 1
                    };
                    let b0 = if b < i {
                        b
                    } else {
                        b + 1
                    };
                    assert(self@[a] == s[a0] && self@[b] == s[b0]);
                }
                Some(d)
            },
            None => None,
        }
    }

    /// Reconciles the registry with one scan pass and returns the events, in
    /// emission order: per incoming device `Added`, or `BatteryChanged` then
    /// `Updated` for a changed record; then `Removed` for every tracked id the
    /// pass did not report. Afterwards the tracked ids are exactly the ids of
    /// the pass.
    pub fn diff(&mut self, new_devices: Vec<Device>) -> (events: Vec<DeviceEvent>)
        requires
            old(self).wf(),
        ensures
            final(self).wf(),
            final(self)@ == diff_store(old(self)@, device_views(new_devices@)),
            event_views(events@) == diff_events(old(self)@, device_views(new_devices@)),
    {
        let ghost s0 = self@;
        let ghost scan = device_views(new_devices@);
        let mut events: Vec<DeviceEvent> = Vec::new();
        let n = new_devices.len();
        let mut i: usize = 0;
        while i < n
            invariant
                n == new_devices@.len(),
                scan == device_views(new_devices@),
                ids_unique(s0),
                i <= n,
                ids_unique(self@),
                self@ == upsert_all(s0, scan.subrange(0, i as int)).0,
                event_views(events@) == upsert_all(s0, scan.subrange(0, i as int)).1,
            decreases n - i,
        {
            assert(scan.subrange(0, i + 1).drop_last() =~= scan.subrange(0, i as int));
            let d = new_devices[i].clone();
            self.upsert_one(d, &mut events);
            i = i + 1;
        }
        assert(scan.subrange(0, n as int) =~= scan);
        let ghost mid = self@;
        let ghost e_mid = event_views(events@);
        let mut kept: Vec<Device> = Vec::new();
        let m = self.devices.len();
        let mut k: usize = 0;
        while k < m
            invariant
                m == mid.len(),
                self@ == mid,
                k <= m,
                device_views(kept@) == retained(mid.subrange(0, k as int), id_set(scan)),
                event_views(events@) == e_mid + removals(mid.subrange(0, k as int), id_set(scan)),
                scan == device_views(new_devices@),
            decreases m - k,
        {
            assert(mid.subrange(0, k + 1).drop_last() =~= mid.subrange(0, k as int));
            let d = &self.devices[k];
            assert(mid[k as int] == d@);
            assert(mid.subrange(0, k + 1).last() == d@);
            if list_has_id(&new_devices, &d.id) {
                kept.push(d.clone());
                assert(device_views(kept@) =~= retained(mid.subrange(0, k + 1), id_set(scan)));
            } else {
                let ghost before = event_views(events@);
                events.push(DeviceEvent::DeviceRemoved(d.id.clone()));
                assert(event_views(events@) =~= before.push(EventView::Removed(d@.id)));
                assert(event_views(events@) =~= e_mid + removals(
                    mid.subrange(0, k + 1),
                    id_set(scan),
                ));
            }
            k = k + 1;
        }
        assert(mid.subrange(0, m as int) =~= mid);
        self.devices = kept;
        proof {
            lemma_diff_store(s0, scan);
        }
        events
    }
}

} // verus!
