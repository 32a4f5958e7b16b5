//! Incremental status updates for the switch and alarm parts of a snapshot.
//!
//! A stream of snapshots is turned into the individual changes between
//! consecutive ones ([`switch_changes`], [`alarms_changed`]), and a running
//! snapshot is maintained by folding changes back in ([`upsert_switch`]).
//! Switches are keyed by their id: a change carries the whole new switch.

use crate::text::{chars_eq, chars_of};
use crate::types::{Switch, SwitchId};
use vstd::prelude::*;

verus! {

/// The content of a switch.
pub struct SwitchView {
    pub id: Seq<char>,
    pub label: Option<Seq<char>>,
    pub on: bool,
}

impl View for Switch {
    type V = SwitchView;

    open spec fn view(&self) -> SwitchView {
        SwitchView {
            id: self.id@,
            label: match self.label {
                Some(l) => Some(l@),
                None => None,
            },
            on: self.on,
        }
    }
}

/// The contents of a list of switches.
pub open spec fn views(v: Seq<Switch>) -> Seq<SwitchView> {
    v.map_values(|s: Switch| s@)
}

/// The position of the first switch with id `id`.
pub open spec fn first_index(v: Seq<SwitchView>, id: Seq<char>) -> Option<int>
    decreases v.len(),
{
    if v.len() == 0 {
        None
    } else {
        match first_index(v.drop_last(), id) {
            Some(i) => Some(i),
            None => if v.last().id == id {
                Some(v.len() - 1)
            } else {
                None
            },
        }
    }
}

/// A switch is unchanged when the previous snapshot's first switch with its
/// id is identical to it.
pub open spec fn unchanged(prev: Option<Seq<SwitchView>>, s: SwitchView) -> bool {
    match prev {
        Some(p) => match first_index(p, s.id) {
            Some(i) => p[i] == s,
            None => false,
        },
        None => false,
    }
}

/// The switch updates that turn `prev` into `new`: every switch of `new` that
/// is not unchanged, in `new`'s order. With no previous snapshot, all of them.
pub open spec fn switch_diff(new: Seq<SwitchView>, prev: Option<Seq<SwitchView>>) -> Seq<SwitchView>
    decreases new.len(),
{
    if new.len() == 0 {
        Seq::empty()
    } else {
        let r = switch_diff(new.drop_last(), prev);
        if unchanged(prev, new.last()) {
            r
        } else {
            r.push(new.last())
        }
    }
}

/// Fold one switch update into a list: it replaces the first switch with its
/// id, or is appended when there is none.
pub open spec fn upsert(v: Seq<SwitchView>, s: SwitchView) -> Seq<SwitchView> {
    match first_index(v, s.id) {
        Some(i) => v.update(i, s),
        None => v.push(s),
    }
}

/// Fold a sequence of switch updates, in order.
pub open spec fn apply_all(v: Seq<SwitchView>, us: Seq<SwitchView>) -> Seq<SwitchView>
    decreases us.len(),
{
    if us.len() == 0 {
        v
    } else {
        upsert(apply_all(v, us.drop_last()), us.last())
    }
}

/// No two switches share an id.
pub open spec fn distinct_ids(v: Seq<SwitchView>) -> bool {
    forall|i: int, j: int| 0 <= i < j < v.len() ==> #[trigger] v[i].id != #[trigger] v[j].id
}

/// A list of switches with distinct ids, as a map from id to switch.
pub open spec fn by_id(v: Seq<SwitchView>) -> Map<Seq<char>, SwitchView>
    decreases v.len(),
{
    if v.len() == 0 {
        Map::empty()
    } else {
        by_id(v.drop_last()).insert(v.last().id, v.last())
    }
}

fn same_label(a: &Option<String>, b: &Option<String>) -> (r: bool)
    ensures
        r == (match (a, b) {
            (Some(x), Some(y)) => x@ == y@,
            (None, None) => true,
            _ => false,
        }),
{
    match (a, b) {
        (Some(x), Some(y)) => {
            let xc = chars_of(x.as_str());
            let yc = chars_of(y.as_str());
            chars_eq(xc.as_slice(), yc.as_slice())
        },
        (None, None) => true,
        _ => false,
    }
}

/// Whether two switches are identical.
fn same_switch(a: &Switch, b: &Switch) -> (r: bool)
    ensures
        r == (a@ == b@),
{
    let ac = chars_of(a.id.as_str());
    let bc = chars_of(b.id.as_str());
    let r = chars_eq(ac.as_slice(), bc.as_slice()) && same_label(&a.label, &b.label) && a.on
        == b.on;
    proof {
        if r {
            assert(a@.label == b@.label);
        }
    }
    r
}

/// A switch with the same content.
pub fn copy_switch(s: &Switch) -> (c: Switch)
    ensures
        c@ == s@,
{
    let label = match &s.label {
        Some(l) => Some(l.clone()),
        None => None,
    };
    Switch { id: s.id.clone(), label, on: s.on }
}

/// The first position of a switch with the given id.
fn find_switch(v: &[Switch], id: &[char]) -> (r: Option<usize>)
    ensures
        match r {
            Some(i) => i < v@.len() && first_index(views(v@), id@) == Some(i as int),
            None => first_index(views(v@), id@) is None,
        },
{
    let mut i: usize = 0;
    while i < v.len()
        invariant
            i <= v@.len(),
            first_index(views(v@).subrange(0, i as int), id@) is None,
        decreases v@.len() - i,
    {
        let ghost pre = views(v@).subrange(0, i as int);
        assert(views(v@).subrange(0, i + 1).drop_last() == pre);
        let c = chars_of(v[i].id.as_str());
        if chars_eq(c.as_slice(), id) {
            assert(first_index(views(v@).subrange(0, i + 1), id@) == Some(i as int));
            proof {
                lemma_first_index_prefix(views(v@), id@, i + 1);
            }
            return Some(i);
        }
        i = i + 1;
    }
    assert(views(v@).subrange(0, v@.len() as int) == views(v@));
    None
}

/// The state of the first switch with id `id`, if any.
pub fn switch_state(switches: &[Switch], id: &str) -> (r: Option<bool>)
    ensures
        r == (match first_index(views(switches@), id@) {
            Some(i) => Some(switches@[i].on),
            None => None,
        }),
{
    let target = chars_of(id);
    match find_switch(switches, target.as_slice()) {
        Some(i) => Some(switches[i].on),
        None => None,
    }
}

proof fn lemma_first_index_prefix(v: Seq<SwitchView>, id: Seq<char>, n: int)
    requires
        0 <= n <= v.len(),
        first_index(v.subrange(0, n), id) is Some,
    ensures
        first_index(v, id) == first_index(v.subrange(0, n), id),
    decreases v.len() - n,
{
    if n < v.len() {
        assert(v.subrange(0, n + 1).drop_last() == v.subrange(0, n));
        lemma_first_index_prefix(v, id, n + 1);
    } else {
        assert(v.subrange(0, n) == v);
    }
}

/// The switches of `new` that changed since `prev` (all of them when there
/// is no previous snapshot), in order.
pub fn switch_changes(new: &[Switch], prev: Option<&[Switch]>) -> (out: Vec<Switch>)
    ensures
        views(out@) == switch_diff(
            views(new@),
            match prev {
                Some(p) => Some(views(p@)),
                None => None,
            },
        ),
{
    let ghost pv: Option<Seq<SwitchView>> = match prev {
        Some(p) => Some(views(p@)),
        None => None,
    };
    let mut out: Vec<Switch> = Vec::new();
    let mut i: usize = 0;
    while i < new.len()
        invariant
            i <= new@.len(),
            pv == (match prev {
                Some(p) => Some(views(p@)),
                None => None,
            }),
            views(out@) == switch_diff(views(new@).subrange(0, i as int), pv),
        decreases new@.len() - i,
    {
        let s = &new[i];
        let ghost pre = views(new@).subrange(0, i as int);
        assert(views(new@).subrange(0, i + 1).drop_last() == pre);
        assert(views(new@).subrange(0, i + 1).last() == s@);
        let same = match prev {
            Some(p) => {
                let idc = chars_of(s.id.as_str());
                match find_switch(p, idc.as_slice()) {
                    Some(k) => same_switch(&p[k], s),
                    None => false,
                }
            },
            None => false,
        };
        assert(same == unchanged(pv, s@));
        if !same {
            let ghost before = out@;
            out.push(copy_switch(s));
            assert(views(out@) == views(before).push(s@));
        }
        i = i + 1;
    }
    assert(views(new@).subrange(0, new@.len() as int) == views(new@));
    out
}


/// Fold one switch update into a running list of switches.
pub fn upsert_switch(v: &mut Vec<Switch>, s: &Switch)
    ensures
        views(final(v)@) == upsert(views(old(v)@), s@),
{
    let idc = chars_of(s.id.as_str());
    match find_switch(v.as_slice(), idc.as_slice()) {
        Some(i) => {
            let ghost before = v@;
            v.set(i, copy_switch(s));
            assert(views(v@) == views(before).update(i as int, s@));
        },
        None => {
            let ghost before = v@;
            v.push(copy_switch(s));
            assert(views(v@) == views(before).push(s@));
        },
    }
}

/// Whether the alarm list changed: against a previous snapshot, any
/// difference; on the first snapshot, a non-empty list.
pub open spec fn alarms_differ(new: Seq<Seq<char>>, prev: Option<Seq<Seq<char>>>) -> bool {
    match prev {
        Some(p) => p != new,
        None => new.len() > 0,
    }
}

/// The texts of a list of strings.
pub open spec fn texts(v: Seq<String>) -> Seq<Seq<char>> {
    v.map_values(|s: String| s@)
}

/// Whether the alarm list changed since the previous snapshot.
pub fn alarms_changed(new: &[String], prev: Option<&[String]>) -> (r: bool)
    ensures
        r == alarms_differ(
            texts(new@),
            match prev {
                Some(p) => Some(texts(p@)),
                None => None,
            },
        ),
{
    match prev {
        None => new.len() > 0,
        Some(p) => {
            if p.len() != new.len() {
                assert(texts(p@).len() != texts(new@).len());
                return true;
            }
            let mut i: usize = 0;
            while i < p.len()
                invariant
                    prev == Some(p),
                    p@.len() == new@.len(),
                    i <= p@.len(),
                    forall|j: int| 0 <= j < i ==> texts(p@)[j] == texts(new@)[j],
                decreases p@.len() - i,
            {
                let a = chars_of(p[i].as_str());
                let b = chars_of(new[i].as_str());
                if !chars_eq(a.as_slice(), b.as_slice()) {
                    assert(texts(p@)[i as int] != texts(new@)[i as int]);
                    assert(texts(p@) != texts(new@));
                    return true;
                }
                i = i + 1;
            }
            assert(texts(p@) == texts(new@));
            false
        },
    }
}

/// The switch a standard [`SwitchId`] names, with its id and label.
pub fn standard_switch(id: SwitchId, on: bool) -> (s: Switch)
    ensures
        s.id@ == crate::types::switch_id(id),
        s.label matches Some(l) && l@ == crate::types::switch_label(id),
        s.on == on,
{
    Switch { id: id.id().to_string(), label: Some(id.label().to_string()), on }
}

// --- Laws --------------------------------------------------------------------

proof fn lemma_first_index_found(v: Seq<SwitchView>, id: Seq<char>)
    ensures
        match first_index(v, id) {
            Some(i) => 0 <= i < v.len() && v[i].id == id && forall|j: int|
                0 <= j < i ==> #[trigger] v[j].id != id,
            None => forall|j: int| 0 <= j < v.len() ==> #[trigger] v[j].id != id,
        },
    decreases v.len(),
{
    if v.len() > 0 {
        lemma_first_index_found(v.drop_last(), id);
        match first_index(v.drop_last(), id) {
            Some(i) => {
                assert forall|j: int| 0 <= j < i implies #[trigger] v[j].id != id by {
                    assert(v.drop_last()[j] == v[j]);
                }
            },
            None => {
                assert forall|j: int| 0 <= j < v.len() - 1 implies #[trigger] v[j].id != id by {
                    assert(v.drop_last()[j] == v[j]);
                }
            },
        }
    }
}

proof fn lemma_by_id_domain(v: Seq<SwitchView>, k: Seq<char>)
    requires
        distinct_ids(v),
    ensures
        by_id(v).contains_key(k) <==> first_index(v, k) is Some,
        first_index(v, k) matches Some(i) ==> by_id(v)[k] == v[i],
    decreases v.len(),
{
    lemma_first_index_found(v, k);
    if v.len() > 0 {
        let d = v.drop_last();
        assert(distinct_ids(d)) by {
            assert forall|i: int, j: int| 0 <= i < j < d.len() implies #[trigger] d[i].id
                != #[trigger] d[j].id by {
                assert(d[i] == v[i] && d[j] == v[j]);
            }
        }
        lemma_by_id_domain(d, k);
        lemma_first_index_found(d, k);
        if v.last().id == k {
            match first_index(d, k) {
                Some(i) => {
                    assert(v[i].id == v[v.len() - 1].id);
                },
                None => {},
            }
        }
    }
}

proof fn lemma_upsert_map(v: Seq<SwitchView>, s: SwitchView)
    requires
        distinct_ids(v),
    ensures
        distinct_ids(upsert(v, s)),
        by_id(upsert(v, s)) == by_id(v).insert(s.id, s),
{
    lemma_first_index_found(v, s.id);
    let u = upsert(v, s);
    assert(distinct_ids(u)) by {
        assert forall|i: int, j: int| 0 <= i < j < u.len() implies #[trigger] u[i].id
            != #[trigger] u[j].id by {
            match first_index(v, s.id) {
                Some(k) => {
                    if i == k {
                        assert(v[j].id != v[k].id);
                    } else if j == k {
                        assert(v[i].id != v[k].id);
                    }
                },
                None => {
                    if j == v.len() {
                        assert(v[i].id != s.id);
                    }
                },
            }
        }
    }
    assert forall|k: Seq<char>| #[trigger] by_id(u).contains_key(k) == by_id(v).insert(
        s.id,
        s,
    ).contains_key(k) && (by_id(u).contains_key(k) ==> by_id(u)[k] == by_id(v).insert(
        s.id,
        s,
    )[k]) by {
        lemma_by_id_domain(u, k);
        lemma_by_id_domain(v, k);
        lemma_first_index_found(u, k);
        lemma_first_index_found(v, k);
        if k != s.id {
            match first_index(v, s.id) {
                Some(m) => {
                    match first_index(v, k) {
                        Some(i) => {
                            assert(u[i] == v[i]);
                            if first_index(u, k) != Some(i) {
                                let w = first_index(u, k).unwrap();
                                assert(u[w].id == k);
                                if w < i {
                                    assert(u[w] == v[w]);
                                }
                            }
                        },
                        None => {
                            if first_index(u, k) is Some {
                                let w = first_index(u, k).unwrap();
                                assert(u[w].id == k);
                                assert(u[w] == v[w]);
                            }
                        },
                    }
                },
                None => {
                    match first_index(v, k) {
                        Some(i) => {
                            assert(u[i] == v[i]);
                            if first_index(u, k) != Some(i) {
                                let w = first_index(u, k).unwrap();
                                assert(u[w].id == k);
                                if w < i {
                                    assert(u[w] == v[w]);
                                }
                            }
                        },
                        None => {
                            if first_index(u, k) is Some {
                                let w = first_index(u, k).unwrap();
                                assert(u[w].id == k);
                                if w < v.len() {
                                    assert(u[w] == v[w]);
                                }
                            }
                        },
                    }
                },
            }
        } else {
            match first_index(v, s.id) {
                Some(m) => {
                    assert(u[m] == s);
                    if first_index(u, k) != Some(m) {
                        let w = first_index(u, k).unwrap();
                        if w < m {
                            assert(u[w] == v[w]);
                        }
                    }
                },
                None => {
                    assert(u[v.len() as int] == s);
                    if first_index(u, k) != Some(v.len() as int) {
                        let w = first_index(u, k).unwrap();
                        assert(u[w] == v[w]);
                    }
                },
            }
        }
    }
    assert(by_id(u) =~= by_id(v).insert(s.id, s));
}

proof fn lemma_apply_all_map(v: Seq<SwitchView>, us: Seq<SwitchView>)
    requires
        distinct_ids(v),
    ensures
        distinct_ids(apply_all(v, us)),
        by_id(apply_all(v, us)) == by_id(v).union_prefer_right(by_id_all(us)),
    decreases us.len(),
{
    if us.len() > 0 {
        lemma_apply_all_map(v, us.drop_last());
        lemma_upsert_map(apply_all(v, us.drop_last()), us.last());
        assert(by_id(v).union_prefer_right(by_id_all(us)) =~= by_id(v).union_prefer_right(
            by_id_all(us.drop_last()),
        ).insert(us.last().id, us.last()));
    } else {
        assert(by_id(v).union_prefer_right(by_id_all(us)) =~= by_id(v));
    }
}

/// A list of updates as a map from id to its last update.
pub open spec fn by_id_all(us: Seq<SwitchView>) -> Map<Seq<char>, SwitchView>
    decreases us.len(),
{
    if us.len() == 0 {
        Map::empty()
    } else {
        by_id_all(us.drop_last()).insert(us.last().id, us.last())
    }
}

proof fn lemma_diff_covers(new: Seq<SwitchView>, prev: Seq<SwitchView>)
    requires
        distinct_ids(new),
        distinct_ids(prev),
    ensures
        by_id(prev).union_prefer_right(by_id_all(switch_diff(new, Some(prev))))
            == by_id(prev).union_prefer_right(by_id_all(new)),
    decreases new.len(),
{
    if new.len() > 0 {
        let d = new.drop_last();
        assert(distinct_ids(d)) by {
            assert forall|i: int, j: int| 0 <= i < j < d.len() implies #[trigger] d[i].id
                != #[trigger] d[j].id by {
                assert(d[i] == new[i] && d[j] == new[j]);
            }
        }
        lemma_diff_covers(d, prev);
        let s = new.last();
        if unchanged(Some(prev), s) {
            let i = first_index(prev, s.id).unwrap();
            lemma_by_id_domain(prev, s.id);
            lemma_diff_ids_subset(d, prev, s.id);
            lemma_by_id_all_absent(d, s.id);
            assert(by_id(prev).union_prefer_right(by_id_all(new)) =~= by_id(prev).union_prefer_right(
                by_id_all(d),
            ).insert(s.id, s));
            assert(by_id(prev).union_prefer_right(by_id_all(d)).insert(s.id, s)
                =~= by_id(prev).union_prefer_right(by_id_all(d)));
        } else {
            let sd = switch_diff(d, Some(prev));
            assert(switch_diff(new, Some(prev)) == sd.push(s));
            assert(sd.push(s).drop_last() == sd);
            assert(by_id(prev).union_prefer_right(by_id_all(switch_diff(new, Some(prev))))
                =~= by_id(prev).union_prefer_right(by_id_all(switch_diff(d, Some(prev)))).insert(
                s.id,
                s,
            ));
            assert(by_id(prev).union_prefer_right(by_id_all(new)) =~= by_id(prev).union_prefer_right(
                by_id_all(d),
            ).insert(s.id, s));
        }
    }
}

proof fn lemma_by_id_all_absent(us: Seq<SwitchView>, k: Seq<char>)
    requires
        forall|i: int| 0 <= i < us.len() ==> #[trigger] us[i].id != k,
    ensures
        !by_id_all(us).contains_key(k),
    decreases us.len(),
{
    if us.len() > 0 {
        lemma_by_id_all_absent(us.drop_last(), k);
    }
}

proof fn lemma_diff_ids_subset(new: Seq<SwitchView>, prev: Seq<SwitchView>, k: Seq<char>)
    requires
        forall|i: int| 0 <= i < new.len() ==> #[trigger] new[i].id != k,
    ensures
        forall|i: int|
            0 <= i < switch_diff(new, Some(prev)).len() ==> #[trigger] switch_diff(
                new,
                Some(prev),
            )[i].id != k,
    decreases new.len(),
{
    if new.len() > 0 {
        lemma_diff_ids_subset(new.drop_last(), prev, k);
    }
}

/// Folding the switch updates between two snapshots into the earlier one
/// gives, id by id, the switches of the later one; switches the later
/// snapshot no longer lists keep their earlier state. With no earlier
/// snapshot, the updates rebuild the later snapshot's switches.
pub proof fn lemma_switch_updates_restore(new: Seq<SwitchView>, prev: Option<Seq<SwitchView>>)
    requires
        distinct_ids(new),
        prev matches Some(p) ==> distinct_ids(p),
    ensures
        by_id(
            apply_all(
                match prev {
                    Some(p) => p,
                    None => Seq::empty(),
                },
                switch_diff(new, prev),
            ),
        ) == (match prev {
            Some(p) => by_id(p).union_prefer_right(by_id(new)),
            None => by_id(new),
        }),
{
    lemma_by_id_all_same(new);
    match prev {
        Some(p) => {
            lemma_apply_all_map(p, switch_diff(new, prev));
            lemma_diff_covers(new, p);
        },
        None => {
            lemma_diff_none(new);
            lemma_apply_all_map(Seq::empty(), new);
            assert(by_id(Seq::<SwitchView>::empty()).union_prefer_right(by_id_all(new))
                =~= by_id_all(new));
        },
    }
}

proof fn lemma_first_index_absent(v: Seq<SwitchView>, id: Seq<char>)
    requires
        forall|i: int| 0 <= i < v.len() ==> #[trigger] v[i].id != id,
    ensures
        first_index(v, id) is None,
    decreases v.len(),
{
    if v.len() > 0 {
        lemma_first_index_absent(v.drop_last(), id);
    }
}

proof fn lemma_rebuild_in_order(new: Seq<SwitchView>)
    requires
        distinct_ids(new),
    ensures
        apply_all(Seq::empty(), new) == new,
    decreases new.len(),
{
    if new.len() > 0 {
        let d = new.drop_last();
        assert(distinct_ids(d)) by {
            assert forall|i: int, j: int| 0 <= i < j < d.len() implies #[trigger] d[i].id
                != #[trigger] d[j].id by {
                assert(d[i] == new[i] && d[j] == new[j]);
            }
        }
        lemma_rebuild_in_order(d);
        assert forall|i: int| 0 <= i < d.len() implies #[trigger] d[i].id != new.last().id by {
            assert(d[i] == new[i]);
        }
        lemma_first_index_absent(d, new.last().id);
        assert(d.push(new.last()) == new);
    }
}

/// With no earlier snapshot, folding the updates into an empty list rebuilds
/// the new snapshot's switches exactly, in their order.
pub proof fn lemma_switch_updates_rebuild(new: Seq<SwitchView>)
    requires
        distinct_ids(new),
    ensures
        apply_all(Seq::empty(), switch_diff(new, None)) == new,
{
    lemma_diff_none(new);
    lemma_rebuild_in_order(new);
}

proof fn lemma_by_id_all_same(v: Seq<SwitchView>)
    ensures
        by_id_all(v) == by_id(v),
    decreases v.len(),
{
    if v.len() > 0 {
        lemma_by_id_all_same(v.drop_last());
    }
}

proof fn lemma_diff_none(new: Seq<SwitchView>)
    ensures
        switch_diff(new, None) == new,
    decreases new.len(),
{
    if new.len() > 0 {
        lemma_diff_none(new.drop_last());
        assert(new.drop_last().push(new.last()) == new);
    }
}

/// An alarm update carries the whole new list, so applying it leaves exactly
/// the new alarms; when no update is emitted the lists were already equal
/// (or, on the first snapshot, the new list is empty).
pub proof fn lemma_alarm_updates_restore(new: Seq<Seq<char>>, prev: Option<Seq<Seq<char>>>)
    ensures
        !alarms_differ(new, prev) ==> match prev {
            Some(p) => p == new,
            None => new.len() == 0,
        },
{
}

} // verus!
