//! The client's copy of a competition's event queue, kept ordered by message
//! id, and the filters that pick what a queue's screen shows.
use std::collections::HashMap;
use vstd::prelude::*;

use crate::proto::{EqHistoryMessage, EqHistoryModel, Message, MessageModel, VoteMessage};
use crate::replicate::Replicate;
use crate::text::{int_digits, push_i64};

verus! {

/// Replace a value, or drop it.
pub enum DropSetAction<T> {
    Replace(T),
    Drop,
}

/// A list of ids that a screen shows.
#[derive(Debug, Clone, Default, PartialEq)]
pub struct IdListContext(pub Vec<i32>);

impl IdListContext {
    /// The list after `action`: replaced by the new list, or emptied.
    pub fn reduce(self, action: DropSetAction<IdListContext>) -> (r: IdListContext)
        ensures
            r.0@ == (match action {
                DropSetAction::Replace(vals) => vals.0@,
                DropSetAction::Drop => Seq::<i32>::empty(),
            }),
    {
        match action {
            DropSetAction::Replace(vals) => {
                let mut newc = self;
                newc.0 = vals.0;
                newc
            },
            DropSetAction::Drop => {
                let mut newc = self;
                newc.0.clear();
                newc
            },
        }
    }
}

/// Changes to the client's event queue.
#[derive(Debug)]
pub enum EqmContextAction<T> {
    Replace(Vec<T>),
    Drop,
    Add(T),
    Connect(Vec<T>),
    Remove(i32),
}

/// The client's event queue, and per queue the votes it has seen.
#[derive(Clone, Debug, Default, PartialEq)]
pub struct EQMContext(pub Vec<EqHistoryMessage>, pub HashMap<i32, Vec<(String, Vec<(i32, VoteMessage)>)>>);

pub type History = Seq<EqHistoryModel>;

/// Ids strictly increase along the queue.
pub open spec fn sorted_ids(s: History) -> bool {
    forall|i: int, j: int|
        0 <= i < j < s.len() ==> (#[trigger] s[i]).message_id < (#[trigger] s[j]).message_id
}

pub open spec fn has_id(s: History, key: i32) -> bool {
    exists|j: int| 0 <= j < s.len() && (#[trigger] s[j]).message_id == key
}

/// Where a message with id `key` belongs: everything before has a smaller
/// id, everything from there on a larger one.
pub open spec fn gap_at(s: History, key: i32, i: int) -> bool {
    &&& 0 <= i <= s.len()
    &&& forall|j: int| 0 <= j < i ==> (#[trigger] s[j]).message_id < key
    &&& forall|j: int| i <= j < s.len() ==> (#[trigger] s[j]).message_id > key
}

/// `s` with `val` in its place: replacing the message with the same id, or
/// inserted where its id belongs.
pub open spec fn place(s: History, val: EqHistoryModel) -> History {
    if has_id(s, val.message_id) {
        let j = choose|j: int| 0 <= j < s.len() && (#[trigger] s[j]).message_id == val.message_id;
        s.update(j, val)
    } else {
        let i = choose|i: int| gap_at(s, val.message_id, i);
        s.insert(i, val)
    }
}

/// `s` with every message of `vals` put in its place, in order.
pub open spec fn place_all(s: History, vals: History) -> History
    decreases vals.len(),
{
    if vals.len() == 0 {
        s
    } else {
        place(place_all(s, vals.drop_last()), vals.last())
    }
}

pub proof fn lemma_gap_unique(s: History, key: i32, i: int, k: int)
    requires
        gap_at(s, key, i),
        gap_at(s, key, k),
    ensures
        i == k,
{
    if i < k {
        assert(s[i].message_id > key);
        assert(s[i].message_id < key);
    } else if k < i {
        assert(s[k].message_id > key);
        assert(s[k].message_id < key);
    }
}

/// A sorted queue without `key` has a place for it.
pub proof fn lemma_gap_exists(s: History, key: i32, g: int) -> (i: int)
    requires
        sorted_ids(s),
        !has_id(s, key),
        0 <= g <= s.len(),
        forall|j: int| 0 <= j < g ==> (#[trigger] s[j]).message_id < key,
    ensures
        gap_at(s, key, i),
    decreases s.len() - g,
{
    if g < s.len() && s[g].message_id < key {
        lemma_gap_exists(s, key, g + 1)
    } else {
        assert forall|j: int| g <= j < s.len() implies (#[trigger] s[j]).message_id > key by {
            if j > g {
                assert(s[g].message_id < s[j].message_id);
            }
            assert(s[j].message_id != key);
        }
        g
    }
}

pub proof fn lemma_place_sorted(s: History, val: EqHistoryModel)
    requires
        sorted_ids(s),
    ensures
        sorted_ids(place(s, val)),
        has_id(place(s, val), val.message_id),
        place(s, val).len() >= s.len(),
        forall|k: int| #![trigger s[k]] 0 <= k < s.len() ==> has_id(place(s, val), s[k].message_id),
{
    let key = val.message_id;
    let p = place(s, val);
    if has_id(s, key) {
        let j = choose|j: int| 0 <= j < s.len() && (#[trigger] s[j]).message_id == key;
        assert(p[j] == val);
        assert forall|k: int| #![trigger s[k]] 0 <= k < s.len() implies has_id(p, s[k].message_id) by {
            assert(p[k].message_id == s[k].message_id);
        }
    } else {
        let g = lemma_gap_exists(s, key, 0);
        assert(gap_at(s, key, g));
        let i = choose|i: int| gap_at(s, key, i);
        lemma_gap_unique(s, key, i, g);
        assert(p[i] == val);
        assert forall|k: int| #![trigger s[k]] 0 <= k < s.len() implies has_id(p, s[k].message_id) by {
            if k < i {
                assert(p[k] == s[k]);
            } else {
                assert(p[k + 1] == s[k]);
            }
        }
    }
}

pub proof fn lemma_place_all_sorted(s: History, vals: History)
    requires
        sorted_ids(s),
    ensures
        sorted_ids(place_all(s, vals)),
        forall|k: int| #![trigger vals[k]] 0 <= k < vals.len() ==> has_id(place_all(s, vals), vals[k].message_id),
        forall|k: int| #![trigger s[k]] 0 <= k < s.len() ==> has_id(place_all(s, vals), s[k].message_id),
    decreases vals.len(),
{
    if vals.len() > 0 {
        let rest = vals.drop_last();
        lemma_place_all_sorted(s, rest);
        let before = place_all(s, rest);
        lemma_place_sorted(before, vals.last());
        let after = place_all(s, vals);
        assert forall|k: int| #![trigger vals[k]] 0 <= k < vals.len() implies has_id(after, vals[k].message_id) by {
            if k < vals.len() - 1 {
                assert(rest[k] == vals[k]);
                assert(has_id(before, rest[k].message_id));
                let j = choose|j: int| 0 <= j < before.len() && (#[trigger] before[j]).message_id == rest[k].message_id;
                assert(has_id(after, before[j].message_id));
            }
        }
        assert forall|k: int| #![trigger s[k]] 0 <= k < s.len() implies has_id(after, s[k].message_id) by {
            let j = choose|j: int| 0 <= j < before.len() && (#[trigger] before[j]).message_id == s[k].message_id;
            assert(has_id(after, before[j].message_id));
        }
    }
}


/// `x` is the last message of `vals` with its id.
pub open spec fn last_of_id(vals: History, x: EqHistoryModel) -> bool {
    exists|j: int|
        0 <= j < vals.len() && vals[j] == x && forall|k: int| j < k < vals.len() ==> (#[trigger] vals[k]).message_id
            != x.message_id
}

/// `x` is one of the messages of `s`.
pub open spec fn holds(s: History, x: EqHistoryModel) -> bool {
    exists|j: int| 0 <= j < s.len() && s[j] == x
}

proof fn lemma_has_id_push(s: History, v: EqHistoryModel, id: i32)
    ensures
        has_id(s.push(v), id) <==> (has_id(s, id) || v.message_id == id),
{
    let t = s.push(v);
    if has_id(s, id) {
        let j = choose|j: int| 0 <= j < s.len() && (#[trigger] s[j]).message_id == id;
        assert(t[j] == s[j]);
    }
    if v.message_id == id {
        assert(t[s.len() as int] == v);
    }
    if has_id(t, id) {
        let j = choose|j: int| 0 <= j < t.len() && (#[trigger] t[j]).message_id == id;
        if j < s.len() {
            assert(t[j] == s[j]);
        }
    }
}

proof fn lemma_last_of_id_push(rest: History, v: EqHistoryModel, x: EqHistoryModel)
    requires
        last_of_id(rest, x),
        x.message_id != v.message_id,
    ensures
        last_of_id(rest.push(v), x),
{
    let vals = rest.push(v);
    let j = choose|j: int|
        0 <= j < rest.len() && rest[j] == x && forall|k: int| j < k < rest.len() ==> (#[trigger] rest[k]).message_id
            != x.message_id;
    assert(vals[j] == x);
    assert forall|k: int| j < k < vals.len() implies (#[trigger] vals[k]).message_id != x.message_id by {
        if k < rest.len() {
            assert(vals[k] == rest[k]);
        }
    }
}

/// What `place_all` keeps and what it takes, on a queue sorted by id.
pub open spec fn connected(s: History, vals: History, r: History) -> bool {
    &&& sorted_ids(r)
    &&& forall|id: i32| #[trigger] has_id(r, id) <==> (has_id(s, id) || has_id(vals, id))
    &&& forall|k: int|
        0 <= k < r.len() ==> (has_id(vals, (#[trigger] r[k]).message_id) ==> last_of_id(vals, r[k])) && (!has_id(
            vals,
            r[k].message_id,
        ) ==> holds(s, r[k]))
}

proof fn lemma_place_all_connected(s: History, vals: History)
    requires
        sorted_ids(s),
    ensures
        connected(s, vals, place_all(s, vals)),
    decreases vals.len(),
{
    lemma_place_all_sorted(s, vals);
    if vals.len() == 0 {
        assert forall|id: i32| #[trigger] has_id(s, id) <==> (has_id(s, id) || has_id(vals, id)) by {}
        assert forall|k: int| 0 <= k < s.len() implies !has_id(vals, (#[trigger] s[k]).message_id) && holds(s, s[k]) by {}
    } else {
        let rest = vals.drop_last();
        let v = vals.last();
        assert(vals =~= rest.push(v));
        lemma_place_all_connected(s, rest);
        let p = place_all(s, rest);
        let r = place_all(s, vals);
        assert(r == place(p, v));
        lemma_place_all_sorted(s, rest);
        assert forall|id: i32| has_id(vals, id) <==> (has_id(rest, id) || v.message_id == id) by {
            lemma_has_id_push(rest, v, id);
        }
        if has_id(p, v.message_id) {
            let j = choose|j: int| 0 <= j < p.len() && (#[trigger] p[j]).message_id == v.message_id;
            assert(r == p.update(j, v));
            assert forall|id: i32| #[trigger] has_id(r, id) <==> has_id(p, id) by {
                if has_id(r, id) {
                    let k = choose|k: int| 0 <= k < r.len() && (#[trigger] r[k]).message_id == id;
                    if k == j {
                        assert(p[j].message_id == id);
                    } else {
                        assert(p[k] == r[k]);
                    }
                }
                if has_id(p, id) {
                    let k = choose|k: int| 0 <= k < p.len() && (#[trigger] p[k]).message_id == id;
                    if k == j {
                        assert(r[j].message_id == id);
                    } else {
                        assert(r[k] == p[k]);
                    }
                }
            }
            assert forall|k: int|
                0 <= k < r.len() implies (has_id(vals, (#[trigger] r[k]).message_id) ==> last_of_id(vals, r[k])) && (
            !has_id(vals, r[k].message_id) ==> holds(s, r[k])) by {
                if k == j {
                    assert(vals[vals.len() - 1] == v);
                    assert(last_of_id(vals, r[k]));
                } else {
                    assert(r[k] == p[k]);
                    assert(p[k].message_id != p[j].message_id);
                    if has_id(rest, p[k].message_id) {
                        lemma_last_of_id_push(rest, v, p[k]);
                    }
                }
            }
        } else {
            let i = choose|i: int| gap_at(p, v.message_id, i);
            let g = lemma_gap_exists(p, v.message_id, 0);
            lemma_gap_unique(p, v.message_id, i, g);
            assert(r == p.insert(i, v));
            assert forall|id: i32| #[trigger] has_id(r, id) <==> (has_id(p, id) || v.message_id == id) by {
                if has_id(r, id) {
                    let k = choose|k: int| 0 <= k < r.len() && (#[trigger] r[k]).message_id == id;
                    if k < i {
                        assert(p[k] == r[k]);
                    } else if k > i {
                        assert(p[k - 1] == r[k]);
                    }
                }
                if has_id(p, id) {
                    let k = choose|k: int| 0 <= k < p.len() && (#[trigger] p[k]).message_id == id;
                    if k < i {
                        assert(r[k] == p[k]);
                    } else {
                        assert(r[k + 1] == p[k]);
                    }
                }
                if v.message_id == id {
                    assert(r[i] == v);
                }
            }
            assert forall|k: int|
                0 <= k < r.len() implies (has_id(vals, (#[trigger] r[k]).message_id) ==> last_of_id(vals, r[k])) && (
            !has_id(vals, r[k].message_id) ==> holds(s, r[k])) by {
                if k == i {
                    assert(vals[vals.len() - 1] == v);
                    assert(last_of_id(vals, r[k]));
                } else {
                    let pk = if k < i { k } else { k - 1 };
                    assert(r[k] == p[pk]);
                    if p[pk].message_id == v.message_id {
                        assert(has_id(p, v.message_id));
                    }
                    if has_id(rest, p[pk].message_id) {
                        lemma_last_of_id_push(rest, v, p[pk]);
                    }
                }
            }
        }
    }
}

/// Connecting a history to a client's event queue that is sorted by id
/// keeps it sorted; it then holds the ids it held and those of the history;
/// for an id of the history it holds the last message of the history with
/// that id, and any other message it holds was already in the queue.
pub proof fn law_connect_keeps_the_last_message_of_each_id(s: History, vals: History)
    requires
        sorted_ids(s),
    ensures
        connected(s, vals, place_all(s, vals)),
        forall|k: int|
            0 <= k < s.len() && !has_id(vals, (#[trigger] s[k]).message_id) ==> holds(place_all(s, vals), s[k]),
{
    lemma_place_all_connected(s, vals);
    let r = place_all(s, vals);
    assert forall|k: int| 0 <= k < s.len() && !has_id(vals, (#[trigger] s[k]).message_id) implies holds(r, s[k]) by {
        assert(has_id(s, s[k].message_id));
        assert(has_id(r, s[k].message_id));
        let j = choose|j: int| 0 <= j < r.len() && (#[trigger] r[j]).message_id == s[k].message_id;
        assert(holds(s, r[j]));
        let m = choose|m: int| 0 <= m < s.len() && s[m] == r[j];
        if m != k {
            if m < k {
                assert(s[m].message_id < s[k].message_id);
            } else {
                assert(s[k].message_id < s[m].message_id);
            }
        }
    }
}

/// Binary search by message id.
fn search_id(v: &Vec<EqHistoryMessage>, key: i32) -> (r: Result<usize, usize>)
    ensures
        match r {
            Ok(i) => i < v@.len() && v@[i as int].message_id == key,
            Err(i) => i <= v@.len() && (sorted_ids(v.deep_view()) ==> gap_at(v.deep_view(), key, i as int)),
        },
{
    let ghost s = v.deep_view();
    let mut lo: usize = 0;
    let mut hi: usize = v.len();
    while lo < hi
        invariant
            s == v.deep_view(),
            lo <= hi <= v@.len(),
            sorted_ids(s) ==> forall|j: int| 0 <= j < lo ==> (#[trigger] s[j]).message_id < key,
            sorted_ids(s) ==> forall|j: int| hi <= j < s.len() ==> (#[trigger] s[j]).message_id > key,
        decreases hi - lo,
    {
        let mid = lo + (hi - lo) / 2;
        let id = v[mid].message_id;
        assert(s[mid as int].message_id == id);
        if id == key {
            return Ok(mid);
        } else if id < key {
            proof {
                if sorted_ids(s) {
                    assert forall|j: int| 0 <= j < mid + 1 implies (#[trigger] s[j]).message_id < key by {
                        if j < mid {
                            assert(s[j].message_id < s[mid as int].message_id);
                        }
                    }
                }
            }
            lo = mid + 1;
        } else {
            proof {
                if sorted_ids(s) {
                    assert forall|j: int| mid <= j < s.len() implies (#[trigger] s[j]).message_id > key by {
                        if j > mid {
                            assert(s[mid as int].message_id < s[j].message_id);
                        }
                    }
                }
            }
            hi = mid;
        }
    }
    Err(lo)
}

/// Puts `val` in its place: replacing the message with the same id, or
/// inserted where its id belongs.
fn connect_one(v: &mut Vec<EqHistoryMessage>, val: EqHistoryMessage)
    ensures
        sorted_ids(old(v).deep_view()) ==> final(v).deep_view() == place(old(v).deep_view(), val.deep_view()),
        final(v).deep_view().len() >= old(v).deep_view().len(),
{
    let ghost s = v.deep_view();
    let ghost vd = val.deep_view();
    let key = val.message_id;
    match search_id(v, key) {
        Ok(i) => {
            v.set(i, val);
            proof {
                assert(v.deep_view() =~= s.update(i as int, vd));
                if sorted_ids(s) {
                    assert(s[i as int].message_id == key);
                    assert(has_id(s, key));
                    let j = choose|j: int| 0 <= j < s.len() && (#[trigger] s[j]).message_id == key;
                    if j != i {
                        if j < i {
                            assert(s[j].message_id < s[i as int].message_id);
                        } else {
                            assert(s[i as int].message_id < s[j].message_id);
                        }
                    }
                }
            }
        },
        Err(i) => {
            if v.len() <= i {
                v.push(val);
                proof {
                    assert(v.deep_view() =~= s.insert(i as int, vd));
                }
            } else {
                let interest = v[i].message_id;
                if interest < key {
                    v.insert(i + 1, val);
                    proof {
                        assert(v.deep_view() =~= s.insert(i + 1, vd));
                        if sorted_ids(s) {
                            assert(s[i as int].message_id == interest);
                        }
                    }
                } else {
                    v.insert(i, val);
                    proof {
                        assert(v.deep_view() =~= s.insert(i as int, vd));
                    }
                }
            }
            proof {
                if sorted_ids(s) {
                    assert(!has_id(s, key));
                    let k = choose|k: int| gap_at(s, key, k);
                    lemma_gap_unique(s, key, k, i as int);
                }
            }
        },
    }
}

/// The queue after `Add`: the message with the same id is replaced, or the
/// message goes to the end.
pub open spec fn add_result(s: History, val: EqHistoryModel, r: History) -> bool {
    &&& sorted_ids(s) && has_id(s, val.message_id) ==> r == place(s, val)
    &&& sorted_ids(s) && !has_id(s, val.message_id) ==> r == s.push(val)
    &&& (exists|j: int|
        0 <= j < s.len() && (#[trigger] s[j]).message_id == val.message_id && r == s.update(j, val))
        || r == s.push(val)
}

impl EQMContext {
    pub open spec fn history(&self) -> History {
        self.0.deep_view()
    }

    /// The queue after `action`. `Replace` replaces it, `Drop` empties it, `Add`
    /// replaces the message with the same id or appends, `Connect` puts each
    /// message in its place by id (on a queue sorted by id it stays sorted,
    /// holds the ids of both, the last message of the history for each of
    /// its ids, and every other message it held), `Remove` takes out the
    /// message at a position.
    pub fn reduce(self, action: EqmContextAction<EqHistoryMessage>) -> (r: EQMContext)
        requires
            action matches EqmContextAction::Remove(id) ==> 0 <= id < self.history().len(),
        ensures
            r.1 == self.1,
            match action {
                EqmContextAction::Replace(vals) => r.history() == vals.deep_view(),
                EqmContextAction::Drop => r.history().len() == 0,
                EqmContextAction::Add(val) => add_result(self.history(), val.deep_view(), r.history()),
                EqmContextAction::Connect(vals) => sorted_ids(self.history()) ==> {
                    &&& r.history() == place_all(self.history(), vals.deep_view())
                    &&& connected(self.history(), vals.deep_view(), r.history())
                    &&& forall|k: int|
                        0 <= k < self.history().len() && !has_id(vals.deep_view(), (#[trigger] self.history()[k]).message_id)
                            ==> holds(r.history(), self.history()[k])
                },
                EqmContextAction::Remove(id) => r.history() == self.history().remove(id as int),
            },
    {
        let mut newc = self;
        let ghost s = newc.history();
        match action {
            EqmContextAction::Replace(vals) => {
                newc.0 = vals;
            },
            EqmContextAction::Drop => {
                newc.0 = Vec::new();
            },
            EqmContextAction::Add(val) => {
                let ghost vd = val.deep_view();
                match search_id(&newc.0, val.message_id) {
                    Ok(i) => {
                        newc.0.set(i, val);
                        proof {
                            assert(newc.history() =~= s.update(i as int, vd));
                            if sorted_ids(s) {
                                assert(has_id(s, vd.message_id));
                                let j = choose|j: int| 0 <= j < s.len() && (#[trigger] s[j]).message_id == vd.message_id;
                                if j != i {
                                    if j < i {
                                        assert(s[j].message_id < s[i as int].message_id);
                                    } else {
                                        assert(s[i as int].message_id < s[j].message_id);
                                    }
                                }
                            }
                        }
                    },
                    Err(_) => {
                        newc.0.push(val);
                        proof {
                            assert(newc.history() =~= s.push(vd));
                            if sorted_ids(s) && has_id(s, vd.message_id) {
                                let j = choose|j: int| 0 <= j < s.len() && (#[trigger] s[j]).message_id == vd.message_id;
                                let i = choose|i: int| gap_at(s, vd.message_id, i) && i <= s.len();
                            }
                        }
                    },
                }
            },
            EqmContextAction::Remove(id) => {
                newc.0.remove(id as usize);
                assert(newc.history() =~= s.remove(id as int));
            },
            EqmContextAction::Connect(vals) => {
                let ghost vd = vals.deep_view();
                let mut k: usize = 0;
                assert(vd.subrange(0, 0) =~= Seq::<EqHistoryModel>::empty());
                while k < vals.len()
                    invariant
                        vd == vals.deep_view(),
                        k <= vd.len(),
                        newc.1 == self.1,
                        sorted_ids(s) ==> newc.history() == place_all(s, vd.subrange(0, k as int)),
                        sorted_ids(s) ==> sorted_ids(newc.history()),
                    decreases vd.len() - k,
                {
                    let ghost before = newc.history();
                    connect_one(&mut newc.0, vals[k].replicate());
                    proof {
                        let sub = vd.subrange(0, k + 1);
                        assert(sub.drop_last() =~= vd.subrange(0, k as int));
                        assert(sub.last() == vd[k as int]);
                        if sorted_ids(s) {
                            lemma_place_sorted(before, vd[k as int]);
                        }
                    }
                    k = k + 1;
                }
                assert(vd.subrange(0, k as int) =~= vd);
                proof {
                    if sorted_ids(s) {
                        law_connect_keeps_the_last_message_of_each_id(s, vd);
                    }
                }
            },
        }
        newc
    }
}

/// Whether a message concerns queue `qui`, given the ids of the earlier
/// messages that concern it.
pub open spec fn concerns(m: EqHistoryModel, qui: i32, interested: Set<i32>) -> bool {
    match m.message {
        Some(em) => match em.message {
            Some(MessageModel::FinesSetup(f)) => f.0 == qui,
            Some(MessageModel::VoteMessage(v)) => v.queue_id == qui,
            Some(MessageModel::VerifyMessage(v)) => interested.contains(v.target_message_id),
            Some(MessageModel::FixVoting(v)) => v.queue_id == qui,
            Some(MessageModel::TryNext(v)) => v.queue_id == qui,
            Some(MessageModel::Block(_)) => true,
            _ => false,
        },
        None => false,
    }
}

/// Messages of queue `qui`, in order, and the set of their ids.
pub open spec fn queue_filter(s: History, qui: i32) -> (History, Set<i32>)
    decreases s.len(),
{
    if s.len() == 0 {
        (Seq::empty(), Set::empty())
    } else {
        let (kept, ids) = queue_filter(s.drop_last(), qui);
        let m = s.last();
        if concerns(m, qui, ids) {
            (kept.push(m), ids.insert(m.message_id))
        } else {
            (kept, ids)
        }
    }
}

/// The screen of queue `qui` keeps every vote, fines setup, closing and move
/// of that queue and every block of the competition, and shows no vote,
/// fines setup, closing or move of another queue.
pub proof fn law_queue_screen_keeps_exactly_its_queue_messages(s: History, qui: i32)
    ensures
        forall|i: int|
            #![trigger s[i]]
            0 <= i < s.len() && (s[i].message matches Some(em) && (
                (em.message matches Some(MessageModel::VoteMessage(v)) && v.queue_id == qui)
                || (em.message matches Some(MessageModel::FixVoting(f)) && f.queue_id == qui)
                || (em.message matches Some(MessageModel::TryNext(t)) && t.queue_id == qui)
                || (em.message matches Some(MessageModel::FinesSetup(x)) && x.0 == qui)))
                ==> queue_filter(s, qui).0.contains(s[i]),
        forall|i: int|
            #![trigger s[i]]
            0 <= i < s.len() && (s[i].message matches Some(em) && em.message matches Some(MessageModel::Block(_)))
                ==> queue_filter(s, qui).0.contains(s[i]),
        forall|j: int|
            0 <= j < queue_filter(s, qui).0.len() ==> ((#[trigger] queue_filter(s, qui).0[j]).message matches Some(em)
                ==> {
                &&& em.message matches Some(MessageModel::VoteMessage(v)) ==> v.queue_id == qui
                &&& em.message matches Some(MessageModel::FixVoting(f)) ==> f.queue_id == qui
                &&& em.message matches Some(MessageModel::TryNext(t)) ==> t.queue_id == qui
                &&& em.message matches Some(MessageModel::FinesSetup(x)) ==> x.0 == qui
            }),
    decreases s.len(),
{
    if s.len() > 0 {
        let p = s.drop_last();
        law_queue_screen_keeps_exactly_its_queue_messages(p, qui);
        let (kept, ids) = queue_filter(p, qui);
        let r = queue_filter(s, qui).0;
        let m = s.last();
        assert forall|i: int|
            #![trigger s[i]]
            0 <= i < s.len() && (s[i].message matches Some(em) && (
                (em.message matches Some(MessageModel::VoteMessage(v)) && v.queue_id == qui)
                || (em.message matches Some(MessageModel::FixVoting(f)) && f.queue_id == qui)
                || (em.message matches Some(MessageModel::TryNext(t)) && t.queue_id == qui)
                || (em.message matches Some(MessageModel::FinesSetup(x)) && x.0 == qui)))
                implies r.contains(s[i]) by {
            if i < s.len() - 1 {
                assert(s[i] == p[i]);
                let k = choose|k: int| 0 <= k < kept.len() && kept[k] == p[i];
                if concerns(m, qui, ids) {
                    assert(r[k] == kept[k]);
                }
            } else {
                assert(concerns(m, qui, ids));
                assert(r[r.len() - 1] == m);
            }
        }
        assert forall|i: int|
            #![trigger s[i]]
            0 <= i < s.len() && (s[i].message matches Some(em) && em.message matches Some(MessageModel::Block(_)))
                implies r.contains(s[i]) by {
            if i < s.len() - 1 {
                assert(s[i] == p[i]);
                let k = choose|k: int| 0 <= k < kept.len() && kept[k] == p[i];
                if concerns(m, qui, ids) {
                    assert(r[k] == kept[k]);
                }
            } else {
                assert(concerns(m, qui, ids));
                assert(r[r.len() - 1] == m);
            }
        }
        assert forall|j: int| 0 <= j < r.len() implies ((#[trigger] r[j]).message matches Some(em) ==> {
                &&& em.message matches Some(MessageModel::VoteMessage(v)) ==> v.queue_id == qui
                &&& em.message matches Some(MessageModel::FixVoting(f)) ==> f.queue_id == qui
                &&& em.message matches Some(MessageModel::TryNext(t)) ==> t.queue_id == qui
                &&& em.message matches Some(MessageModel::FinesSetup(x)) ==> x.0 == qui
            }) by {
            if j < kept.len() {
                assert(r[j] == kept[j]);
            } else {
                assert(r[j] == m);
                assert(concerns(m, qui, ids));
            }
        }
    }
}

/// Whether a message sets or clears an active action, which the filter does
/// not handle.
pub open spec fn is_action_update(m: EqHistoryModel) -> bool {
    m.message matches Some(em) && (em.message matches Some(MessageModel::SetActiveAction(_))
        || em.message matches Some(MessageModel::ClearQueueAction(_)))
}

/// The messages of queue `qui`: its votes, fines, closings and moves, the
/// blocks of the competition, and the verdicts on messages already kept.
pub fn queue_context_filter(msg_ctx: &Vec<EqHistoryMessage>, qui: i32) -> (r: Vec<EqHistoryMessage>)
    requires
        forall|i: int| 0 <= i < msg_ctx@.len() ==> !is_action_update(#[trigger] msg_ctx.deep_view()[i]),
    ensures
        r.deep_view() == queue_filter(msg_ctx.deep_view(), qui).0,
{
    let ghost s = msg_ctx.deep_view();
    let mut interested: Vec<i32> = Vec::new();
    let mut out: Vec<EqHistoryMessage> = Vec::new();
    let mut k: usize = 0;
    assert(s.subrange(0, 0) =~= Seq::<EqHistoryModel>::empty());
    while k < msg_ctx.len()
        invariant
            s == msg_ctx.deep_view(),
            k <= s.len(),
            forall|i: int| 0 <= i < s.len() ==> !is_action_update(#[trigger] s[i]),
            out.deep_view() == queue_filter(s.subrange(0, k as int), qui).0,
            interested@.to_set() == queue_filter(s.subrange(0, k as int), qui).1,
        decreases s.len() - k,
    {
        let ghost pre = s.subrange(0, k as int);
        let ghost ids = queue_filter(pre, qui).1;
        let eqm = &msg_ctx[k];
        let ghost m = s[k as int];
        assert(m == eqm.deep_view());
        assert(!is_action_update(m));
        let keep = match &eqm.message {
            Some(hms) => match &hms.message {
                Some(Message::FinesSetup(x)) => qui == x.queue_id,
                Some(Message::VoteMessage(x)) => qui == x.queue_id,
                Some(Message::VerifyMessage(x)) => {
                    let c = crate::tokens::holds_id(&interested, x.target_message_id);
                    proof {
                        assert(interested@.contains(x.target_message_id) <==> interested@.to_set().contains(x.target_message_id));
                    }
                    c
                },
                Some(Message::FixVoting(x)) => qui == x.queue_id,
                Some(Message::TryNext(x)) => qui == x.queue_id,
                Some(Message::Block(_)) => true,
                Some(Message::SetActiveAction(_)) => false,
                Some(Message::ClearQueueAction(_)) => false,
                None => false,
            },
            None => false,
        };
        assert(keep == concerns(m, qui, ids));
        let ghost sub = s.subrange(0, k + 1);
        assert(sub.drop_last() =~= pre);
        assert(sub.last() == m);
        if keep {
            let ghost before = out.deep_view();
            let ghost oi = interested@;
            interested.push(eqm.message_id);
            out.push(eqm.replicate());
            assert(out.deep_view() =~= before.push(m));
            proof {
                oi.lemma_push_to_set_commute(m.message_id);
                assert(interested@ == oi.push(m.message_id));
            }
        }
        k = k + 1;
    }
    assert(s.subrange(0, k as int) =~= s);
    out
}

impl EqHistoryMessage {
    /// The id of the element that shows this message on a screen.
    pub fn generate_view_id(&self) -> (r: String)
        ensures
            r@ == "eqhmessage-view-"@ + int_digits(self.message_id as int),
    {
        let mut s: String = "eqhmessage-view-".to_owned();
        push_i64(&mut s, self.message_id as i64);
        s
    }
}

} // verus!
