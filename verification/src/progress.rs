//! The per-day progress of one habit: a list of `(day number, value)` entries kept
//! in strictly ascending order of day, so that no day occurs twice and walking the
//! list visits the days from the earliest to the latest.

use vstd::prelude::*;
use crate::bits::wrap;
use crate::day::{valid_day_number, Day};

verus! {

/// The mathematical model of a progress log.
pub type Entries = Seq<(int, i32)>;

/// Days strictly ascend along `s`, and each is a representable day.
pub open spec fn well_formed(s: Entries) -> bool {
    &&& forall|i: int, j: int| 0 <= i < j < s.len() ==> s[i].0 < s[j].0
    &&& forall|i: int| 0 <= i < s.len() ==> valid_day_number(#[trigger] s[i].0)
}

/// Whether `s` has an entry for `day`.
pub open spec fn recorded(s: Entries, day: int) -> bool {
    exists|i: int| 0 <= i < s.len() && #[trigger] s[i].0 == day
}

/// The value that `s` holds for `day`; a day without an entry counts as 0.
pub open spec fn value_on(s: Entries, day: int) -> i32 {
    if recorded(s, day) {
        s[choose|i: int| 0 <= i < s.len() && #[trigger] s[i].0 == day].1
    } else {
        0
    }
}

/// Whether `p` is where an entry for `day` stands in `s`, or would have to be
/// inserted: everything before it is earlier, everything from it on is not.
pub open spec fn is_position(s: Entries, day: int, p: int) -> bool {
    &&& 0 <= p <= s.len()
    &&& forall|i: int| 0 <= i < p ==> (#[trigger] s[i]).0 < day
    &&& forall|i: int| p <= i < s.len() ==> (#[trigger] s[i]).0 >= day
}

/// The position of `day` in `s`.
pub open spec fn position(s: Entries, day: int) -> int {
    choose|p: int| is_position(s, day, p)
}

/// `s` with the value for `day` set to `value`: the entry is replaced where there
/// is one and inserted in order where there is none.
pub open spec fn put(s: Entries, day: int, value: i32) -> Entries {
    let p = position(s, day);
    if p < s.len() && s[p].0 == day {
        s.update(p, (day, value))
    } else {
        s.insert(p, (day, value))
    }
}

/// `s` after `delta` was added to the value for `day`, wrapping around at 32 bits.
pub open spec fn added(s: Entries, day: int, delta: i32) -> Entries {
    put(s, day, wrap(value_on(s, day) + delta))
}

/// `s` with an entry for `day`: one with value 0 is created where there is none.
pub open spec fn touched(s: Entries, day: int) -> Entries {
    put(s, day, value_on(s, day))
}

/// In a well-formed log a position is unique.
pub proof fn lemma_position_unique(s: Entries, day: int, p: int)
    requires
        well_formed(s),
        is_position(s, day, p),
    ensures
        position(s, day) == p,
{
    let q = position(s, day);
    assert(is_position(s, day, q));
    if q < p {
        assert(s[q].0 < day);
    }
    if p < q {
        assert(s[p].0 < day);
    }
}

/// Every day has a position in a well-formed log.
pub proof fn lemma_position_exists(s: Entries, day: int)
    requires
        well_formed(s),
    ensures
        is_position(s, day, position(s, day)),
    decreases s.len(),
{
    if s.len() == 0 {
        assert(is_position(s, day, 0));
    } else if s.last().0 < day {
        assert(is_position(s, day, s.len() as int));
    } else {
        let t = s.drop_last();
        lemma_position_exists(t, day);
        let p = position(t, day);
        assert forall|i: int| 0 <= i < p implies (#[trigger] s[i]).0 < day by {
            assert(s[i] == t[i]);
        }
        assert forall|i: int| p <= i < s.len() implies (#[trigger] s[i]).0 >= day by {
            if i < t.len() {
                assert(s[i] == t[i]);
            }
        }
        assert(is_position(s, day, p));
    }
}

/// The value for the day of the entry at index `i` is that entry's value.
pub proof fn lemma_value_at(s: Entries, i: int)
    requires
        well_formed(s),
        0 <= i < s.len(),
    ensures
        recorded(s, s[i].0),
        value_on(s, s[i].0) == s[i].1,
{
    let day = s[i].0;
    assert(recorded(s, day));
    let k = choose|k: int| 0 <= k < s.len() && #[trigger] s[k].0 == day;
    if k < i {
        assert(s[k].0 < s[i].0);
    }
    if i < k {
        assert(s[i].0 < s[k].0);
    }
}

/// What `put` does, seen as a map from days to values: the log stays well formed,
/// `day` gets `value`, and every other day keeps what it had.
pub proof fn lemma_put(s: Entries, day: int, value: i32)
    requires
        well_formed(s),
        valid_day_number(day),
    ensures
        well_formed(put(s, day, value)),
        recorded(put(s, day, value), day),
        value_on(put(s, day, value), day) == value,
        forall|other: int|
            other != day ==> recorded(put(s, day, value), other) == recorded(s, other),
        forall|other: int|
            other != day ==> value_on(put(s, day, value), other) == value_on(s, other),
        put(s, day, value).len() == if recorded(s, day) { s.len() } else { s.len() + 1 },
{
    lemma_position_exists(s, day);
    let p = position(s, day);
    let t = put(s, day, value);
    if p < s.len() && s[p].0 == day {
        assert(recorded(s, day));
        assert(t[p].0 == day);
        assert(well_formed(t));
        lemma_value_at(t, p);
        assert forall|other: int| other != day implies recorded(t, other) == recorded(s, other)
            && value_on(t, other) == value_on(s, other) by {
            if recorded(s, other) {
                let k = choose|k: int| 0 <= k < s.len() && #[trigger] s[k].0 == other;
                assert(t[k] == s[k]);
                assert(t[k].0 == other);
                lemma_value_at(t, k);
                lemma_value_at(s, k);
            }
            if recorded(t, other) {
                let k = choose|k: int| 0 <= k < t.len() && #[trigger] t[k].0 == other;
                assert(t[k] == s[k]);
                assert(s[k].0 == other);
                lemma_value_at(t, k);
                lemma_value_at(s, k);
            }
        }
    } else {
        if recorded(s, day) {
            let k = choose|k: int| 0 <= k < s.len() && #[trigger] s[k].0 == day;
            if k < p {
                assert(s[k].0 < day);
            } else {
                assert(s[k].0 >= day);
                assert(s[p].0 >= day);
                if p < k {
                    assert(s[p].0 < s[k].0);
                }
            }
            assert(false);
        }
        assert forall|i: int, j: int| 0 <= i < j < t.len() implies t[i].0 < t[j].0 by {
            let a = if i < p { i } else { i - 1 };
            let b = if j < p { j } else { j - 1 };
            if i != p && j != p {
                assert(t[i] == s[a]);
                assert(t[j] == s[b]);
            } else if i == p {
                assert(t[j] == s[b]);
                assert(s[b].0 >= day);
                assert(s[b].0 != day) by {
                    if s[b].0 == day {
                        assert(s[p].0 >= day);
                        if p < b {
                            assert(s[p].0 < s[b].0);
                        }
                    }
                }
            } else {
                assert(t[i] == s[a]);
            }
        }
        assert forall|i: int| 0 <= i < t.len() implies valid_day_number(#[trigger] t[i].0) by {
            if i < p {
                assert(t[i] == s[i]);
            } else if i > p {
                assert(t[i] == s[i - 1]);
            }
        }
        assert(t[p].0 == day);
        lemma_value_at(t, p);
        assert forall|other: int| other != day implies recorded(t, other) == recorded(s, other)
            && value_on(t, other) == value_on(s, other) by {
            if recorded(s, other) {
                let k = choose|k: int| 0 <= k < s.len() && #[trigger] s[k].0 == other;
                let m = if k < p { k } else { k + 1 };
                assert(t[m] == s[k]);
                assert(t[m].0 == other);
                lemma_value_at(t, m);
                lemma_value_at(s, k);
            }
            if recorded(t, other) {
                let m = choose|m: int| 0 <= m < t.len() && #[trigger] t[m].0 == other;
                let k = if m < p { m } else { m - 1 };
                assert(t[m] == s[k]);
                assert(s[k].0 == other);
                lemma_value_at(t, m);
                lemma_value_at(s, k);
            }
        }
    }
}

/// The progress of one habit, day by day.
#[derive(Clone, Debug)]
pub struct Progress {
    entries: Vec<(i32, i32)>,
}

impl View for Progress {
    type V = Entries;

    closed spec fn view(&self) -> Entries {
        Seq::new(self.entries@.len(), |i: int| (self.entries@[i].0 as int, self.entries@[i].1))
    }
}

impl Progress {
    /// The invariant of the type: the entries are well formed.
    pub open spec fn wf(&self) -> bool {
        well_formed(self@)
    }

    /// A log without entries.
    pub fn new() -> (r: Progress)
        ensures
            r@ == Seq::<(int, i32)>::empty(),
            r.wf(),
    {
        let r = Progress { entries: Vec::new() };
        assert(r@ =~= Seq::<(int, i32)>::empty());
        r
    }

    /// Number of days with an entry.
    pub fn len(&self) -> (r: usize)
        ensures
            r == self@.len(),
    {
        self.entries.len()
    }

    /// The entry at index `i`, counted from the earliest day.
    pub fn entry(&self, i: usize) -> (r: (Day, i32))
        requires
            self.wf(),
            i < self@.len(),
        ensures
            r.0@ == self@[i as int].0,
            r.1 == self@[i as int].1,
    {
        let e = self.entries[i];
        assert(valid_day_number(self@[i as int].0));
        (Day::of_valid_number(e.0), e.1)
    }

    /// Where `day` stands in the log, or would have to be inserted.
    fn locate(&self, day: i32) -> (p: usize)
        requires
            self.wf(),
        ensures
            is_position(self@, day as int, p as int),
            position(self@, day as int) == p,
    {
        let mut p: usize = 0;
        while p < self.entries.len() && self.entries[p].0 < day
            invariant
                p <= self.entries.len(),
                self@.len() == self.entries.len(),
                well_formed(self@),
                forall|i: int| 0 <= i < p ==> (#[trigger] self@[i]).0 < day,
            decreases self.entries.len() - p,
        {
            p += 1;
        }
        proof {
            assert forall|i: int| p <= i < self@.len() implies (#[trigger] self@[i]).0 >= day by {
                if p < i {
                    assert(self@[p as int].0 < self@[i].0);
                }
            }
            lemma_position_unique(self@, day as int, p as int);
        }
        p
    }

    /// The value recorded for `day`; 0 where there is no entry.
    pub fn value(&self, day: Day) -> (r: i32)
        requires
            self.wf(),
        ensures
            r == value_on(self@, day@),
    {
        match self.get(day) {
            Some(v) => v,
            None => 0,
        }
    }

    /// The value recorded for `day`, if there is an entry.
    pub fn get(&self, day: Day) -> (r: Option<i32>)
        requires
            self.wf(),
        ensures
            r is Some <==> recorded(self@, day@),
            r matches Some(v) ==> v == value_on(self@, day@),
    {
        let number = day.number();
        let p = self.locate(number);
        if p < self.entries.len() && self.entries[p].0 == number {
            proof {
                lemma_value_at(self@, p as int);
            }
            Some(self.entries[p].1)
        } else {
            proof {
                if recorded(self@, day@) {
                    let k = choose|k: int| 0 <= k < self@.len() && #[trigger] self@[k].0 == day@;
                    if k < p {
                        assert(self@[k].0 < day@);
                    } else {
                        assert(self@[p as int].0 >= day@);
                        if p < k {
                            assert(self@[p as int].0 < self@[k].0);
                        }
                    }
                }
            }
            None
        }
    }

    /// Sets the value for `day`.
    pub fn set(&mut self, day: Day, value: i32)
        requires
            old(self).wf(),
        ensures
            final(self)@ == put(old(self)@, day@, value),
            final(self).wf(),
            valid_day_number(day@),
    {
        let number = day.number();
        proof {
            lemma_put(self@, day@, value);
        }
        let p = self.locate(number);
        let ghost before = self@;
        if p < self.entries.len() && self.entries[p].0 == number {
            self.entries.set(p, (number, value));
            assert(self@ =~= before.update(p as int, (number as int, value)));
        } else {
            self.entries.insert(p, (number, value));
            assert(self@ =~= before.insert(p as int, (number as int, value)));
        }
    }

    /// Adds `delta` to the value for `day`, wrapping around at 32 bits; a day
    /// without an entry starts from 0.
    pub fn add(&mut self, day: Day, delta: i32)
        requires
            old(self).wf(),
        ensures
            final(self)@ == added(old(self)@, day@, delta),
            final(self).wf(),
            valid_day_number(day@),
    {
        let current = self.value(day);
        self.set(day, current.wrapping_add(delta));
    }

    /// Makes sure that `day` has an entry, creating one with value 0 if it has none.
    pub fn touch(&mut self, day: Day)
        requires
            old(self).wf(),
        ensures
            final(self)@ == touched(old(self)@, day@),
            final(self).wf(),
            valid_day_number(day@),
    {
        let current = self.value(day);
        self.set(day, current);
    }
}

} // verus!
