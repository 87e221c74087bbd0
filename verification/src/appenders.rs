//! The appenders that are there to be written to, and the destinations that
//! are made of them. An appender is known here by its id and by the place at
//! which it stands among the others; the one who holds the appenders writes
//! to them.

use vstd::prelude::*;
use crate::config::AppenderId;

verus! {

/// The first place at which `id` stands among `ids`.
pub open spec fn place_of(ids: Seq<AppenderId>, id: Seq<char>) -> Option<usize>
    decreases ids.len(),
{
    if ids.len() == 0 {
        None
    } else if place_of(ids.drop_last(), id) is Some {
        place_of(ids.drop_last(), id)
    } else if ids.last()@ == id {
        Some((ids.len() - 1) as usize)
    } else {
        None
    }
}

/// The places of those of `wanted` that stand among `ids`, in the order of
/// `wanted`. An id that stands nowhere is passed over.
pub open spec fn resolved(wanted: Seq<AppenderId>, ids: Seq<AppenderId>) -> Seq<usize>
    decreases wanted.len(),
{
    if wanted.len() == 0 {
        Seq::empty()
    } else {
        match place_of(ids, wanted.last()@) {
            Some(place) => resolved(wanted.drop_last(), ids).push(place),
            None => resolved(wanted.drop_last(), ids),
        }
    }
}

/// A place that `place_of` gives holds the id, and no place before it does;
/// where it gives none, no place holds the id.
pub proof fn lemma_place_of(ids: Seq<AppenderId>, id: Seq<char>)
    requires
        ids.len() <= usize::MAX,
    ensures
        match place_of(ids, id) {
            Some(place) => place < ids.len() && ids[place as int]@ == id && forall|i: int|
                0 <= i < place ==> ids[i]@ != id,
            None => forall|i: int| 0 <= i < ids.len() ==> ids[i]@ != id,
        },
    decreases ids.len(),
{
    if ids.len() > 0 {
        let front = ids.drop_last();
        lemma_place_of(front, id);
        match place_of(front, id) {
            Some(place) => {
                assert(front[place as int] == ids[place as int]);
                assert forall|i: int| 0 <= i < place implies ids[i]@ != id by {
                    assert(front[i] == ids[i]);
                }
            },
            None => {
                assert forall|i: int| 0 <= i < front.len() implies ids[i]@ != id by {
                    assert(front[i] == ids[i]);
                }
            },
        }
    }
}

/// Every place that is resolved is a place among the ids.
pub proof fn lemma_resolved_in_range(wanted: Seq<AppenderId>, ids: Seq<AppenderId>)
    requires
        ids.len() <= usize::MAX,
    ensures
        resolved(wanted, ids).len() <= wanted.len(),
        forall|i: int|
            0 <= i < resolved(wanted, ids).len() ==> #[trigger] resolved(wanted, ids)[i]
                < ids.len(),
    decreases wanted.len(),
{
    if wanted.len() > 0 {
        lemma_resolved_in_range(wanted.drop_last(), ids);
        lemma_place_of(ids, wanted.last()@);
    }
}

/// Where none of the wanted appenders is there, the destination has no
/// appender.
pub proof fn lemma_resolved_none(wanted: Seq<AppenderId>, ids: Seq<AppenderId>)
    requires
        forall|i: int| 0 <= i < wanted.len() ==> place_of(ids, #[trigger] wanted[i]@) is None,
    ensures
        resolved(wanted, ids) == Seq::<usize>::empty(),
    decreases wanted.len(),
{
    if wanted.len() > 0 {
        let front = wanted.drop_last();
        assert forall|i: int| 0 <= i < front.len() implies place_of(ids, #[trigger] front[i]@)
            is None by {
            assert(front[i] == wanted[i]);
        }
        lemma_resolved_none(front, ids);
        assert(wanted.last() == wanted[wanted.len() - 1]);
    }
}

/// Where one of the wanted appenders is there and none of the others, the
/// destination is that appender alone.
pub proof fn lemma_resolved_one(wanted: Seq<AppenderId>, ids: Seq<AppenderId>, k: int)
    requires
        0 <= k < wanted.len(),
        place_of(ids, wanted[k]@) is Some,
        forall|i: int|
            0 <= i < wanted.len() && i != k ==> place_of(ids, #[trigger] wanted[i]@) is None,
    ensures
        resolved(wanted, ids) == seq![place_of(ids, wanted[k]@)->Some_0],
    decreases wanted.len(),
{
    let front = wanted.drop_last();
    assert forall|i: int| 0 <= i < front.len() implies front[i] == wanted[i] by {}
    assert(wanted.last() == wanted[wanted.len() - 1]);
    if k == wanted.len() - 1 {
        lemma_resolved_none(front, ids);
        assert(Seq::<usize>::empty().push(place_of(ids, wanted[k]@)->Some_0)
            =~= seq![place_of(ids, wanted[k]@)->Some_0]);
    } else {
        lemma_resolved_one(front, ids, k);
    }
}

/// The destination of some appenders and then some more is the destination
/// of the first with the places of the others added.
pub proof fn lemma_resolved_append(
    first: Seq<AppenderId>,
    more: Seq<AppenderId>,
    ids: Seq<AppenderId>,
)
    ensures
        resolved(first + more, ids) == resolved(first, ids) + resolved(more, ids),
    decreases more.len(),
{
    if more.len() == 0 {
        assert(first + more =~= first);
        assert(resolved(first, ids) + resolved(more, ids) =~= resolved(first, ids));
    } else {
        assert((first + more).drop_last() =~= first + more.drop_last());
        assert((first + more).last() == more.last());
        lemma_resolved_append(first, more.drop_last(), ids);
        let front = resolved(first, ids) + resolved(more.drop_last(), ids);
        match place_of(ids, more.last()@) {
            Some(place) => {
                assert(front.push(place) =~= resolved(first, ids) + resolved(
                    more.drop_last(),
                    ids,
                ).push(place));
            },
            None => {},
        }
    }
}

/// The appenders that are there, each known by its id.
#[derive(Clone, Debug)]
pub struct Appenders {
    pub ids: Vec<AppenderId>,
}

impl Appenders {
    pub fn new(ids: Vec<AppenderId>) -> (r: Self)
        ensures
            r.ids == ids,
    {
        Appenders { ids }
    }

    /// The place of the appender with this id.
    pub fn get(&self, id: &AppenderId) -> (r: Option<usize>)
        ensures
            r == place_of(self.ids@, id@),
    {
        let mut i: usize = 0;
        while i < self.ids.len()
            invariant
                i <= self.ids.len(),
                forall|j: int| 0 <= j < i ==> self.ids@[j]@ != id@,
            decreases self.ids.len() - i,
        {
            if self.ids[i] == *id {
                proof {
                    lemma_place_of(self.ids@, id@);
                }
                return Some(i);
            }
            i = i + 1;
        }
        proof {
            lemma_place_of(self.ids@, id@);
        }
        None
    }
}

/// A destination: the places of the appenders that a write to it goes to, in
/// the order in which they were added. One without appenders takes every
/// write and writes nothing.
#[derive(Debug, PartialEq, Eq)]
pub struct Writer {
    pub sinks: Vec<usize>,
}

/// One write to one appender.
#[derive(Clone, Debug, PartialEq, Eq)]
pub struct Delivery {
    /// The place of the appender.
    pub sink: usize,
    /// What is written to it.
    pub bytes: Vec<u8>,
}

impl View for Writer {
    type V = Seq<usize>;

    open spec fn view(&self) -> Seq<usize> {
        self.sinks@
    }
}

impl Clone for Writer {
    fn clone(&self) -> (r: Self)
        ensures
            r@ == self@,
    {
        Writer { sinks: self.sinks.clone() }
    }
}

/// The first of the writes that failed, if one did.
pub open spec fn first_failure(done: Seq<bool>) -> Option<usize>
    decreases done.len(),
{
    if done.len() == 0 {
        None
    } else if first_failure(done.drop_last()) is Some {
        first_failure(done.drop_last())
    } else if !done.last() {
        Some((done.len() - 1) as usize)
    } else {
        None
    }
}

impl Writer {
    /// The destination without appenders.
    pub fn sink() -> (r: Self)
        ensures
            r@ == Seq::<usize>::empty(),
    {
        Writer { sinks: Vec::new() }
    }

    /// The destination that is the appender at `place` alone.
    pub fn new(place: usize) -> (r: Self)
        ensures
            r@ == seq![place],
    {
        let mut sinks: Vec<usize> = Vec::new();
        sinks.push(place);
        Writer { sinks }
    }

    /// The destination that a write to `self` and then to the appender at
    /// `place` is a write to.
    pub fn and(self, place: usize) -> (r: Self)
        ensures
            r@ == self@.push(place),
    {
        let mut sinks = self.sinks;
        sinks.push(place);
        Writer { sinks }
    }

    /// The writes that one write to the destination is made of: one to each
    /// of its appenders, in their order, and each of all the bytes.
    pub fn write(&self, buf: &Vec<u8>) -> (r: Vec<Delivery>)
        ensures
            r@.len() == self@.len(),
            forall|i: int|
                0 <= i < r@.len() ==> (#[trigger] r@[i]).sink == self@[i] && r@[i].bytes@ == buf@,
    {
        let mut deliveries: Vec<Delivery> = Vec::new();
        let mut i: usize = 0;
        while i < self.sinks.len()
            invariant
                i <= self.sinks.len(),
                deliveries@.len() == i,
                forall|j: int|
                    0 <= j < i ==> (#[trigger] deliveries@[j]).sink == self@[j]
                        && deliveries@[j].bytes@ == buf@,
            decreases self.sinks.len() - i,
        {
            deliveries.push(Delivery { sink: self.sinks[i], bytes: buf.clone() });
            i = i + 1;
        }
        deliveries
    }

    /// What a write to the destination reports, when each of the writes that
    /// it is made of has been tried and `done` tells which of them went well:
    /// the first that failed, or `None` where none did.
    pub fn outcome(done: &Vec<bool>) -> (r: Option<usize>)
        ensures
            r == first_failure(done@),
    {
        let mut failed: Option<usize> = None;
        let mut i: usize = 0;
        while i < done.len()
            invariant
                i <= done.len(),
                failed == first_failure(done@.take(i as int)),
            decreases done.len() - i,
        {
            proof {
                assert(done@.take(i + 1).drop_last() == done@.take(i as int));
            }
            if failed.is_none() && !done[i] {
                failed = Some(i);
            }
            i = i + 1;
        }
        assert(done@.take(i as int) == done@);
        failed
    }
}

} // verus!