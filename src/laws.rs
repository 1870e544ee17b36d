//! What holds of reads over many calls, proved from the step functions that
//! the reads' contracts are stated with.

use crate::cursor::{
    absorb_answer, absorbed, edge_done, fresh, is_new, poll_answer, polled, Cursor, Delivery, Edge,
};
use crate::error::{BReadError, NBReadError};
use vstd::prelude::*;
use vstd::std_specs::cmp::PartialEqSpec;

verus! {

/// The answers of the non-blocking reads when the deliveries `ds` are handed
/// in turn to read steps, starting from cursor `c`; lag reports, on which a
/// read asks again, give no answer of their own.
pub open spec fn nb_reads<T>(c: Cursor<T>, ds: Seq<Delivery<T>>) -> Seq<Result<T, NBReadError>>
    decreases ds.len(),
{
    if ds.len() == 0 {
        seq![]
    } else {
        let rest = nb_reads(polled(c, ds[0]), ds.drop_first());
        match poll_answer(c, ds[0]) {
            Some(a) => seq![a] + rest,
            None => rest,
        }
    }
}

/// The answers of the blocking reads when the deliveries `ds` are handed in
/// turn to blocking-read steps, starting from cursor `c`; a step that keeps
/// waiting gives no answer.
pub open spec fn b_reads<T: PartialEq>(c: Cursor<T>, ds: Seq<Delivery<T>>) -> Seq<
    Result<T, BReadError>,
>
    decreases ds.len(),
{
    if ds.len() == 0 {
        seq![]
    } else {
        let rest = b_reads(absorbed(c, ds[0]), ds.drop_first());
        match absorb_answer(c, ds[0]) {
            Some(a) => seq![a] + rest,
            None => rest,
        }
    }
}

/// The cursor after the deliveries `ds` were handed in turn to
/// blocking-read steps, starting from cursor `c`.
pub open spec fn after_b_reads<T: PartialEq>(c: Cursor<T>, ds: Seq<Delivery<T>>) -> Cursor<T>
    decreases ds.len(),
{
    if ds.len() == 0 {
        c
    } else {
        after_b_reads(absorbed(c, ds[0]), ds.drop_first())
    }
}

/// The channel delivering the values `vs`, in order.
pub open spec fn deliveries<T>(vs: Seq<T>) -> Seq<Delivery<T>> {
    vs.map_values(|v: T| Delivery::Value(v))
}

/// The channel answering `Empty`, `n` times.
pub open spec fn nothing_new<T>(n: nat) -> Seq<Delivery<T>> {
    Seq::new(n, |i: int| Delivery::Empty)
}

proof fn lemma_b_reads_relay<T: PartialEq>(c: Cursor<T>, vs: Seq<T>)
    requires
        T::obeys_eq_spec(),
        !c.closed,
        vs.len() > 0 ==> is_new(c.last, vs[0]),
        forall|i: int| 0 < i < vs.len() ==> !(#[trigger] vs[i]).eq_spec(&vs[i - 1]),
    ensures
        b_reads(c, deliveries(vs)) == vs.map_values(|v: T| Ok::<T, BReadError>(v)),
        vs.len() > 0 ==> after_b_reads(c, deliveries(vs)) == (Cursor { last: Some(vs.last()), closed: false }),
    decreases vs.len(),
{
    if vs.len() > 0 {
        let ds = deliveries(vs);
        let c1 = absorbed(c, ds[0]);
        let tail = vs.drop_first();
        assert(ds.drop_first() =~= deliveries(tail));
        assert forall|i: int| 0 < i < tail.len() implies !(#[trigger] tail[i]).eq_spec(
            &tail[i - 1],
        ) by {
            assert(tail[i] == vs[i + 1] && tail[i - 1] == vs[i]);
        }
        if tail.len() > 0 {
            assert(tail[0] == vs[1]);
        }
        lemma_b_reads_relay(c1, tail);
        assert(b_reads(c, ds) =~= vs.map_values(|v: T| Ok::<T, BReadError>(v)));
        if tail.len() == 0 {
            assert(ds.drop_first().len() == 0);
        } else {
            assert(tail.last() == vs.last());
        }
    }
}

/// Distinct values, delivered in order to a subscriber that is not closed
/// and whose last observed value, if any, differs from the first of them,
/// come out of its blocking reads exactly, in the same order; the
/// subscriber then holds the last of them.
pub proof fn law_b_read_in_order<T: PartialEq>(c: Cursor<T>, vs: Seq<T>)
    requires
        T::obeys_eq_spec(),
        !c.closed,
        vs.len() > 0 ==> is_new(c.last, vs[0]),
        forall|i: int, j: int|
            #![trigger vs[i], vs[j]]
            0 <= i < j < vs.len() ==> !vs[j].eq_spec(&vs[i]),
    ensures
        b_reads(c, deliveries(vs)) == vs.map_values(|v: T| Ok::<T, BReadError>(v)),
        vs.len() > 0 ==> after_b_reads(c, deliveries(vs)) == (Cursor { last: Some(vs.last()), closed: false }),
{
    assert forall|i: int| 0 < i < vs.len() implies !(#[trigger] vs[i]).eq_spec(&vs[i - 1]) by {
        assert(!vs[i].eq_spec(&vs[i - 1]));
    }
    lemma_b_reads_relay(c, vs);
}

proof fn lemma_nb_reads_repeat<T>(v: T, n: nat)
    ensures
        nb_reads(Cursor { last: Some(v), closed: false }, nothing_new::<T>(n)) == Seq::new(
            n,
            |i: int| Ok::<T, NBReadError>(v),
        ),
    decreases n,
{
    let c = Cursor { last: Some(v), closed: false };
    if n > 0 {
        let ds = nothing_new::<T>(n);
        assert(ds.drop_first() =~= nothing_new::<T>((n - 1) as nat));
        lemma_nb_reads_repeat(v, (n - 1) as nat);
        assert(nb_reads(c, ds) =~= Seq::new(n, |i: int| Ok::<T, NBReadError>(v)));
    }
}

/// A subscriber that has observed nothing reads `Empty` while nothing is
/// pending; once a value `v` arrives, the read that takes it and any number
/// of reads after it that find nothing new all give `v`.
pub proof fn law_nb_read_keeps_value<T>(v: T, n: nat)
    ensures
        nb_reads(fresh::<T>(), nothing_new::<T>(n)) == Seq::new(
            n,
            |i: int| Err::<T, NBReadError>(NBReadError::Empty),
        ),
        nb_reads(fresh::<T>(), seq![Delivery::Value(v)] + nothing_new::<T>(n)) == Seq::new(
            n + 1,
            |i: int| Ok::<T, NBReadError>(v),
        ),
    decreases n,
{
    let ds = seq![Delivery::Value(v)] + nothing_new::<T>(n);
    assert(ds.drop_first() =~= nothing_new::<T>(n));
    lemma_nb_reads_repeat(v, n);
    assert(nb_reads(fresh::<T>(), ds) =~= Seq::new(n + 1, |i: int| Ok::<T, NBReadError>(v)));
    if n > 0 {
        let es = nothing_new::<T>(n);
        assert(es.drop_first() =~= nothing_new::<T>((n - 1) as nat));
        law_nb_read_keeps_value(v, (n - 1) as nat);
        assert(nb_reads(fresh::<T>(), es) =~= Seq::new(
            n,
            |i: int| Err::<T, NBReadError>(NBReadError::Empty),
        ));
    }
}

/// A `Closed` delivery closes any cursor, and a closed cursor answers every
/// later read, of either kind and whatever the channel delivers, with
/// `Closed`.
pub proof fn law_closed_is_terminal<T: PartialEq>(c: Cursor<T>, ds: Seq<Delivery<T>>)
    ensures
        polled(c, Delivery::Closed).closed,
        absorbed(c, Delivery::Closed).closed,
        c.closed ==> nb_reads(c, ds) == Seq::new(
            ds.len(),
            |i: int| Err::<T, NBReadError>(NBReadError::Closed),
        ),
        c.closed ==> b_reads(c, ds) == Seq::new(
            ds.len(),
            |i: int| Err::<T, BReadError>(BReadError::Closed),
        ),
    decreases ds.len(),
{
    if c.closed && ds.len() > 0 {
        law_closed_is_terminal(c, ds.drop_first());
        assert(nb_reads(c, ds) =~= Seq::new(
            ds.len(),
            |i: int| Err::<T, NBReadError>(NBReadError::Closed),
        ));
        assert(b_reads(c, ds) =~= Seq::new(
            ds.len(),
            |i: int| Err::<T, BReadError>(BReadError::Closed),
        ));
    }
}

/// A wait for an edge ends at once when the signal is closed. When it ends
/// otherwise, the value just observed is the edge's target (`true` for a
/// rising edge) and the value observed before it is the opposite one.
pub proof fn law_edge_transition(c: Cursor<bool>, e: Edge, d: Delivery<bool>)
    ensures
        c.closed || d is Closed ==> edge_done(c, e, d),
        edge_done(c, e, d) && !absorbed(c, d).closed ==> absorbed(c, d).last == Some(
            e == Edge::Rising,
        ) && c.last == Some(e == Edge::Falling),
{
}

} // verus!
