//! Gradients.
use vstd::prelude::*;

use super::colour::Colour;
use crate::error::{Error, ErrorView};
use crate::number::Single;

verus! {

/// A colour on a gradient, with its position.
pub type Stop = (Colour, Single);

/// A gradient: colours by position, from zero to one.
#[derive(Debug)]
pub struct Gradient {
    pub colours: Vec<(Colour, Single)>,
}

impl View for Gradient {
    type V = Seq<Stop>;

    open spec fn view(&self) -> Seq<Stop> {
        self.colours@
    }
}

impl Clone for Gradient {
    fn clone(&self) -> (r: Gradient)
        ensures
            r@ == self@,
    {
        let mut colours: Vec<(Colour, Single)> = Vec::new();
        let mut i: usize = 0;
        while i < self.colours.len()
            invariant
                i <= self.colours.len(),
                colours@ == self.colours@.take(i as int),
            decreases self.colours.len() - i,
        {
            colours.push(self.colours[i]);
            i = i + 1;
        }
        assert(self.colours@.take(i as int) == self.colours@);
        Gradient { colours }
    }
}

// -- Order

/// Whether positions never fall from one stop to the next.
pub open spec fn sorted(stops: Seq<Stop>) -> bool {
    forall|i: int, j: int|
        0 <= i <= j < stops.len() ==> (#[trigger] stops[i]).1.rank() <= (#[trigger] stops[j]).1.rank()
}

/// Whether a position lies on a gradient: a number from zero to one.
pub open spec fn in_range(position: Single) -> bool {
    Single::spec_zero().at_most(position) && position.at_most(Single::spec_one())
}

/// Whether a gradient is in order: its stops sorted by position, every
/// position a number from zero to one.
pub open spec fn in_order(stops: Seq<Stop>) -> bool {
    sorted(stops) && forall|i: int| 0 <= i < stops.len() ==> in_range((#[trigger] stops[i]).1)
}

/// The stops whose positions have the given rank, in their order.
pub open spec fn ranked(stops: Seq<Stop>, rank: int) -> Seq<Stop> {
    stops.filter(|s: Stop| s.1.rank() == rank)
}

/// Whether `after` is `before` sorted by position, stops at equal positions
/// left in the order in which they stood.
pub open spec fn sorted_from(before: Seq<Stop>, after: Seq<Stop>) -> bool {
    sorted(after) && forall|rank: int| #[trigger] ranked(after, rank) == ranked(before, rank)
}

/// Whether stops can be sorted: two positions compare only if both are
/// numbers, and a single stop is compared with nothing.
pub open spec fn sortable(stops: Seq<Stop>) -> bool {
    stops.len() > 1 ==> forall|i: int| 0 <= i < stops.len() ==> !(#[trigger] stops[i]).1.nan()
}

proof fn lemma_ranked_push(stops: Seq<Stop>, stop: Stop, rank: int)
    ensures
        ranked(stops.push(stop), rank) == (if stop.1.rank() == rank {
            ranked(stops, rank).push(stop)
        } else {
            ranked(stops, rank)
        }),
{
    reveal(Seq::filter);
    assert(stops.push(stop).drop_last() == stops);
}

proof fn lemma_ranked_member(stops: Seq<Stop>, i: int)
    requires
        0 <= i < stops.len(),
    ensures
        ranked(stops, stops[i].1.rank()).len() > 0,
    decreases stops.len(),
{
    let rank = stops[i].1.rank();
    lemma_ranked_push(stops.drop_last(), stops.last(), rank);
    assert(stops.drop_last().push(stops.last()) == stops);
    if i < stops.len() - 1 {
        lemma_ranked_member(stops.drop_last(), i);
    }
}

proof fn lemma_ranked_absent(stops: Seq<Stop>, rank: int)
    requires
        forall|i: int| 0 <= i < stops.len() ==> (#[trigger] stops[i]).1.rank() != rank,
    ensures
        ranked(stops, rank) == Seq::<Stop>::empty(),
    decreases stops.len(),
{
    if stops.len() == 0 {
        reveal(Seq::filter);
    } else {
        lemma_ranked_push(stops.drop_last(), stops.last(), rank);
        assert(stops.drop_last().push(stops.last()) == stops);
        lemma_ranked_absent(stops.drop_last(), rank);
    }
}

proof fn lemma_ranked_present(stops: Seq<Stop>, rank: int)
    requires
        ranked(stops, rank).len() > 0,
    ensures
        exists|i: int| 0 <= i < stops.len() && (#[trigger] stops[i]).1.rank() == rank,
{
    if forall|i: int| 0 <= i < stops.len() ==> (#[trigger] stops[i]).1.rank() != rank {
        lemma_ranked_absent(stops, rank);
    }
}

proof fn lemma_ranked_insert(stops: Seq<Stop>, at: int, stop: Stop, rank: int)
    requires
        0 <= at <= stops.len(),
        forall|i: int| at <= i < stops.len() ==> stop.1.rank() < (#[trigger] stops[i]).1.rank(),
    ensures
        ranked(stops.insert(at, stop), rank) == ranked(stops.push(stop), rank),
{
    let pred = |s: Stop| s.1.rank() == rank;
    let left = stops.take(at);
    let right = stops.skip(at);
    assert(stops.insert(at, stop) == left.push(stop) + right);
    assert(stops == left + right);
    Seq::filter_distributes_over_add(left.push(stop), right, pred);
    Seq::filter_distributes_over_add(left, right, pred);
    lemma_ranked_push(left, stop, rank);
    lemma_ranked_push(stops, stop, rank);
    if stop.1.rank() == rank {
        assert forall|i: int| 0 <= i < right.len() implies (#[trigger] right[i]).1.rank() != rank by {
            assert(right[i] == stops[at + i]);
        }
        lemma_ranked_absent(right, rank);
    }
    assert(ranked(stops.insert(at, stop), rank) == ranked(stops.push(stop), rank));
}

proof fn lemma_sorted_from_step(done: Seq<Stop>, out: Seq<Stop>, at: int, stop: Stop)
    requires
        sorted_from(done, out),
        0 <= at <= out.len(),
        forall|i: int| 0 <= i < at ==> (#[trigger] out[i]).1.rank() <= stop.1.rank(),
        forall|i: int| at <= i < out.len() ==> stop.1.rank() < (#[trigger] out[i]).1.rank(),
    ensures
        sorted_from(done.push(stop), out.insert(at, stop)),
{
    let next = out.insert(at, stop);
    assert forall|i: int, j: int| 0 <= i <= j < next.len() implies (#[trigger] next[i]).1.rank()
        <= (#[trigger] next[j]).1.rank() by {
        let a = if i < at { i } else { i - 1 };
        let b = if j < at { j } else { j - 1 };
        if i != at {
            assert(next[i] == out[a]);
        }
        if j != at {
            assert(next[j] == out[b]);
        }
    }
    assert forall|rank: int| #[trigger] ranked(next, rank) == ranked(done.push(stop), rank) by {
        lemma_ranked_insert(out, at, stop, rank);
        lemma_ranked_push(out, stop, rank);
        lemma_ranked_push(done, stop, rank);
        assert(ranked(out, rank) == ranked(done, rank));
    }
}

/// Sorting has one outcome: two lists that are both the same stops sorted,
/// equal positions left in order, are the same list.
pub proof fn lemma_sorting_is_determined(before: Seq<Stop>, a: Seq<Stop>, b: Seq<Stop>)
    requires
        sorted_from(before, a),
        sorted_from(before, b),
    ensures
        a == b,
{
    assert forall|rank: int| #[trigger] ranked(a, rank) == ranked(b, rank) by {
        assert(ranked(a, rank) == ranked(before, rank));
        assert(ranked(b, rank) == ranked(before, rank));
    }
    lemma_sorted_same_ranks(a, b);
}

proof fn lemma_sorted_same_ranks(a: Seq<Stop>, b: Seq<Stop>)
    requires
        sorted(a),
        sorted(b),
        forall|rank: int| #[trigger] ranked(a, rank) == ranked(b, rank),
    ensures
        a == b,
    decreases a.len(),
{
    if a.len() == 0 {
        if b.len() > 0 {
            lemma_ranked_member(b, 0);
            assert(ranked(a, b[0].1.rank()).len() > 0);
            lemma_ranked_present(a, b[0].1.rank());
        }
        assert(a == b);
    } else {
        let ra = a.drop_last();
        let x = a.last();
        assert(ra.push(x) == a);
        lemma_ranked_member(a, a.len() - 1);
        assert(ranked(b, x.1.rank()).len() > 0);
        lemma_ranked_present(b, x.1.rank());
        let rb = b.drop_last();
        let y = b.last();
        assert(rb.push(y) == b);
        lemma_ranked_member(b, b.len() - 1);
        assert(ranked(a, y.1.rank()).len() > 0);
        lemma_ranked_present(a, y.1.rank());
        assert(x.1.rank() == y.1.rank());
        lemma_ranked_push(ra, x, x.1.rank());
        lemma_ranked_push(rb, y, x.1.rank());
        assert(ranked(a, x.1.rank()).last() == x);
        assert(ranked(b, x.1.rank()).last() == y);
        assert forall|rank: int| #[trigger] ranked(ra, rank) == ranked(rb, rank) by {
            lemma_ranked_push(ra, x, rank);
            lemma_ranked_push(rb, y, rank);
            assert(ranked(a, rank) == ranked(b, rank));
            if rank == x.1.rank() {
                assert(ranked(ra, rank) == ranked(a, rank).drop_last());
                assert(ranked(rb, rank) == ranked(b, rank).drop_last());
            }
        }
        assert(sorted(ra)) by {
            assert forall|i: int, j: int| 0 <= i <= j < ra.len() implies (#[trigger] ra[i]).1.rank()
                <= (#[trigger] ra[j]).1.rank() by {
                assert(ra[i] == a[i] && ra[j] == a[j]);
            }
        }
        assert(sorted(rb)) by {
            assert forall|i: int, j: int| 0 <= i <= j < rb.len() implies (#[trigger] rb[i]).1.rank()
                <= (#[trigger] rb[j]).1.rank() by {
                assert(rb[i] == b[i] && rb[j] == b[j]);
            }
        }
        lemma_sorted_same_ranks(ra, rb);
    }
}

/// Sorting moves stops and neither adds nor drops any.
pub proof fn lemma_sorting_keeps_stops(before: Seq<Stop>, after: Seq<Stop>)
    requires
        sorted_from(before, after),
    ensures
        after.to_multiset() == before.to_multiset(),
        after.len() == before.len(),
{
    before.to_multiset_ensures();
    after.to_multiset_ensures();
    assert forall|stop: Stop| #[trigger] after.to_multiset().count(stop)
        == before.to_multiset().count(stop) by {
        lemma_ranked_count(before, stop);
        lemma_ranked_count(after, stop);
        assert(ranked(after, stop.1.rank()) == ranked(before, stop.1.rank()));
    }
    assert(after.to_multiset() =~= before.to_multiset());
}

proof fn lemma_ranked_count(stops: Seq<Stop>, stop: Stop)
    ensures
        stops.to_multiset().count(stop) == ranked(stops, stop.1.rank()).to_multiset().count(stop),
    decreases stops.len(),
{
    let rank = stop.1.rank();
    if stops.len() == 0 {
        lemma_ranked_absent(stops, rank);
        assert(stops == Seq::<Stop>::empty());
    } else {
        let rest = stops.drop_last();
        assert(rest.push(stops.last()) == stops);
        lemma_ranked_count(rest, stop);
        lemma_ranked_push(rest, stops.last(), rank);
        rest.to_multiset_ensures();
        stops.to_multiset_ensures();
        ranked(rest, rank).to_multiset_ensures();
    }
}

/// Every list of stops can be brought into order.
pub proof fn lemma_sorting_exists(before: Seq<Stop>)
    ensures
        exists|after: Seq<Stop>| sorted_from(before, after),
    decreases before.len(),
{
    if before.len() == 0 {
        assert(sorted_from(before, before));
    } else {
        let rest = before.drop_last();
        let stop = before.last();
        lemma_sorting_exists(rest);
        let out = choose|out: Seq<Stop>| sorted_from(rest, out);
        let at = lemma_place(out, stop, out.len() as int);
        lemma_sorted_from_step(rest, out, at, stop);
        assert(rest.push(stop) == before);
    }
}

/// Where a stop goes: behind the stops that it does not come before.
proof fn lemma_place(out: Seq<Stop>, stop: Stop, end: int) -> (at: int)
    requires
        sorted(out),
        0 <= end <= out.len(),
        forall|i: int| end <= i < out.len() ==> stop.1.rank() < (#[trigger] out[i]).1.rank(),
    ensures
        0 <= at <= out.len(),
        forall|i: int| 0 <= i < at ==> (#[trigger] out[i]).1.rank() <= stop.1.rank(),
        forall|i: int| at <= i < out.len() ==> stop.1.rank() < (#[trigger] out[i]).1.rank(),
    decreases end,
{
    if end > 0 && stop.1.rank() < out[end - 1].1.rank() {
        lemma_place(out, stop, end - 1)
    } else {
        if end > 0 {
            assert forall|i: int| 0 <= i < end implies (#[trigger] out[i]).1.rank()
                <= stop.1.rank() by {
                assert(out[i].1.rank() <= out[end - 1].1.rank());
            }
        }
        end
    }
}

/// Sorts stops by position and leaves those at equal positions in order.
fn sort_stops(stops: &Vec<(Colour, Single)>) -> (out: Vec<(Colour, Single)>)
    ensures
        sorted_from(stops@, out@),
{
    let mut out: Vec<(Colour, Single)> = Vec::new();
    let mut i: usize = 0;
    assert(stops@.take(0) == out@);
    while i < stops.len()
        invariant
            i <= stops.len(),
            out.len() == i,
            sorted_from(stops@.take(i as int), out@),
        decreases stops.len() - i,
    {
        let stop = stops[i];
        let mut at: usize = out.len();
        while at > 0 && !out[at - 1].1.ranks_at_most(stop.1)
            invariant
                at <= out.len(),
                forall|k: int|
                    at <= k < out.len() ==> stop.1.rank() < (#[trigger] out@[k]).1.rank(),
            decreases at,
        {
            at = at - 1;
        }
        proof {
            if at > 0 {
                assert forall|k: int| 0 <= k < at implies (#[trigger] out@[k]).1.rank()
                    <= stop.1.rank() by {
                    assert(out@[k].1.rank() <= out@[at - 1].1.rank());
                }
            }
            lemma_sorted_from_step(stops@.take(i as int), out@, at as int, stop);
            assert(stops@.take(i as int).push(stop) == stops@.take(i + 1));
        }
        out.insert(at, stop);
        i = i + 1;
    }
    assert(stops@.take(i as int) == stops@);
    out
}

// -- Editing

/// The stops with the one at `index` moved to `position`, in its old place.
pub open spec fn placed(stops: Seq<Stop>, index: int, position: Single) -> Seq<Stop> {
    stops.update(index, (stops[index].0, position))
}

/// The stops with another colour for the one at `index`.
pub open spec fn recoloured(stops: Seq<Stop>, index: int, colour: Colour) -> Seq<Stop> {
    stops.update(index, (colour, stops[index].1))
}

/// The stops with a colour more, at the end.
pub open spec fn extended(stops: Seq<Stop>, colour: Colour) -> Seq<Stop> {
    stops.push((colour, Single::spec_one()))
}

/// The stops without the one at `index`.
pub open spec fn without(stops: Seq<Stop>, index: int) -> Seq<Stop> {
    stops.remove(index)
}

/// Whether a position is refused: it is not a number from zero to one.
pub open spec fn outside(position: Single) -> bool {
    !in_range(position)
}

/// Whether a position is refused.
pub fn is_outside(position: Single) -> (r: bool)
    ensures
        r == outside(position),
{
    !(Single::zero().le(position) && position.le(Single::one()))
}

impl Gradient {
    /// A gradient without colours.
    pub fn new() -> (r: Gradient)
        ensures
            r@ == Seq::<Stop>::empty(),
    {
        Gradient { colours: Vec::new() }
    }

    /// Replaces the colour at `index`.
    pub fn change_colour(&mut self, index: usize, value: Colour)
        requires
            index < old(self)@.len(),
        ensures
            final(self)@ == recoloured(old(self)@, index as int, value),
    {
        let position = self.colours[index].1;
        self.colours.set(index, (value, position));
    }

    /// Moves the colour at `index` to `position` and sorts the gradient. The
    /// position is not checked; see [`is_outside`].
    pub fn change_position(&mut self, index: usize, position: Single)
        requires
            index < old(self)@.len(),
            sortable(placed(old(self)@, index as int, position)),
        ensures
            sorted_from(placed(old(self)@, index as int, position), final(self)@),
    {
        let colour = self.colours[index].0;
        self.colours.set(index, (colour, position));
        self.colours = sort_stops(&self.colours);
    }

    /// Adds a colour at the end of the gradient, at position one.
    pub fn add_colour(&mut self, clr: Colour)
        ensures
            final(self)@ == extended(old(self)@, clr),
    {
        self.colours.push((clr, Single::one()));
    }

    /// Takes out the colour at `index`, or says why it cannot.
    pub fn delete_colour(&mut self, index: usize) -> (r: Result<(), Error>)
        ensures
            if index >= old(self)@.len() {
                r is Err && r->Err_0@ == ErrorView::IndexOutOfRange && final(self)@ == old(self)@
            } else {
                r is Ok && final(self)@ == without(old(self)@, index as int)
            },
    {
        if index >= self.colours.len() {
            Err(Error::IndexOutOfRange)
        } else {
            self.colours.remove(index);
            Ok(())
        }
    }

    /// Whether the gradient can be sorted once the colour at `index` has moved
    /// to `position`.
    pub fn can_move(&self, index: usize, position: Single) -> (r: bool)
        requires
            index < self@.len(),
        ensures
            r == sortable(placed(self@, index as int, position)),
    {
        let ghost stops = placed(self@, index as int, position);
        if self.colours.len() <= 1 {
            return true;
        }
        let mut i: usize = 0;
        while i < self.colours.len()
            invariant
                i <= self.colours.len(),
                stops == placed(self@, index as int, position),
                index < self@.len(),
                self@.len() > 1,
                forall|k: int| 0 <= k < i ==> !(#[trigger] stops[k]).1.nan(),
            decreases self.colours.len() - i,
        {
            let at: Single = if i == index { position } else { self.colours[i].1 };
            assert(stops[i as int].1 == at);
            if at.is_nan() {
                return false;
            }
            i = i + 1;
        }
        true
    }

    /// Moves the colour at `index` to `position` and sorts the gradient, or
    /// says why it cannot.
    pub fn edit_colour_position(&mut self, index: usize, position: Single) -> (r: Result<
        (),
        Error,
    >)
        requires
            index < old(self)@.len() && !outside(position) ==> sortable(
                placed(old(self)@, index as int, position),
            ),
        ensures
            if index >= old(self)@.len() {
                r is Err && r->Err_0@ == ErrorView::IndexOutOfRange && final(self)@ == old(self)@
            } else if outside(position) {
                r is Err && r->Err_0@ == ErrorView::PositionOutOfRange && final(self)@
                    == old(self)@
            } else {
                r is Ok && sorted_from(placed(old(self)@, index as int, position), final(self)@)
            },
    {
        if index >= self.colours.len() {
            Err(Error::IndexOutOfRange)
        } else if is_outside(position) {
            Err(Error::PositionOutOfRange)
        } else {
            self.change_position(index, position);
            Ok(())
        }
    }

    /// Replaces the colour at `index`, or says why it cannot.
    pub fn edit_colour_value(&mut self, index: usize, value: Colour) -> (r: Result<(), Error>)
        ensures
            if index >= old(self)@.len() {
                r is Err && r->Err_0@ == ErrorView::IndexOutOfRange && final(self)@ == old(self)@
            } else {
                r is Ok && final(self)@ == recoloured(old(self)@, index as int, value)
            },
    {
        if index >= self.colours.len() {
            Err(Error::IndexOutOfRange)
        } else {
            self.change_colour(index, value);
            Ok(())
        }
    }
}

/// An edit touches the stop that it names and no other: a colour that is added
/// comes last, at position one; one that is taken out leaves those before it
/// where they were and moves those behind it up by one place; one that is
/// replaced keeps its position, and one that moves keeps its colour.
pub proof fn lemma_edits_touch_one_stop(
    stops: Seq<Stop>,
    index: int,
    colour: Colour,
    position: Single,
    k: int,
)
    requires
        0 <= index < stops.len(),
        0 <= k < stops.len(),
    ensures
        extended(stops, colour).len() == stops.len() + 1,
        extended(stops, colour)[k] == stops[k],
        extended(stops, colour).last().0 == colour,
        extended(stops, colour).last().1.bits == 0x3f80_0000,
        without(stops, index).len() == stops.len() - 1,
        k < index ==> without(stops, index)[k] == stops[k],
        k > index ==> without(stops, index)[k - 1] == stops[k],
        recoloured(stops, index, colour).len() == stops.len(),
        k != index ==> recoloured(stops, index, colour)[k] == stops[k],
        recoloured(stops, index, colour)[index].0 == colour,
        recoloured(stops, index, colour)[index].1 == stops[index].1,
        placed(stops, index, position).len() == stops.len(),
        k != index ==> placed(stops, index, position)[k] == stops[k],
        placed(stops, index, position)[index].0 == stops[index].0,
        placed(stops, index, position)[index].1 == position,
{
}

/// The first colour of a gradient comes at position one.
pub proof fn lemma_first_colour(colour: Colour)
    ensures
        extended(Seq::empty(), colour) == seq![(colour, Single { bits: 0x3f80_0000 })],
{
}

/// What is sorted already stays as it is.
pub proof fn lemma_sorted_stays(stops: Seq<Stop>, after: Seq<Stop>)
    requires
        forall|i: int|
            #![trigger stops[i]]
            0 <= i < stops.len() - 1 ==> stops[i].1.rank() <= stops[i + 1].1.rank(),
        sorted_from(stops, after),
    ensures
        after == stops,
{
    assert forall|i: int, j: int| 0 <= i <= j < stops.len() implies (#[trigger] stops[i]).1.rank()
        <= (#[trigger] stops[j]).1.rank() by {
        lemma_steps_up(stops, i, j);
    }
    assert(sorted_from(stops, stops));
    lemma_sorting_is_determined(stops, stops, after);
}

proof fn lemma_steps_up(stops: Seq<Stop>, i: int, j: int)
    requires
        0 <= i <= j < stops.len(),
        forall|i: int|
            #![trigger stops[i]]
            0 <= i < stops.len() - 1 ==> stops[i].1.rank() <= stops[i + 1].1.rank(),
    ensures
        stops[i].1.rank() <= stops[j].1.rank(),
    decreases j - i,
{
    if i < j {
        lemma_steps_up(stops, i, j - 1);
        assert(stops[j - 1].1.rank() <= stops[j - 1 + 1].1.rank());
    }
}

/// After sorting no stop stands before one of a lower position.
pub proof fn lemma_sorting_orders(before: Seq<Stop>, after: Seq<Stop>, i: int, j: int)
    requires
        sorted_from(before, after),
        0 <= i < j < after.len(),
    ensures
        !after[j].1.below(after[i].1),
{
    assert(after[i].1.rank() <= after[j].1.rank());
}

/// A stop of a sorted gradient that moves goes to its place among the others,
/// which stay as they stood: behind all that it does not come before, and, of
/// those at its new position, behind the ones that stood before it.
pub proof fn lemma_moving_one_stop(
    stops: Seq<Stop>,
    index: int,
    position: Single,
    after: Seq<Stop>,
) -> (k: int)
    requires
        sorted(stops),
        0 <= index < stops.len(),
        sorted_from(placed(stops, index, position), after),
    ensures
        0 <= k < after.len(),
        after[k] == (stops[index].0, position),
        after.remove(k) == stops.remove(index),
        forall|i: int|
            0 <= i < stops.len() - 1 && (#[trigger] stops.remove(index)[i]).1.rank()
                == position.rank() ==> (i < k <==> i < index),
{
    let stop = (stops[index].0, position);
    let at = lemma_move_steps(stops, index, stop, stops.len() - index - 1);
    let others = stops.take(index) + stops.subrange(index + 1, stops.len() as int);
    let candidate = others.insert(at, stop);
    assert(stops.take(index).push(stop) + stops.subrange(index + 1, stops.len() as int) =~= placed(
        stops,
        index,
        position,
    ));
    lemma_sorting_is_determined(placed(stops, index, position), after, candidate);
    assert(others =~= stops.remove(index));
    assert forall|i: int|
        0 <= i < stops.len() - 1 && (#[trigger] stops.remove(index)[i]).1.rank()
            == position.rank() implies (i < at <==> i < index) by {
        assert(stops.remove(index)[i] == stops[if i < index { i } else { i + 1 }]);
    }
    assert(after.remove(at) =~= stops.remove(index));
    at
}

proof fn lemma_move_steps(stops: Seq<Stop>, index: int, stop: Stop, n: int) -> (k: int)
    requires
        sorted(stops),
        0 <= index < stops.len(),
        0 <= n <= stops.len() - index - 1,
    ensures
        0 <= k <= index + n,
        sorted_from(
            stops.take(index).push(stop) + stops.subrange(index + 1, index + 1 + n),
            (stops.take(index) + stops.subrange(index + 1, index + 1 + n)).insert(k, stop),
        ),
        forall|i: int|
            0 <= i < index && (#[trigger] stops[i]).1.rank() <= stop.1.rank() ==> i < k,
        forall|i: int|
            index < i <= index + n && (#[trigger] stops[i]).1.rank() >= stop.1.rank() ==> k <= i
                - 1,
    decreases n,
{
    let left = stops.take(index);
    let right = stops.subrange(index + 1, index + 1 + n);
    if n == 0 {
        assert(sorted_from(left, left));
        let k = lemma_place(left, stop, left.len() as int);
        lemma_sorted_from_step(left, left, k, stop);
        assert(left.push(stop) + right =~= left.push(stop));
        assert(left + right =~= left);
        assert forall|i: int|
            0 <= i < index && (#[trigger] stops[i]).1.rank() <= stop.1.rank() implies i < k by {
            assert(left[i] == stops[i]);
        }
        k
    } else {
        let k = lemma_move_steps(stops, index, stop, n - 1);
        let fewer = stops.subrange(index + 1, index + n);
        let done = left.push(stop) + fewer;
        let others = left + fewer;
        let out = others.insert(k, stop);
        let next = stops[index + n];
        assert(right =~= fewer.push(next));
        assert(left.push(stop) + right =~= done.push(next));
        assert(left + right =~= others.push(next));
        assert forall|i: int| 0 <= i < others.len() implies (#[trigger] others[i]).1.rank()
            <= next.1.rank() by {
            assert(others[i] == stops[if i < index { i } else { i + 1 }]);
        }
        assert forall|i: int| 0 <= i < out.len() && i != k implies (#[trigger] out[i]).1.rank()
            <= next.1.rank() by {
            assert(out[i] == others[if i < k { i } else { i - 1 }]);
        }
        assert(out[k] == stop);
        if stop.1.rank() <= next.1.rank() {
            lemma_sorted_from_step(done, out, out.len() as int, next);
            assert(out.insert(out.len() as int, next) =~= others.push(next).insert(k, stop));
            k
        } else {
            if k < out.len() - 1 {
                assert(out[k].1.rank() <= out[k + 1].1.rank());
            }
            lemma_sorted_from_step(done, out, k, next);
            assert(out.insert(k, next) =~= others.push(next).insert(k + 1, stop));
            k + 1
        }
    }
}

/// Editing keeps a gradient in order: adding, recolouring and taking out a
/// colour do, and so does moving one to a position from zero to one.
pub proof fn lemma_editing_keeps_order(
    stops: Seq<Stop>,
    index: int,
    colour: Colour,
    position: Single,
    moved: Seq<Stop>,
)
    requires
        in_order(stops),
    ensures
        in_order(stops.push((colour, Single::spec_one()))),
        0 <= index < stops.len() ==> in_order(stops.remove(index)),
        0 <= index < stops.len() ==> in_order(stops.update(index, (colour, stops[index].1))),
        0 <= index < stops.len() && in_range(position) && sorted_from(
            placed(stops, index, position),
            moved,
        ) ==> in_order(moved),
{
    if 0 <= index < stops.len() && in_range(position) && sorted_from(
        placed(stops, index, position),
        moved,
    ) {
        let before = placed(stops, index, position);
        lemma_sorting_keeps_stops(before, moved);
        assert forall|i: int| 0 <= i < moved.len() implies in_range((#[trigger] moved[i]).1) by {
            before.to_multiset_ensures();
            moved.to_multiset_ensures();
            assert(moved.contains(moved[i]));
            assert(moved.to_multiset().count(moved[i]) > 0);
            assert(before.contains(moved[i]));
            let k = choose|k: int| 0 <= k < before.len() && before[k] == moved[i];
            assert(before[k] == (if k == index { (stops[index].0, position) } else { stops[k] }));
        }
    }
    if 0 <= index < stops.len() {
        let rest = stops.remove(index);
        assert forall|i: int| 0 <= i < rest.len() implies (#[trigger] rest[i]) == stops[if i
            < index { i } else { i + 1 }] by {}
        let recoloured = stops.update(index, (colour, stops[index].1));
        assert forall|i: int| 0 <= i < stops.len() implies (#[trigger] recoloured[i]).1
            == stops[i].1 by {}
    }
}

// -- Colour at a position

/// What a gradient shows at a position.
#[derive(Clone, Copy, Debug, PartialEq, Eq)]
pub enum Blend {
    /// One colour.
    Solid(Colour),
    /// A mix of two neighbouring stops, by the distance of the position from
    /// each.
    Between((Colour, Single), (Colour, Single)),
}

/// Whether the stops at `i` and behind it enclose the position.
pub open spec fn encloses(stops: Seq<Stop>, i: int, position: Single) -> bool {
    stops[i].1.at_most(position) && position.at_most(stops[i + 1].1)
}

/// Whether the first stop that encloses the position with its successor is
/// the one at `i`.
pub open spec fn first_enclosing(stops: Seq<Stop>, position: Single, i: int) -> bool {
    &&& 0 <= i < stops.len() - 1
    &&& encloses(stops, i, position)
    &&& forall|k: int| 0 <= k < i ==> !encloses(stops, k, position)
}

/// What a gradient of the given stops shows at a position: nothing without
/// stops, its colour with one, otherwise the mix of the first two neighbours
/// around the position, or the first colour before and the last colour behind
/// them all.
pub open spec fn blend_at(stops: Seq<Stop>, position: Single) -> Blend {
    if stops.len() == 0 {
        Blend::Solid(Colour::spec_black())
    } else if stops.len() == 1 {
        Blend::Solid(stops[0].0)
    } else if exists|i: int| first_enclosing(stops, position, i) {
        let i = choose|i: int| first_enclosing(stops, position, i);
        Blend::Between(stops[i], stops[i + 1])
    } else if position.below(stops[0].1) {
        Blend::Solid(stops[0].0)
    } else {
        Blend::Solid(stops.last().0)
    }
}

/// What a gradient of the given stops shows at each of the positions, and at
/// its end.
pub open spec fn bar_of(stops: Seq<Stop>, positions: Seq<Single>) -> Seq<Blend> {
    positions.map_values(|p: Single| blend_at(stops, p)).push(
        blend_at(stops, Single::spec_one()),
    )
}

impl Gradient {
    /// What the gradient shows at a position.
    pub fn interpolate(&self, position: Single) -> (r: Blend)
        ensures
            r == blend_at(self@, position),
    {
        let len: usize = self.colours.len();
        if len == 0 {
            return Blend::Solid(Colour::black());
        } else if len == 1 {
            return Blend::Solid(self.colours[0].0);
        }
        let mut i: usize = 0;
        while i < len - 1
            invariant
                len == self@.len(),
                len > 1,
                i <= len - 1,
                forall|k: int| 0 <= k < i ==> !encloses(self@, k, position),
            decreases len - i,
        {
            let left = self.colours[i];
            let right = self.colours[i + 1];
            if left.1.le(position) && position.le(right.1) {
                proof {
                    assert(first_enclosing(self@, position, i as int));
                    let c = choose|c: int| first_enclosing(self@, position, c);
                    assert(!(c < i) && !(i < c));
                }
                return Blend::Between(left, right);
            }
            i = i + 1;
        }
        assert(forall|c: int| !first_enclosing(self@, position, c));
        if position.lt(self.colours[0].1) {
            Blend::Solid(self.colours[0].0)
        } else {
            Blend::Solid(self.colours[len - 1].0)
        }
    }

    /// What the gradient shows at each of the positions, and at its end.
    pub fn bar(&self, positions: &Vec<Single>) -> (r: Vec<Blend>)
        ensures
            r@ == bar_of(self@, positions@),
            r@.len() == positions@.len() + 1,
            forall|i: int|
                0 <= i < positions@.len() ==> #[trigger] r@[i] == blend_at(self@, positions@[i]),
            r@.last() == blend_at(self@, Single::spec_one()),
    {
        let mut colours: Vec<Blend> = Vec::new();
        let mut i: usize = 0;
        while i < positions.len()
            invariant
                i <= positions.len(),
                colours@.len() == i,
                forall|k: int|
                    0 <= k < i ==> #[trigger] colours@[k] == blend_at(self@, positions@[k]),
            decreases positions.len() - i,
        {
            colours.push(self.interpolate(positions[i]));
            i = i + 1;
        }
        colours.push(self.interpolate(Single::one()));
        assert(colours@ =~= bar_of(self@, positions@));
        colours
    }
}

/// A gradient without colours is black everywhere, and one of a single colour
/// shows it everywhere, wherever it stands.
pub proof fn lemma_blend_of_few(stops: Seq<Stop>, position: Single)
    ensures
        stops.len() == 0 ==> blend_at(stops, position) == Blend::Solid(
            Colour { red: 0, green: 0, blue: 0 },
        ),
        stops.len() == 1 ==> blend_at(stops, position) == Blend::Solid(stops[0].0),
{
}

/// With two colours or more, the first two neighbours with the position between
/// them or on them are shown mixed. Where there are none, a position before the
/// first colour shows the first, and any other the last.
pub proof fn lemma_blend_of_many(stops: Seq<Stop>, position: Single, i: int)
    requires
        stops.len() > 1,
        0 <= i < stops.len() - 1,
    ensures
        ({
            let around = |k: int|
                stops[k].1.at_most(position) && position.at_most(stops[k + 1].1);
            &&& around(i) && (forall|k: int| 0 <= k < i ==> !(#[trigger] around(k))) ==> blend_at(
                stops,
                position,
            ) == Blend::Between(stops[i], stops[i + 1])
            &&& (forall|k: int| 0 <= k < stops.len() - 1 ==> !(#[trigger] around(k))) ==> blend_at(
                stops,
                position,
            ) == Blend::Solid(
                if position.below(stops[0].1) {
                    stops[0].0
                } else {
                    stops[stops.len() - 1].0
                },
            )
        }),
{
    let around = |k: int| stops[k].1.at_most(position) && position.at_most(stops[k + 1].1);
    assert(forall|k: int| around(k) == encloses(stops, k, position));
    if around(i) && (forall|k: int| 0 <= k < i ==> !(#[trigger] around(k))) {
        assert forall|k: int| 0 <= k < i implies !encloses(stops, k, position) by {
            assert(!around(k));
        }
        assert(first_enclosing(stops, position, i));
        let c = choose|c: int| first_enclosing(stops, position, c);
        assert(!(c < i) && !(i < c));
    }
    if forall|k: int| 0 <= k < stops.len() - 1 ==> !(#[trigger] around(k)) {
        assert forall|c: int| !first_enclosing(stops, position, c) by {
            if 0 <= c < stops.len() - 1 {
                assert(!around(c));
            }
        }
    }
}

/// A bar shows what the gradient shows at each of its positions, in their
/// order, and at last what it shows at one.
pub proof fn lemma_bar_follows_positions(stops: Seq<Stop>, positions: Seq<Single>, i: int)
    requires
        0 <= i < positions.len(),
    ensures
        bar_of(stops, positions).len() == positions.len() + 1,
        bar_of(stops, positions)[i] == blend_at(stops, positions[i]),
        bar_of(stops, positions).last() == blend_at(stops, Single { bits: 0x3f80_0000 }),
        bar_of(stops, Seq::empty()) == seq![blend_at(stops, Single { bits: 0x3f80_0000 })],
{
    assert(bar_of(stops, Seq::empty()) =~= seq![blend_at(stops, Single { bits: 0x3f80_0000 })]);
}

/// A position is refused exactly if it is not a number, or below zero, or above
/// one.
pub proof fn lemma_refused_positions(position: Single)
    ensures
        outside(position) <==> position.nan() || position.below(Single { bits: 0 }) || (Single {
            bits: 0x3f80_0000,
        }).below(position),
{
}

/// Stops can be sorted exactly if there are less than two, or all their
/// positions are numbers.
pub proof fn lemma_sortable_stops(stops: Seq<Stop>)
    ensures
        stops.len() <= 1 ==> sortable(stops),
        in_order(stops) ==> sortable(stops),
        stops.len() > 1 && sortable(stops) ==> !stops[0].1.nan() && !stops.last().1.nan(),
{
    if in_order(stops) {
        assert forall|i: int| 0 <= i < stops.len() implies !(#[trigger] stops[i]).1.nan() by {
            assert(in_range(stops[i].1));
        }
    }
}

/// On a gradient in order, a position between the first and the last stop is
/// shown as a mix of two neighbours that enclose it, a position before them
/// as the first colour and one behind them as the last.
pub proof fn lemma_blend_follows_order(stops: Seq<Stop>, position: Single)
    requires
        in_order(stops),
        stops.len() > 1,
        !position.nan(),
    ensures
        stops[0].1.at_most(position) && position.at_most(stops.last().1) ==> exists|i: int|
            0 <= i < stops.len() - 1 && #[trigger] encloses(stops, i, position) && blend_at(
                stops,
                position,
            ) == Blend::Between(stops[i], stops[i + 1]),
        position.below(stops[0].1) ==> blend_at(stops, position) == Blend::Solid(stops[0].0),
        stops.last().1.below(position) ==> blend_at(stops, position) == Blend::Solid(
            stops.last().0,
        ),
{
    assert forall|i: int| 0 <= i < stops.len() implies !(#[trigger] stops[i]).1.nan() by {
        assert(in_range(stops[i].1));
    }
    if stops[0].1.at_most(position) && position.at_most(stops.last().1) {
        lemma_enclosed(stops, position, stops.len() - 1);
    } else {
        assert forall|i: int| !first_enclosing(stops, position, i) by {
            if 0 <= i < stops.len() - 1 {
                assert(stops[0].1.rank() <= stops[i].1.rank());
                assert(stops[i + 1].1.rank() <= stops[stops.len() - 1].1.rank());
            }
        }
    }
}

/// A position between the first stop and the one at `last` has a first pair of
/// neighbours around it.
proof fn lemma_enclosed(stops: Seq<Stop>, position: Single, last: int)
    requires
        1 <= last < stops.len(),
        forall|i: int| 0 <= i < stops.len() ==> !(#[trigger] stops[i]).1.nan(),
        stops[0].1.at_most(position),
        position.at_most(stops[last].1),
    ensures
        exists|i: int| first_enclosing(stops, position, i),
    decreases last,
{
    if exists|k: int| 0 <= k < last - 1 && #[trigger] encloses(stops, k, position) {
        let k = choose|k: int| 0 <= k < last - 1 && #[trigger] encloses(stops, k, position);
        lemma_enclosed(stops, position, k + 1);
    } else if stops[last - 1].1.at_most(position) {
        assert(encloses(stops, last - 1, position));
        assert(first_enclosing(stops, position, last - 1));
    } else {
        assert(position.at_most(stops[last - 1].1));
        assert(last - 1 > 0);
        lemma_enclosed(stops, position, last - 1);
    }
}

} // verus!
