use vstd::prelude::*;
use crate::error::ReadingError;
use crate::reading::{
    Age, Line, Polarity, Reading, bit_of, figure_number, flip, has_changing, is_changing,
    transformed_lines,
};

verus! {

/// Bit `i` of `v`, as a polarity: yang for one, yin for zero.
pub open spec fn bit_polarity(v: u8, i: u8) -> Polarity {
    if (v >> i) & 1u8 == 1u8 {
        Polarity::Yang
    } else {
        Polarity::Yin
    }
}

/// The figure of young lines whose polarities are the six low bits of `v`,
/// bit `i` at position `i`.
pub open spec fn young_figure(v: u8) -> Seq<Line> {
    Seq::new(6, |i: int| Line { age: Age::Young, polarity: bit_polarity(v, i as u8) })
}

/// Line `i` of the figure that changes from the bits of `s` to the bits of
/// `t`: old with the polarity of `s` where the two bits differ, young with the
/// shared polarity where they agree.
pub open spec fn transition_line(s: u8, t: u8, i: u8) -> Line {
    if bit_polarity(s, i) != bit_polarity(t, i) {
        Line { age: Age::Old, polarity: bit_polarity(s, i) }
    } else {
        Line { age: Age::Young, polarity: bit_polarity(s, i) }
    }
}

/// The figure that changes from the figure of bits `s` to the figure of bits `t`.
pub open spec fn transition_figure(s: u8, t: u8) -> Seq<Line> {
    Seq::new(6, |i: int| transition_line(s, t, i as u8))
}

proof fn lemma_six_bits(v: u8)
    requires
        v < 64,
    ensures
        v == ((v >> 0u8) & 1u8) + 2 * ((v >> 1u8) & 1u8) + 4 * ((v >> 2u8) & 1u8) + 8 * ((v
            >> 3u8) & 1u8) + 16 * ((v >> 4u8) & 1u8) + 32 * ((v >> 5u8) & 1u8),
        (v >> 0u8) & 1u8 <= 1,
        (v >> 1u8) & 1u8 <= 1,
        (v >> 2u8) & 1u8 <= 1,
        (v >> 3u8) & 1u8 <= 1,
        (v >> 4u8) & 1u8 <= 1,
        (v >> 5u8) & 1u8 <= 1,
{
    assert(v == ((v >> 0u8) & 1u8) + 2 * ((v >> 1u8) & 1u8) + 4 * ((v >> 2u8) & 1u8) + 8 * ((v
        >> 3u8) & 1u8) + 16 * ((v >> 4u8) & 1u8) + 32 * ((v >> 5u8) & 1u8)) by (bit_vector)
        requires
            v < 64,
    ;
    assert((v >> 0u8) & 1u8 <= 1 && (v >> 1u8) & 1u8 <= 1 && (v >> 2u8) & 1u8 <= 1 && (v >> 3u8)
        & 1u8 <= 1 && (v >> 4u8) & 1u8 <= 1 && (v >> 5u8) & 1u8 <= 1) by (bit_vector);
}

/// The number of a figure depends only on its polarities.
proof fn lemma_number_by_polarities(a: Seq<Line>, b: Seq<Line>)
    requires
        a.len() == 6,
        b.len() == 6,
        forall|i: int| 0 <= i < 6 ==> (#[trigger] a[i]).polarity == b[i].polarity,
    ensures
        figure_number(a) == figure_number(b),
{
    assert(a[0].polarity == b[0].polarity);
    assert(a[1].polarity == b[1].polarity);
    assert(a[2].polarity == b[2].polarity);
    assert(a[3].polarity == b[3].polarity);
    assert(a[4].polarity == b[4].polarity);
    assert(a[5].polarity == b[5].polarity);
}

/// The figure built from the bits of `v` has number `v + 1`.
proof fn lemma_young_figure_number(v: u8)
    requires
        v < 64,
    ensures
        figure_number(young_figure(v)) == v + 1,
{
    lemma_six_bits(v);
    let f = young_figure(v);
    assert(bit_of(f[0].polarity) == (v >> 0u8) & 1u8);
    assert(bit_of(f[1].polarity) == (v >> 1u8) & 1u8);
    assert(bit_of(f[2].polarity) == (v >> 2u8) & 1u8);
    assert(bit_of(f[3].polarity) == (v >> 3u8) & 1u8);
    assert(bit_of(f[4].polarity) == (v >> 4u8) & 1u8);
    assert(bit_of(f[5].polarity) == (v >> 5u8) & 1u8);
}

/// Turning a number into its figure and back gives the number again.
pub proof fn lemma_identifier_round_trip(id: u8)
    requires
        1 <= id <= 64,
    ensures
        figure_number(young_figure((id - 1) as u8)) == id,
{
    lemma_young_figure_number((id - 1) as u8);
}

/// Of two figures that agree in every bit, the numbers agree too.
proof fn lemma_equal_bits(s: u8, t: u8)
    requires
        s < 64,
        t < 64,
        forall|i: u8| i < 6 ==> #[trigger] bit_polarity(s, i) == bit_polarity(t, i),
    ensures
        s == t,
{
    lemma_young_figure_number(s);
    lemma_young_figure_number(t);
    lemma_number_by_polarities(young_figure(s), young_figure(t));
}

/// The figure of a transition has the source's number; transformed, it has
/// the target's number; and it has changing lines exactly when the two differ.
pub proof fn lemma_transition(s: u8, t: u8)
    requires
        s < 64,
        t < 64,
    ensures
        figure_number(transition_figure(s, t)) == s + 1,
        figure_number(transformed_lines(transition_figure(s, t))) == t + 1,
        has_changing(transition_figure(s, t)) <==> s != t,
{
    let f = transition_figure(s, t);
    let g = transformed_lines(f);
    lemma_young_figure_number(s);
    lemma_young_figure_number(t);
    assert forall|i: int| 0 <= i < 6 implies (#[trigger] f[i]).polarity == young_figure(s)[i].polarity
        && g[i].polarity == young_figure(t)[i].polarity by {
        let a = bit_polarity(s, i as u8);
        let b = bit_polarity(t, i as u8);
        assert(a != b ==> flip(a) == b);
    }
    lemma_number_by_polarities(f, young_figure(s));
    lemma_number_by_polarities(g, young_figure(t));
    if s != t {
        if forall|i: u8| i < 6 ==> #[trigger] bit_polarity(s, i) == bit_polarity(t, i) {
            lemma_equal_bits(s, t);
        }
        let i = choose|i: u8| i < 6 && #[trigger] bit_polarity(s, i) != bit_polarity(t, i);
        assert(is_changing(f[i as int]));
    } else {
        assert forall|i: int| 0 <= i < 6 implies !#[trigger] is_changing(f[i]) by {}
    }
}

/// The figure of young lines with number `id`; a number outside 1 to 64 is
/// refused.
pub fn create_reading_from_hexagram_number(id: u8) -> (r: Result<Reading, ReadingError>)
    ensures
        (1 <= id <= 64) <==> r is Ok,
        r is Ok ==> r->Ok_0.lines@ == young_figure((id - 1) as u8) && r->Ok_0.question is None,
        r is Err ==> r->Err_0 == ReadingError::OutOfRange(id),
{
    if id < 1 || id > 64 {
        return Err(ReadingError::OutOfRange(id));
    }
    let v: u8 = id - 1;
    let mut lines = [Line::new(Age::Young, Polarity::Yin); 6];
    let mut i: usize = 0;
    while i < 6
        invariant
            i <= 6,
            forall|j: int| 0 <= j < i ==> lines@[j] == young_figure(v)[j],
        decreases 6 - i,
    {
        let bit: u8 = (v >> (i as u8)) & 1;
        lines[i] = Line::new(
            Age::Young,
            if bit == 1 {
                Polarity::Yang
            } else {
                Polarity::Yin
            },
        );
        i += 1;
    }
    assert(lines@ =~= young_figure(v));
    Ok(Reading::new(lines, None))
}

/// The figure that changes from figure `from` into figure `to`: its number is
/// `from`, it has changing lines exactly when `to` differs, and transformed it
/// has number `to`. A number outside 1 to 64 is refused, `from` first.
pub fn create_changing_reading_from_numbers(from: u8, to: u8) -> (r: Result<Reading, ReadingError>)
    ensures
        (1 <= from <= 64 && 1 <= to <= 64) <==> r is Ok,
        r is Ok ==> {
            let f = r->Ok_0.lines@;
            &&& f == transition_figure((from - 1) as u8, (to - 1) as u8)
            &&& r->Ok_0.question is None
            &&& figure_number(f) == from
            &&& has_changing(f) <==> from != to
            &&& figure_number(transformed_lines(f)) == to
        },
        !(1 <= from <= 64) ==> r == Err::<Reading, ReadingError>(ReadingError::OutOfRange(from)),
        1 <= from <= 64 && !(1 <= to <= 64) ==> r == Err::<Reading, ReadingError>(
            ReadingError::OutOfRange(to),
        ),
{
    if from < 1 || from > 64 {
        return Err(ReadingError::OutOfRange(from));
    }
    if to < 1 || to > 64 {
        return Err(ReadingError::OutOfRange(to));
    }
    let s: u8 = from - 1;
    let t: u8 = to - 1;
    let mut lines = [Line::new(Age::Young, Polarity::Yin); 6];
    let mut i: usize = 0;
    while i < 6
        invariant
            i <= 6,
            forall|j: int| 0 <= j < i ==> lines@[j] == transition_figure(s, t)[j],
        decreases 6 - i,
    {
        let from_polarity = if (s >> (i as u8)) & 1 == 1 {
            Polarity::Yang
        } else {
            Polarity::Yin
        };
        let to_polarity = if (t >> (i as u8)) & 1 == 1 {
            Polarity::Yang
        } else {
            Polarity::Yin
        };
        if from_polarity != to_polarity {
            lines[i] = Line::new(Age::Old, from_polarity);
        } else {
            lines[i] = Line::new(Age::Young, from_polarity);
        }
        i += 1;
    }
    assert(lines@ =~= transition_figure(s, t));
    proof {
        lemma_transition(s, t);
    }
    let reading = Reading::new(lines, None);
    if reading.primary_hexagram() != from {
        return Err(ReadingError::TransitionReconciliationInconsistent);
    }
    match reading.transformed_hexagram() {
        Some(transformed) => {
            if transformed.primary_hexagram() != to {
                return Err(ReadingError::TransitionReconciliationInconsistent);
            }
        },
        None => {
            if from != to {
                return Err(ReadingError::TransitionReconciliationInconsistent);
            }
        },
    }
    Ok(reading)
}

} // verus!
