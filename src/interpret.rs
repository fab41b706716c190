use vstd::prelude::*;
use crate::data::{IChingData, Hexagram, glyph_number, lemma_glyph_in_range};
use crate::divination::Diviner;
use crate::error::ReadingError;
use crate::figure::{
    lemma_transition, create_changing_reading_from_numbers, create_reading_from_hexagram_number, transition_figure,
    young_figure,
};
use crate::reading::{Line, Reading, figure_number, has_changing, is_line_code, line_of_code, transformed_lines};
use crate::text::{
    chars_of, comma_parts, find, parse_u8, parse_u8_chars, find_chars, slice, split_commas, trim,
    trim_bounds, trim_chars,
};

verus! {

/// The arrow between source and target.
pub open spec fn arrow() -> Seq<char> {
    seq!['→']
}

/// The two-character stand-in for the arrow.
pub open spec fn ascii_arrow() -> Seq<char> {
    seq!['-', '>']
}

pub open spec fn in_range(n: u8) -> bool {
    1 <= n <= 64
}

/// The numbers of source `a` and target `b`: both numbers from 1 to 64, or
/// else both single glyphs of the reference data.
pub open spec fn transition_pair(hs: Map<u8, Hexagram>, a: Seq<char>, b: Seq<char>) -> Option<(u8, u8)> {
    if parse_u8(a) is Some && parse_u8(b) is Some && in_range(parse_u8(a)->Some_0) && in_range(
        parse_u8(b)->Some_0,
    ) {
        Some((parse_u8(a)->Some_0, parse_u8(b)->Some_0))
    } else if a.len() == 1 && b.len() == 1 && glyph_number(hs, a[0]) is Some && glyph_number(
        hs,
        b[0],
    ) is Some {
        Some((glyph_number(hs, a[0])->Some_0, glyph_number(hs, b[0])->Some_0))
    } else {
        None
    }
}

/// The transition that `t` names when split at the first `sep`.
pub open spec fn split_transition(hs: Map<u8, Hexagram>, t: Seq<char>, sep: Seq<char>) -> Option<
    (u8, u8),
> {
    match find(t, sep) {
        Some(p) => transition_pair(
            hs,
            trim(t.subrange(0, p)),
            trim(t.subrange(p + sep.len(), t.len() as int)),
        ),
        None => None,
    }
}

/// The transition that `t` names: split at the arrow, or else at its stand-in.
pub open spec fn transition_request(hs: Map<u8, Hexagram>, t: Seq<char>) -> Option<(u8, u8)> {
    match split_transition(hs, t, arrow()) {
        Some(q) => Some(q),
        None => split_transition(hs, t, ascii_arrow()),
    }
}

/// The code written by one comma-separated part.
pub open spec fn part_code(p: Seq<char>) -> Option<u8> {
    parse_u8(trim(p))
}

/// The six line codes that `t` lists between commas, if it lists exactly six
/// valid ones.
pub open spec fn line_codes(t: Seq<char>) -> Option<Seq<u8>> {
    let parts = comma_parts(t);
    if t.contains(',') && parts.len() == 6 && (forall|i: int|
        0 <= i < 6 ==> #[trigger] part_code(parts[i]) is Some && is_line_code(
            part_code(parts[i])->Some_0 as int,
        )) {
        Some(Seq::new(6, |i: int| part_code(parts[i])->Some_0))
    } else {
        None
    }
}

/// The figure that the trimmed text `t` stands for, trying in turn a
/// transition, a figure number, a glyph and six line codes.
pub open spec fn resolve(hs: Map<u8, Hexagram>, t: Seq<char>) -> Option<Seq<Line>> {
    if transition_request(hs, t) is Some {
        let (a, b) = transition_request(hs, t)->Some_0;
        Some(transition_figure((a - 1) as u8, (b - 1) as u8))
    } else if parse_u8(t) is Some && in_range(parse_u8(t)->Some_0) {
        Some(young_figure((parse_u8(t)->Some_0 - 1) as u8))
    } else if t.len() == 1 && glyph_number(hs, t[0]) is Some {
        Some(young_figure((glyph_number(hs, t[0])->Some_0 - 1) as u8))
    } else if line_codes(t) is Some {
        Some(Seq::new(6, |i: int| line_of_code(line_codes(t)->Some_0[i] as int)))
    } else {
        None
    }
}

/// The numbers of `a` and `b` as a transition, executable.
fn pair_of(data: &IChingData, a: &Vec<char>, b: &Vec<char>) -> (r: Option<(u8, u8)>)
    ensures
        r == transition_pair(data.hexagrams@, a@, b@),
        r matches Some((x, y)) ==> in_range(x) && in_range(y),
{
    let x = parse_u8_chars(a);
    let y = parse_u8_chars(b);
    if let (Some(x), Some(y)) = (x, y) {
        if 1 <= x && x <= 64 && 1 <= y && y <= 64 {
            return Some((x, y));
        }
    }
    if a.len() == 1 && b.len() == 1 {
        proof {
            lemma_glyph_in_range(data.hexagrams@, a@[0]);
            lemma_glyph_in_range(data.hexagrams@, b@[0]);
        }
        let x = data.unicode_to_hexagram_number(a[0]);
        let y = data.unicode_to_hexagram_number(b[0]);
        if let (Some(x), Some(y)) = (x, y) {
            return Some((x, y));
        }
    }
    None
}

/// The transition named by `t` split at the first `sep`, executable.
fn split_at_separator(data: &IChingData, t: &Vec<char>, sep: &Vec<char>) -> (r: Option<(u8, u8)>)
    ensures
        r == split_transition(data.hexagrams@, t@, sep@),
        r matches Some((x, y)) ==> in_range(x) && in_range(y),
{
    let n = t.len();
    match find_chars(t, sep) {
        Some(p) => {
            let from = trim_chars(&slice(t, 0, p));
            let to = trim_chars(&slice(t, p + sep.len(), n));
            pair_of(data, &from, &to)
        },
        None => None,
    }
}

/// The figure of a transition written `source→target` or `source->target`,
/// with figure numbers or glyphs on both sides; none where `t` is no such
/// transition.
pub fn try_parse_changing_hexagram(data: &IChingData, t: &Vec<char>) -> (r: Result<
    Option<Reading>,
    ReadingError,
>)
    ensures
        r is Ok,
        transition_request(data.hexagrams@, t@) is None ==> r->Ok_0 is None,
        transition_request(data.hexagrams@, t@) matches Some((a, b)) ==> (r->Ok_0 matches Some(
            reading,
        ) && {
            let f = reading.lines@;
            &&& f == transition_figure((a - 1) as u8, (b - 1) as u8)
            &&& reading.question is None
            &&& figure_number(f) == a
            &&& has_changing(f) <==> a != b
            &&& figure_number(transformed_lines(f)) == b
        }),
{
    let arrow_sep = vec!['→'];
    let ascii_sep = vec!['-', '>'];
    assert(arrow_sep@ =~= arrow());
    assert(ascii_sep@ =~= ascii_arrow());
    let pair = match split_at_separator(data, t, &arrow_sep) {
        Some(q) => Some(q),
        None => split_at_separator(data, t, &ascii_sep),
    };
    match pair {
        Some((a, b)) => {
            match create_changing_reading_from_numbers(a, b) {
                Ok(reading) => Ok(Some(reading)),
                Err(e) => Err(e),
            }
        },
        None => Ok(None),
    }
}

/// Whether `c` occurs in `t`.
fn contains_char(t: &Vec<char>, c: char) -> (r: bool)
    ensures
        r == t@.contains(c),
{
    let mut i: usize = 0;
    while i < t.len()
        invariant
            i <= t@.len(),
            forall|j: int| 0 <= j < i ==> t@[j] != c,
        decreases t@.len() - i,
    {
        if t[i] == c {
            return true;
        }
        i += 1;
    }
    false
}

/// The six line codes that `t` lists between commas.
fn parse_line_codes(t: &Vec<char>) -> (r: Option<[u8; 6]>)
    ensures
        r matches Some(codes) ==> line_codes(t@) == Some(codes@),
        r is None ==> line_codes(t@) is None,
{
    if !contains_char(t, ',') {
        return None;
    }
    let parts = split_commas(t);
    let ghost pv = parts@.map_values(|p: Vec<char>| p@);
    assert(pv.len() == parts@.len());
    if parts.len() != 6 {
        return None;
    }
    let mut codes: [u8; 6] = [0; 6];
    let mut i: usize = 0;
    while i < 6
        invariant
            i <= 6,
            parts@.len() == 6,
            pv == parts@.map_values(|p: Vec<char>| p@),
            pv == comma_parts(t@),
            t@.contains(','),
            forall|j: int|
                0 <= j < i ==> #[trigger] part_code(pv[j]) == Some(codes@[j]) && is_line_code(
                    codes@[j] as int,
                ),
        decreases 6 - i,
    {
        assert(pv[i as int] == parts@[i as int]@);
        let code = parse_u8_chars(&trim_chars(&parts[i]));
        match code {
            Some(c) => {
                if c < 6 || c > 9 {
                    assert(!is_line_code(part_code(pv[i as int])->Some_0 as int));
                    return None;
                }
                codes[i] = c;
            },
            None => {
                assert(part_code(pv[i as int]) is None);
                return None;
            },
        }
        i += 1;
    }
    assert(line_codes(t@) is Some);
    assert(line_codes(t@)->Some_0 =~= codes@);
    Some(codes)
}

/// The figure that `input` stands for, once trimmed: a transition
/// (`source→target` or `source->target`, with numbers or glyphs), a figure
/// number from 1 to 64, a single glyph, or six comma-separated line codes,
/// tried in that order. Any other text is refused, and the error carries it trimmed.
pub fn parse_input_and_create_reading(diviner: &mut Diviner, data: &IChingData, input: &str) -> (r:
    Result<Reading, ReadingError>)
    ensures
        resolve(data.hexagrams@, trim(input@)) matches Some(f) ==> (r matches Ok(reading)
            && reading.lines@ == f && reading.question is None),
        resolve(data.hexagrams@, trim(input@)) is None ==> (r matches Err(
            ReadingError::UnrecognizedInput(text),
        ) && text@ == trim(input@)),
{
    let all = chars_of(input);
    let (lo, hi) = trim_bounds(&all);
    let t = slice(&all, lo, hi);
    match try_parse_changing_hexagram(data, &t) {
        Ok(Some(reading)) => {
            return Ok(reading);
        },
        Ok(None) => {},
        Err(e) => {
            return Err(e);
        },
    }
    if let Some(n) = parse_u8_chars(&t) {
        if 1 <= n && n <= 64 {
            return create_reading_from_hexagram_number(n);
        }
    }
    if t.len() == 1 {
        proof {
            lemma_glyph_in_range(data.hexagrams@, t@[0]);
        }
        if let Some(n) = data.unicode_to_hexagram_number(t[0]) {
            return create_reading_from_hexagram_number(n);
        }
    }
    if let Some(codes) = parse_line_codes(&t) {
        let r = diviner.cast_reading_from_numbers(codes, None);
        assert(r is Ok);
        assert(r->Ok_0.lines@ =~= Seq::new(6, |i: int| line_of_code(codes@[i] as int)));
        return r;
    }
    Err(ReadingError::UnrecognizedInput(String::from_str(input.substring_char(lo, hi))))
}

proof fn lemma_split_in_range(hs: Map<u8, Hexagram>, t: Seq<char>, sep: Seq<char>)
    ensures
        split_transition(hs, t, sep) matches Some((a, b)) ==> in_range(a) && in_range(b),
{
    if let Some(p) = find(t, sep) {
        let x = trim(t.subrange(0, p));
        let y = trim(t.subrange(p + sep.len(), t.len() as int));
        if x.len() == 1 && y.len() == 1 {
            lemma_glyph_in_range(hs, x[0]);
            lemma_glyph_in_range(hs, y[0]);
        }
    }
}

/// A text that names a transition from figure `a` to figure `b` resolves to
/// a figure numbered `a` which, transformed, is numbered `b`, and which has
/// changing lines exactly when `a` and `b` differ.
pub proof fn lemma_resolved_transition(hs: Map<u8, Hexagram>, t: Seq<char>)
    requires
        transition_request(hs, t) is Some,
    ensures
        ({
            let (a, b) = transition_request(hs, t)->Some_0;
            &&& resolve(hs, t) is Some
            &&& figure_number(resolve(hs, t)->Some_0) == a
            &&& figure_number(transformed_lines(resolve(hs, t)->Some_0)) == b
            &&& has_changing(resolve(hs, t)->Some_0) <==> a != b
        }),
{
    lemma_split_in_range(hs, t, arrow());
    lemma_split_in_range(hs, t, ascii_arrow());
    let (a, b) = transition_request(hs, t)->Some_0;
    lemma_transition((a - 1) as u8, (b - 1) as u8);
}

} // verus!
