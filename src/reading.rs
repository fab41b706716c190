use vstd::prelude::*;
use crate::error::ReadingError;

verus! {

/// Whether a line is stable (young) or changing (old).
#[derive(Debug, Clone, Copy, PartialEq, Eq, Structural)]
pub enum Age {
    Young,
    Old,
}

/// The two opposing states of a line.
#[derive(Debug, Clone, Copy, PartialEq, Eq, Structural)]
pub enum Polarity {
    Yang,
    Yin,
}

/// One line of a figure.
#[derive(Debug, Clone, Copy, PartialEq, Eq, Structural)]
pub struct Line {
    pub age: Age,
    pub polarity: Polarity,
}

/// The traditional code of a line: 6, 7, 8 or 9.
pub open spec fn line_code(l: Line) -> int {
    match (l.age, l.polarity) {
        (Age::Old, Polarity::Yin) => 6,
        (Age::Young, Polarity::Yang) => 7,
        (Age::Young, Polarity::Yin) => 8,
        (Age::Old, Polarity::Yang) => 9,
    }
}

/// The line that a code stands for, for the four valid codes.
pub open spec fn line_of_code(n: int) -> Line
    recommends
        6 <= n <= 9,
{
    if n == 6 {
        Line { age: Age::Old, polarity: Polarity::Yin }
    } else if n == 7 {
        Line { age: Age::Young, polarity: Polarity::Yang }
    } else if n == 8 {
        Line { age: Age::Young, polarity: Polarity::Yin }
    } else {
        Line { age: Age::Old, polarity: Polarity::Yang }
    }
}

pub open spec fn is_line_code(n: int) -> bool {
    6 <= n <= 9
}

pub open spec fn flip(p: Polarity) -> Polarity {
    match p {
        Polarity::Yang => Polarity::Yin,
        Polarity::Yin => Polarity::Yang,
    }
}

/// An old line flips its polarity and becomes young; a young line stays.
pub open spec fn transformed_line(l: Line) -> Line {
    match l.age {
        Age::Old => Line { age: Age::Young, polarity: flip(l.polarity) },
        Age::Young => l,
    }
}

pub open spec fn is_changing(l: Line) -> bool {
    l.age == Age::Old
}

/// The bit that a polarity contributes to a figure's number.
pub open spec fn bit_of(p: Polarity) -> int {
    match p {
        Polarity::Yang => 1,
        Polarity::Yin => 0,
    }
}

/// The number of a figure: its polarities read as six bits, the bottom line
/// least significant, plus one.
pub open spec fn figure_number(lines: Seq<Line>) -> int {
    1 + bit_of(lines[0].polarity) + 2 * bit_of(lines[1].polarity) + 4 * bit_of(lines[2].polarity)
        + 8 * bit_of(lines[3].polarity) + 16 * bit_of(lines[4].polarity) + 32 * bit_of(
        lines[5].polarity,
    )
}

/// The 1-based positions of the old lines among the first `n`, ascending.
pub open spec fn changing_upto(lines: Seq<Line>, n: int) -> Seq<u8>
    decreases n,
{
    if n <= 0 {
        Seq::empty()
    } else if is_changing(lines[n - 1]) {
        changing_upto(lines, n - 1).push(n as u8)
    } else {
        changing_upto(lines, n - 1)
    }
}

/// The 1-based positions of the old lines of a figure, ascending.
pub open spec fn changing_positions(lines: Seq<Line>) -> Seq<u8> {
    changing_upto(lines, 6)
}

pub open spec fn has_changing(lines: Seq<Line>) -> bool {
    exists|i: int| 0 <= i < 6 && #[trigger] is_changing(lines[i])
}

/// Every line of a figure transformed.
pub open spec fn transformed_lines(lines: Seq<Line>) -> Seq<Line> {
    lines.map_values(|l: Line| transformed_line(l))
}

/// The drawing of a line: solid for yang, broken for yin, with a mark when old.
pub open spec fn line_symbol(l: Line) -> Seq<char> {
    match (l.age, l.polarity) {
        (Age::Young, Polarity::Yang) => "━━━━━━"@,
        (Age::Young, Polarity::Yin) => "━━  ━━"@,
        (Age::Old, Polarity::Yang) => "━━━━━━ ○"@,
        (Age::Old, Polarity::Yin) => "━━  ━━ ×"@,
    }
}

impl Line {
    pub fn new(age: Age, polarity: Polarity) -> (r: Self)
        ensures
            r == (Line { age, polarity }),
    {
        Self { age, polarity }
    }

    /// The traditional code of this line.
    pub fn traditional_number(&self) -> (r: u8)
        ensures
            r as int == line_code(*self),
    {
        match (self.age, self.polarity) {
            (Age::Old, Polarity::Yin) => 6,
            (Age::Young, Polarity::Yang) => 7,
            (Age::Young, Polarity::Yin) => 8,
            (Age::Old, Polarity::Yang) => 9,
        }
    }

    /// The line of a traditional code; any code but 6, 7, 8 and 9 is refused.
    pub fn from_traditional_number(num: u8) -> (r: Result<Self, ReadingError>)
        ensures
            is_line_code(num as int) <==> r is Ok,
            r is Ok ==> r->Ok_0 == line_of_code(num as int),
            r is Err ==> r->Err_0 == ReadingError::InvalidLineCode(num),
    {
        match num {
            6 => Ok(Line::new(Age::Old, Polarity::Yin)),
            7 => Ok(Line::new(Age::Young, Polarity::Yang)),
            8 => Ok(Line::new(Age::Young, Polarity::Yin)),
            9 => Ok(Line::new(Age::Old, Polarity::Yang)),
            _ => Err(ReadingError::InvalidLineCode(num)),
        }
    }

    /// The line this one becomes when the figure changes.
    pub fn transform(&self) -> (r: Self)
        ensures
            r == transformed_line(*self),
    {
        match self.age {
            Age::Old => Line::new(
                Age::Young,
                match self.polarity {
                    Polarity::Yang => Polarity::Yin,
                    Polarity::Yin => Polarity::Yang,
                },
            ),
            Age::Young => *self,
        }
    }

    /// The drawing of this line.
    pub fn to_symbol(&self) -> (r: &'static str)
        ensures
            r@ == line_symbol(*self),
    {
        match (self.age, self.polarity) {
            (Age::Young, Polarity::Yang) => "━━━━━━",
            (Age::Young, Polarity::Yin) => "━━  ━━",
            (Age::Old, Polarity::Yang) => "━━━━━━ ○",
            (Age::Old, Polarity::Yin) => "━━  ━━ ×",
        }
    }
}

/// A figure of six lines, bottom first, with the question it answers.
#[derive(Debug, Clone)]
pub struct Reading {
    pub lines: [Line; 6],
    pub question: Option<String>,
}

/// The bit of a polarity, executable.
fn polarity_bit(p: Polarity) -> (r: u8)
    ensures
        r as int == bit_of(p),
{
    match p {
        Polarity::Yang => 1,
        Polarity::Yin => 0,
    }
}

impl Reading {
    pub fn new(lines: [Line; 6], question: Option<String>) -> (r: Self)
        ensures
            r.lines@ == lines@,
            r.question == question,
    {
        Self { lines, question }
    }

    /// The number of the figure, from 1 to 64.
    pub fn primary_hexagram(&self) -> (r: u8)
        ensures
            r as int == figure_number(self.lines@),
            1 <= r <= 64,
    {
        let l = &self.lines;
        1 + polarity_bit(l[0].polarity) + 2 * polarity_bit(l[1].polarity) + 4 * polarity_bit(
            l[2].polarity,
        ) + 8 * polarity_bit(l[3].polarity) + 16 * polarity_bit(l[4].polarity) + 32
            * polarity_bit(l[5].polarity)
    }

    /// The polarities of the upper three lines, bottom first.
    pub fn upper_trigram(&self) -> (r: [Polarity; 3])
        ensures
            r@ == seq![self.lines@[3].polarity, self.lines@[4].polarity, self.lines@[5].polarity],
    {
        let r = [self.lines[3].polarity, self.lines[4].polarity, self.lines[5].polarity];
        assert(r@ =~= seq![self.lines@[3].polarity, self.lines@[4].polarity, self.lines@[5].polarity]);
        r
    }

    /// The polarities of the lower three lines, bottom first.
    pub fn lower_trigram(&self) -> (r: [Polarity; 3])
        ensures
            r@ == seq![self.lines@[0].polarity, self.lines@[1].polarity, self.lines@[2].polarity],
    {
        let r = [self.lines[0].polarity, self.lines[1].polarity, self.lines[2].polarity];
        assert(r@ =~= seq![self.lines@[0].polarity, self.lines@[1].polarity, self.lines@[2].polarity]);
        r
    }

    /// Whether any line is old.
    pub fn has_changing_lines(&self) -> (r: bool)
        ensures
            r == has_changing(self.lines@),
    {
        let mut i: usize = 0;
        while i < 6
            invariant
                i <= 6,
                forall|j: int| 0 <= j < i ==> !is_changing(#[trigger] self.lines@[j]),
            decreases 6 - i,
        {
            if self.lines[i].age == Age::Old {
                assert(is_changing(self.lines@[i as int]));
                return true;
            }
            i += 1;
        }
        false
    }

    /// The 1-based positions of the old lines, ascending.
    pub fn changing_line_positions(&self) -> (r: Vec<u8>)
        ensures
            r@ == changing_positions(self.lines@),
    {
        let mut r: Vec<u8> = Vec::new();
        let mut i: usize = 0;
        while i < 6
            invariant
                i <= 6,
                r@ == changing_upto(self.lines@, i as int),
            decreases 6 - i,
        {
            if self.lines[i].age == Age::Old {
                r.push((i + 1) as u8);
            }
            i += 1;
        }
        r
    }

    /// The figure that the changing lines lead to, if there are any.
    pub fn transformed_hexagram(&self) -> (r: Option<Reading>)
        ensures
            r is Some <==> has_changing(self.lines@),
            r is Some ==> r->Some_0.lines@ == transformed_lines(self.lines@)
                && r->Some_0.question == self.question,
    {
        if !self.has_changing_lines() {
            return None;
        }
        let transformed = self.transformed_figure();
        let question = match &self.question {
            Some(q) => Some(q.clone()),
            None => None,
        };
        Some(Reading::new(transformed, question))
    }

    /// Every line transformed, whether or not any is old.
    pub fn transformed_figure(&self) -> (r: [Line; 6])
        ensures
            r@ == transformed_lines(self.lines@),
    {
        let l = &self.lines;
        let r = [
            l[0].transform(),
            l[1].transform(),
            l[2].transform(),
            l[3].transform(),
            l[4].transform(),
            l[5].transform(),
        ];
        assert(r@ =~= transformed_lines(self.lines@));
        r
    }

    /// The traditional codes of the six lines, bottom first.
    pub fn traditional_numbers(&self) -> (r: [u8; 6])
        ensures
            forall|i: int| 0 <= i < 6 ==> r@[i] as int == line_code(#[trigger] self.lines@[i]),
    {
        let l = &self.lines;
        [
            l[0].traditional_number(),
            l[1].traditional_number(),
            l[2].traditional_number(),
            l[3].traditional_number(),
            l[4].traditional_number(),
            l[5].traditional_number(),
        ]
    }
}

/// A valid code, turned into its line and back, is the same code.
pub proof fn lemma_code_round_trip(c: int)
    requires
        is_line_code(c),
    ensures
        line_code(line_of_code(c)) == c,
{
}

/// A transformed figure has no changing lines, so transforming it a second
/// time leaves no changing lines either.
pub proof fn lemma_transform_settles(lines: Seq<Line>)
    requires
        lines.len() == 6,
    ensures
        !has_changing(transformed_lines(lines)),
        changing_positions(transformed_lines(lines)) == Seq::<u8>::empty(),
        changing_positions(transformed_lines(transformed_lines(lines))) == Seq::<u8>::empty(),
{
    let once = transformed_lines(lines);
    let twice = transformed_lines(once);
    assert forall|i: int| 0 <= i < 6 implies !#[trigger] is_changing(once[i]) by {}
    assert forall|i: int| 0 <= i < 6 implies !#[trigger] is_changing(twice[i]) by {}
    lemma_no_changing_positions(once, 6);
    lemma_no_changing_positions(twice, 6);
}

proof fn lemma_no_changing_positions(lines: Seq<Line>, n: int)
    requires
        0 <= n <= lines.len(),
        forall|i: int| 0 <= i < n ==> !#[trigger] is_changing(lines[i]),
    ensures
        changing_upto(lines, n) == Seq::<u8>::empty(),
    decreases n,
{
    if n > 0 {
        lemma_no_changing_positions(lines, n - 1);
    }
}

} // verus!
