use vstd::prelude::*;
use crate::error::ReadingError;
use crate::reading::{Age, Line, Polarity, Reading, is_line_code, line_code, line_of_code};
use rand::rngs::ThreadRng;

verus! {

/// rand's handle to the generator of the current thread, carried opaque.
#[verifier::external_type_specification]
#[verifier::external_body]
pub struct ExThreadRng(ThreadRng);

/// Relies on rand::thread_rng: a handle to the generator of the current thread.
pub assume_specification[ rand::thread_rng ]() -> ThreadRng;

/// Relies on rand's `Rng::gen::<bool>`, whose `Standard` distribution is a
/// fair coin. Nothing is known of the outcome.
#[verifier::external_body]
fn toss_coin(rng: &mut ThreadRng) -> (heads: bool) {
    rand::Rng::gen::<bool>(rng)
}

/// What one coin contributes: three for heads, two for tails.
pub open spec fn coin_value(heads: bool) -> int {
    if heads {
        3
    } else {
        2
    }
}

/// The line that three coins give: the code is the sum of their values.
pub open spec fn coins_line(a: bool, b: bool, c: bool) -> Line {
    line_of_code(coin_value(a) + coin_value(b) + coin_value(c))
}

/// The outcomes of three coins that give the line with code `k`.
pub open spec fn outcomes_with_code(k: int) -> Set<(bool, bool, bool)> {
    Set::new(|o: (bool, bool, bool)| line_code(coins_line(o.0, o.1, o.2)) == k)
}

/// Of the eight equally likely outcomes of three fair coins, one gives 6,
/// three give 7, three give 8 and one gives 9: the chances of a line are
/// 1/8, 3/8, 3/8 and 1/8.
pub proof fn lemma_casting_distribution()
    ensures
        outcomes_with_code(6).len() == 1,
        outcomes_with_code(7).len() == 3,
        outcomes_with_code(8).len() == 3,
        outcomes_with_code(9).len() == 1,
{
    let (f, t) = (false, true);
    assert(outcomes_with_code(6) =~= set![(f, f, f)]);
    assert(outcomes_with_code(7) =~= set![(t, f, f), (f, t, f), (f, f, t)]);
    assert(outcomes_with_code(8) =~= set![(t, t, f), (t, f, t), (f, t, t)]);
    assert(outcomes_with_code(9) =~= set![(t, t, t)]);
}

/// Casts figures with a random source of its own. `log` records every coin
/// tossed so far, in order.
pub struct Diviner {
    rng: ThreadRng,
    log: Ghost<Seq<bool>>,
}

impl Diviner {
    /// The coins this diviner has tossed, in order (heads is `true`).
    pub closed spec fn toss_log(&self) -> Seq<bool> {
        self.log@
    }

    pub fn new() -> (r: Self)
        ensures
            r.toss_log() == Seq::<bool>::empty(),
    {
        Self { rng: rand::thread_rng(), log: Ghost(Seq::empty()) }
    }

    /// Casts six lines, bottom first, each from the next three coins tossed.
    pub fn cast_reading(&mut self, question: Option<String>) -> (r: Reading)
        ensures
            r.question == question,
            final(self).toss_log().len() == old(self).toss_log().len() + 18,
            final(self).toss_log().subrange(0, old(self).toss_log().len() as int) == old(
                self,
            ).toss_log(),
            forall|i: int|
                0 <= i < 6 ==> #[trigger] r.lines@[i] == {
                    let t = final(self).toss_log();
                    let o = old(self).toss_log().len() + 3 * i;
                    coins_line(t[o], t[o + 1], t[o + 2])
                },
    {
        let ghost start = self.log@;
        let l0 = self.cast_line();
        let l1 = self.cast_line();
        let l2 = self.cast_line();
        let l3 = self.cast_line();
        let l4 = self.cast_line();
        let l5 = self.cast_line();
        let lines = [l0, l1, l2, l3, l4, l5];
        let r = Reading::new(lines, question);
        proof {
            let t = self.log@;
            let o = start.len();
            assert(t.subrange(0, o as int) =~= start);
            assert(lines@[0] == l0 && lines@[1] == l1 && lines@[2] == l2);
            assert(lines@[3] == l3 && lines@[4] == l4 && lines@[5] == l5);
        }
        r
    }

    /// The line of a valid code.
    fn number_to_line(number: u8) -> (r: Line)
        requires
            is_line_code(number as int),
        ensures
            r == line_of_code(number as int),
    {
        match number {
            6 => Line::new(Age::Old, Polarity::Yin),
            7 => Line::new(Age::Young, Polarity::Yang),
            8 => Line::new(Age::Young, Polarity::Yin),
            _ => Line::new(Age::Old, Polarity::Yang),
        }
    }

    /// The line that three tossed coins give.
    pub fn line_from_coins(a: bool, b: bool, c: bool) -> (r: Line)
        ensures
            r == coins_line(a, b, c),
    {
        let mut sum: u8 = 0;
        sum += if a { 3 } else { 2 };
        sum += if b { 3 } else { 2 };
        sum += if c { 3 } else { 2 };
        Self::number_to_line(sum)
    }

    /// Tosses three coins for one line.
    fn cast_line(&mut self) -> (r: Line)
        ensures
            ({
                let t = final(self).toss_log();
                let o = old(self).toss_log().len() as int;
                &&& t.len() == o + 3
                &&& t.subrange(0, o) == old(self).toss_log()
                &&& r == coins_line(t[o], t[o + 1], t[o + 2])
            }),
    {
        let a = toss_coin(&mut self.rng);
        let b = toss_coin(&mut self.rng);
        let c = toss_coin(&mut self.rng);
        self.log = Ghost(self.log@.push(a).push(b).push(c));
        assert(self.log@.subrange(0, old(self).log@.len() as int) =~= old(self).log@);
        Self::line_from_coins(a, b, c)
    }

    /// The figure of six given codes, bottom first; the first code that is not
    /// 6, 7, 8 or 9 is refused.
    pub fn cast_reading_from_numbers(&self, numbers: [u8; 6], question: Option<String>) -> (r:
        Result<Reading, ReadingError>)
        ensures
            (forall|i: int| 0 <= i < 6 ==> is_line_code(#[trigger] numbers@[i] as int)) <==> r is Ok,
            r is Ok ==> r->Ok_0.question == question && forall|i: int|
                0 <= i < 6 ==> #[trigger] r->Ok_0.lines@[i] == line_of_code(numbers@[i] as int),
            r is Err ==> exists|k: int|
                0 <= k < 6 && !is_line_code(#[trigger] numbers@[k] as int) && (forall|i: int|
                    0 <= i < k ==> is_line_code(#[trigger] numbers@[i] as int)) && r->Err_0
                    == ReadingError::InvalidLineCode(numbers@[k]),
    {
        let mut lines = [Line::new(Age::Young, Polarity::Yang); 6];
        let mut i: usize = 0;
        while i < 6
            invariant
                i <= 6,
                forall|j: int| 0 <= j < i ==> is_line_code(#[trigger] numbers@[j] as int),
                forall|j: int| 0 <= j < i ==> #[trigger] lines@[j] == line_of_code(numbers@[j] as int),
            decreases 6 - i,
        {
            match Line::from_traditional_number(numbers[i]) {
                Ok(line) => {
                    lines[i] = line;
                },
                Err(e) => {
                    assert(!is_line_code(numbers@[i as int] as int));
                    return Err(e);
                },
            }
            i += 1;
        }
        Ok(Reading::new(lines, question))
    }

    /// The figure of six codes that are known to be valid.
    pub fn cast_reading_with_numbers(&mut self, numbers: [u8; 6], question: Option<String>) -> (r:
        Reading)
        requires
            forall|i: int| 0 <= i < 6 ==> is_line_code(#[trigger] numbers@[i] as int),
        ensures
            final(self).toss_log() == old(self).toss_log(),
            r.question == question,
            forall|i: int| 0 <= i < 6 ==> #[trigger] r.lines@[i] == line_of_code(numbers@[i] as int),
    {
        let lines = [
            Self::number_to_line(numbers[0]),
            Self::number_to_line(numbers[1]),
            Self::number_to_line(numbers[2]),
            Self::number_to_line(numbers[3]),
            Self::number_to_line(numbers[4]),
            Self::number_to_line(numbers[5]),
        ];
        Reading::new(lines, question)
    }
}

} // verus!
