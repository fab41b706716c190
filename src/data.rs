use vstd::prelude::*;
use std::collections::HashMap;

verus! {

broadcast use vstd::std_specs::hash::group_hash_axioms;

/// A three-line sub-figure and what it stands for.
#[derive(Debug, Clone)]
pub struct Trigram {
    pub name: String,
    pub chinese: String,
    pub unicode: String,
    pub symbolic: String,
    pub element: String,
    pub attribute: String,
    pub lines: String,
}

#[derive(Debug, Clone)]
pub struct HexagramJudgment {
    pub text: String,
    pub commentary: String,
}

#[derive(Debug, Clone)]
pub struct HexagramImage {
    pub text: String,
    pub commentary: String,
}

/// The statement and commentary on one line of a figure.
#[derive(Debug, Clone)]
pub struct LineInterpretation {
    pub text: String,
    pub comments: String,
}

/// The descriptive record of one figure. `lines` maps a line position, 1 to
/// 6, to its interpretation.
#[derive(Debug, Clone)]
pub struct Hexagram {
    pub number: u8,
    pub name: String,
    pub chinese: String,
    pub pinyin: String,
    pub unicode: String,
    pub binary: String,
    pub opposite: String,
    pub upper_trigram: String,
    pub lower_trigram: String,
    pub description: String,
    pub judgment: HexagramJudgment,
    pub image: HexagramImage,
    pub lines: HashMap<u8, LineInterpretation>,
}

/// The reference records: the figures keyed by number, and the sub-figures,
/// of which a lookup by name takes the first that matches.
pub struct IChingData {
    pub trigrams: Vec<Trigram>,
    pub hexagrams: HashMap<u8, Hexagram>,
}

/// The record of the figure numbered `n`.
pub open spec fn find_hexagram(hs: Map<u8, Hexagram>, n: u8) -> Option<Hexagram> {
    if hs.contains_key(n) {
        Some(hs[n])
    } else {
        None
    }
}

/// The index of the first sub-figure at or after `i` named `name`.
pub open spec fn trigram_index_from(ts: Seq<Trigram>, name: Seq<char>, i: int) -> Option<int>
    decreases ts.len() - i,
{
    if i < 0 || i >= ts.len() {
        None
    } else if ts[i].name@ == name {
        Some(i)
    } else {
        trigram_index_from(ts, name, i + 1)
    }
}

/// The interpretation of line `p` of the figure numbered `n`.
pub open spec fn find_line(hs: Map<u8, Hexagram>, n: u8, p: u8) -> Option<LineInterpretation> {
    match find_hexagram(hs, n) {
        Some(h) => if h.lines@.contains_key(p) {
            Some(h.lines@[p])
        } else {
            None
        },
        None => None,
    }
}

/// The glyph of a record: the first character of its `unicode` text.
pub open spec fn glyph_of(h: Hexagram) -> Option<char> {
    if h.unicode@.len() > 0 {
        Some(h.unicode@[0])
    } else {
        None
    }
}

/// The least number from `i` to 64 whose record has glyph `c`.
pub open spec fn glyph_number_from(hs: Map<u8, Hexagram>, c: char, i: int) -> Option<u8>
    decreases 65 - i,
{
    if i < 1 || i > 64 {
        None
    } else if match find_hexagram(hs, i as u8) {
        Some(h) => glyph_of(h) == Some(c),
        None => false,
    } {
        Some(i as u8)
    } else {
        glyph_number_from(hs, c, i + 1)
    }
}

/// The number of the figure whose glyph is `c`: the least such from 1 to 64.
pub open spec fn glyph_number(hs: Map<u8, Hexagram>, c: char) -> Option<u8> {
    glyph_number_from(hs, c, 1)
}

proof fn lemma_glyph_number_range(hs: Map<u8, Hexagram>, c: char, i: int)
    ensures
        glyph_number_from(hs, c, i) matches Some(n) ==> 1 <= n <= 64 && i <= n,
    decreases 65 - i,
{
    if 1 <= i <= 64 {
        lemma_glyph_number_range(hs, c, i + 1);
    }
}

/// A glyph resolves to a number from 1 to 64, if to any.
pub proof fn lemma_glyph_in_range(hs: Map<u8, Hexagram>, c: char)
    ensures
        glyph_number(hs, c) matches Some(n) ==> 1 <= n <= 64,
{
    lemma_glyph_number_range(hs, c, 1);
}

impl IChingData {
    /// The store of the given records.
    pub fn load(trigrams: Vec<Trigram>, hexagrams: HashMap<u8, Hexagram>) -> (r: Self)
        ensures
            r.trigrams@ == trigrams@,
            r.hexagrams@ == hexagrams@,
    {
        IChingData { trigrams, hexagrams }
    }

    /// The record of the figure numbered `number`.
    pub fn get_hexagram(&self, number: u8) -> (r: Option<&Hexagram>)
        ensures
            r == match find_hexagram(self.hexagrams@, number) {
                Some(h) => Some(&h),
                None => None::<&Hexagram>,
            },
    {
        self.hexagrams.get(&number)
    }

    /// The first sub-figure named `name`.
    pub fn get_trigram(&self, name: &str) -> (r: Option<&Trigram>)
        ensures
            r == match trigram_index_from(self.trigrams@, name@, 0) {
                Some(i) => Some(&self.trigrams@[i]),
                None => None::<&Trigram>,
            },
    {
        let key = String::from_str(name);
        let mut i: usize = 0;
        while i < self.trigrams.len()
            invariant
                i <= self.trigrams@.len(),
                key@ == name@,
                trigram_index_from(self.trigrams@, name@, 0) == trigram_index_from(
                    self.trigrams@,
                    name@,
                    i as int,
                ),
            decreases self.trigrams@.len() - i,
        {
            if self.trigrams[i].name == key {
                return Some(&self.trigrams[i]);
            }
            i += 1;
        }
        None
    }

    /// The interpretation of line `line_position` of the figure numbered
    /// `hexagram_number`.
    pub fn get_line_interpretation(&self, hexagram_number: u8, line_position: u8) -> (r: Option<
        &LineInterpretation,
    >)
        ensures
            r == match find_line(self.hexagrams@, hexagram_number, line_position) {
                Some(l) => Some(&l),
                None => None::<&LineInterpretation>,
            },
    {
        match self.get_hexagram(hexagram_number) {
            Some(h) => h.lines.get(&line_position),
            None => None,
        }
    }

    /// The number of the figure whose glyph is `glyph`, if any record has it.
    pub fn unicode_to_hexagram_number(&self, glyph: char) -> (r: Option<u8>)
        ensures
            r == glyph_number(self.hexagrams@, glyph),
            r matches Some(n) ==> 1 <= n <= 64,
    {
        proof {
            lemma_glyph_in_range(self.hexagrams@, glyph);
        }
        let mut i: u8 = 1;
        while i <= 64
            invariant
                1 <= i <= 65,
                glyph_number(self.hexagrams@, glyph) == glyph_number_from(
                    self.hexagrams@,
                    glyph,
                    i as int,
                ),
            decreases 65 - i,
        {
            if let Some(h) = self.get_hexagram(i) {
                let u = h.unicode.as_str();
                if u.unicode_len() > 0 && u.get_char(0) == glyph {
                    return Some(i);
                }
            }
            i += 1;
        }
        None
    }
}

} // verus!
