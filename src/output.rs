use vstd::prelude::*;
use crate::data::{Hexagram, IChingData, find_hexagram, find_line};
use crate::error::ReadingError;
use crate::reading::{
    Polarity, Reading, changing_positions, figure_number, has_changing, line_code, transformed_lines,
};

verus! {

/// How a reading is written out.
#[derive(Debug, Clone, Copy, PartialEq, Eq, Structural)]
pub enum Format {
    Brief,
    Full,
    Json,
    Numbers,
    Motd,
}

/// The command line: an output format and an optional input text.
#[derive(Debug, Clone)]
pub struct Cli {
    pub format: Format,
    pub input: Option<String>,
}

#[derive(Debug, Clone)]
pub struct JsonJudgment {
    pub text: String,
    pub commentary: String,
}

#[derive(Debug, Clone)]
pub struct JsonImage {
    pub text: String,
    pub commentary: String,
}

/// The structured form of one figure's record.
#[derive(Debug, Clone)]
pub struct JsonHexagram {
    pub number: u8,
    pub name: String,
    pub chinese: String,
    pub pinyin: String,
    pub unicode: String,
    pub description: String,
    pub judgment: JsonJudgment,
    pub image: JsonImage,
}

/// The structured form of one changing line's interpretation.
#[derive(Debug, Clone)]
pub struct JsonLineInterpretation {
    pub position: u8,
    pub text: String,
    pub comments: String,
}

/// The structured form of a whole reading.
#[derive(Debug, Clone)]
pub struct JsonReading {
    pub question: Option<String>,
    pub lines: [u8; 6],
    pub primary_hexagram: JsonHexagram,
    pub changing_lines: Vec<JsonLineInterpretation>,
    pub transformed_hexagram: Option<JsonHexagram>,
    pub upper_trigram: [String; 3],
    pub lower_trigram: [String; 3],
}

/// The structured form of a record: its descriptive fields, copied.
pub open spec fn json_of(h: Hexagram) -> JsonHexagram {
    JsonHexagram {
        number: h.number,
        name: h.name,
        chinese: h.chinese,
        pinyin: h.pinyin,
        unicode: h.unicode,
        description: h.description,
        judgment: JsonJudgment { text: h.judgment.text, commentary: h.judgment.commentary },
        image: JsonImage { text: h.image.text, commentary: h.image.commentary },
    }
}

/// The interpretations of the given positions of figure `n`, in order,
/// leaving out positions that the data does not cover.
pub open spec fn json_lines(hs: Map<u8, Hexagram>, n: u8, positions: Seq<u8>) -> Seq<
    JsonLineInterpretation,
>
    decreases positions.len(),
{
    if positions.len() == 0 {
        Seq::empty()
    } else {
        let prev = json_lines(hs, n, positions.drop_last());
        match find_line(hs, n, positions.last()) {
            Some(l) => prev.push(
                JsonLineInterpretation {
                    position: positions.last(),
                    text: l.text,
                    comments: l.comments,
                },
            ),
            None => prev,
        }
    }
}

/// The label of a polarity.
pub open spec fn polarity_label(p: Polarity) -> Seq<char> {
    match p {
        Polarity::Yang => "Yang"@,
        Polarity::Yin => "Yin"@,
    }
}

fn json_hexagram(h: &Hexagram) -> (r: JsonHexagram)
    ensures
        r == json_of(*h),
{
    JsonHexagram {
        number: h.number,
        name: h.name.clone(),
        chinese: h.chinese.clone(),
        pinyin: h.pinyin.clone(),
        unicode: h.unicode.clone(),
        description: h.description.clone(),
        judgment: JsonJudgment {
            text: h.judgment.text.clone(),
            commentary: h.judgment.commentary.clone(),
        },
        image: JsonImage { text: h.image.text.clone(), commentary: h.image.commentary.clone() },
    }
}

fn polarity_to_string(p: Polarity) -> (r: String)
    ensures
        r@ == polarity_label(p),
{
    match p {
        Polarity::Yang => String::from_str("Yang"),
        Polarity::Yin => String::from_str("Yin"),
    }
}

fn labels(ps: [Polarity; 3]) -> (r: [String; 3])
    ensures
        forall|i: int| 0 <= i < 3 ==> (#[trigger] r@[i])@ == polarity_label(ps@[i]),
{
    [polarity_to_string(ps[0]), polarity_to_string(ps[1]), polarity_to_string(ps[2])]
}

/// The structured form of a reading: the codes of its lines, the record of
/// its figure, the interpretations of its changing lines, the record of the
/// figure it changes into, and the labels of its two sub-figures. A figure
/// without a record in the data is refused.
pub fn create_json_reading(data: &IChingData, reading: &Reading) -> (r: Result<
    JsonReading,
    ReadingError,
>)
    ensures
        ({
            let n = figure_number(reading.lines@) as u8;
            &&& find_hexagram(data.hexagrams@, n) is None <==> r is Err
            &&& r is Err ==> r->Err_0 == ReadingError::DataLookupFailure(n)
            &&& r matches Ok(j) ==> {
                &&& j.question == reading.question
                &&& forall|i: int| 0 <= i < 6 ==> j.lines@[i] as int == line_code(#[trigger] reading.lines@[i])
                &&& j.primary_hexagram == json_of(find_hexagram(data.hexagrams@, n)->Some_0)
                &&& j.changing_lines@ == json_lines(data.hexagrams@, n, changing_positions(reading.lines@))
                &&& j.transformed_hexagram == if has_changing(reading.lines@) {
                    match find_hexagram(data.hexagrams@, figure_number(transformed_lines(reading.lines@)) as u8) {
                        Some(h) => Some(json_of(h)),
                        None => None,
                    }
                } else {
                    None
                }
                &&& forall|i: int| 0 <= i < 3 ==> (#[trigger] j.upper_trigram@[i])@ == polarity_label(reading.lines@[3 + i].polarity)
                &&& forall|i: int| 0 <= i < 3 ==> (#[trigger] j.lower_trigram@[i])@ == polarity_label(reading.lines@[i].polarity)
            }
        }),
{
    let hexagram_number = reading.primary_hexagram();
    let hexagram = match data.get_hexagram(hexagram_number) {
        Some(h) => h,
        None => {
            return Err(ReadingError::DataLookupFailure(hexagram_number));
        },
    };
    let primary_hexagram = json_hexagram(hexagram);
    let positions = reading.changing_line_positions();
    let mut changing_lines: Vec<JsonLineInterpretation> = Vec::new();
    let mut i: usize = 0;
    while i < positions.len()
        invariant
            i <= positions@.len(),
            changing_lines@ == json_lines(
                data.hexagrams@,
                hexagram_number,
                positions@.subrange(0, i as int),
            ),
        decreases positions@.len() - i,
    {
        let line_pos = positions[i];
        assert(positions@.subrange(0, i + 1).drop_last() =~= positions@.subrange(0, i as int));
        if let Some(interp) = data.get_line_interpretation(hexagram_number, line_pos) {
            changing_lines.push(
                JsonLineInterpretation {
                    position: line_pos,
                    text: interp.text.clone(),
                    comments: interp.comments.clone(),
                },
            );
        }
        i += 1;
    }
    assert(positions@.subrange(0, positions@.len() as int) =~= positions@);
    let transformed_hexagram = match reading.transformed_hexagram() {
        Some(transformed) => {
            let transformed_number = transformed.primary_hexagram();
            match data.get_hexagram(transformed_number) {
                Some(h) => Some(json_hexagram(h)),
                None => None,
            }
        },
        None => None,
    };
    let question = match &reading.question {
        Some(q) => Some(q.clone()),
        None => None,
    };
    let upper = reading.upper_trigram();
    let lower = reading.lower_trigram();
    Ok(
        JsonReading {
            question,
            lines: reading.traditional_numbers(),
            primary_hexagram,
            changing_lines,
            transformed_hexagram,
            upper_trigram: labels(upper),
            lower_trigram: labels(lower),
        },
    )
}

} // verus!
