use vstd::prelude::*;
use crate::data::{Hexagram, IChingData, find_hexagram, find_line};
use crate::output::polarity_label;
use crate::reading::{
    line_code, Line, Polarity, Reading, changing_positions, figure_number, has_changing, line_symbol,
    transformed_lines,
};
use crate::text::{decimal, push_decimal};

verus! {

pub open spec fn dec(n: u8) -> Seq<char> {
    decimal(n as nat)
}

/// The numbers of `ns` separated by commas.
pub open spec fn list_items(ns: Seq<u8>) -> Seq<char>
    decreases ns.len(),
{
    if ns.len() == 0 {
        Seq::empty()
    } else if ns.len() == 1 {
        dec(ns[0])
    } else {
        list_items(ns.drop_last()) + ", "@ + dec(ns.last())
    }
}

/// A list of numbers as `[1, 2, 3]`.
pub open spec fn list_text(ns: Seq<u8>) -> Seq<char> {
    "["@ + list_items(ns) + "]"@
}

/// Three polarities as `[Yang, Yin, Yang]`.
pub open spec fn polarity_list(ps: Seq<Polarity>) -> Seq<char> {
    "["@ + polarity_label(ps[0]) + ", "@ + polarity_label(ps[1]) + ", "@ + polarity_label(ps[2])
        + "]"@
}

/// The row of the line at index `i`: its 1-based position and its drawing.
pub open spec fn row(lines: Seq<Line>, i: int) -> Seq<char> {
    dec((i + 1) as u8) + ": "@ + line_symbol(lines[i]) + "\n"@
}

/// The rows of the lines from index 5 down to index `k`.
pub open spec fn rows_from(lines: Seq<Line>, k: int) -> Seq<char>
    decreases 6 - k,
{
    if k >= 6 || k < 0 {
        Seq::empty()
    } else {
        rows_from(lines, k + 1) + row(lines, k)
    }
}

pub open spec fn question_text(q: Option<String>, prefix: Seq<char>, suffix: Seq<char>) -> Seq<char> {
    match q {
        Some(q) => prefix + q@ + suffix,
        None => Seq::empty(),
    }
}

/// The number of the figure that a figure's changing lines lead to.
pub open spec fn transformed_number(lines: Seq<Line>) -> u8 {
    figure_number(transformed_lines(lines)) as u8
}

/// The text drawing of a reading: question, figure number, the six lines from
/// the top, and the changing lines with the figure they lead to.
pub open spec fn display_text(r: Reading) -> Seq<char> {
    let lines = r.lines@;
    question_text(r.question, "Question: "@, "\n\n"@) + "Hexagram "@ + dec(
        figure_number(lines) as u8,
    ) + "\n"@ + rows_from(lines, 0) + if has_changing(lines) {
        "\nChanging lines: "@ + list_text(changing_positions(lines)) + "\n"@
            + "Transforms to hexagram "@ + dec(transformed_number(lines)) + "\n"@
    } else {
        Seq::empty()
    }
}

/// Appends the list `[a, b, ...]` of `ns` to `s`.
pub fn push_list(s: &mut String, ns: &[u8])
    ensures
        final(s)@ == old(s)@ + list_text(ns@),
{
    s.append("[");
    let ghost start = s@;
    let mut i: usize = 0;
    while i < ns.len()
        invariant
            i <= ns@.len(),
            s@ == start + list_items(ns@.subrange(0, i as int)),
        decreases ns@.len() - i,
    {
        let ghost before = s@;
        assert(ns@.subrange(0, i + 1).drop_last() =~= ns@.subrange(0, i as int));
        if i > 0 {
            s.append(", ");
        }
        push_decimal(s, ns[i]);
        proof {
            if i == 0 {
                assert(ns@.subrange(0, 1) =~= seq![ns@[0]]);
            }
        }
        assert(s@ =~= start + list_items(ns@.subrange(0, i + 1)));
        i += 1;
    }
    assert(ns@.subrange(0, ns@.len() as int) =~= ns@);
    s.append("]");
    assert(s@ =~= old(s)@ + list_text(ns@));
}

fn push_polarity(s: &mut String, p: Polarity)
    ensures
        final(s)@ == old(s)@ + polarity_label(p),
{
    match p {
        Polarity::Yang => s.append("Yang"),
        Polarity::Yin => s.append("Yin"),
    }
}

/// Appends `[a, b, c]` for three polarities to `s`.
fn push_polarity_list(s: &mut String, ps: [Polarity; 3])
    ensures
        final(s)@ == old(s)@ + polarity_list(ps@),
{
    s.append("[");
    push_polarity(s, ps[0]);
    s.append(", ");
    push_polarity(s, ps[1]);
    s.append(", ");
    push_polarity(s, ps[2]);
    s.append("]");
    assert(s@ =~= old(s)@ + polarity_list(ps@));
}

impl Reading {
    /// The text drawing of this reading.
    pub fn display(&self) -> (r: String)
        ensures
            r@ == display_text(*self),
    {
        let mut result = String::new();
        if let Some(question) = &self.question {
            result.append("Question: ");
            result.append(question.as_str());
            result.append("\n\n");
        }
        let ghost head = result@;
        assert(head =~= question_text(self.question, "Question: "@, "\n\n"@));
        result.append("Hexagram ");
        push_decimal(&mut result, self.primary_hexagram());
        result.append("\n");
        let ghost top = result@;
        let mut i: usize = 6;
        while i > 0
            invariant
                i <= 6,
                result@ == top + rows_from(self.lines@, i as int),
            decreases i,
        {
            i -= 1;
            push_decimal(&mut result, (i + 1) as u8);
            result.append(": ");
            result.append(self.lines[i].to_symbol());
            result.append("\n");
            assert(result@ =~= top + rows_from(self.lines@, i as int));
        }
        let ghost body = result@;
        if self.has_changing_lines() {
            result.append("\nChanging lines: ");
            let positions = self.changing_line_positions();
            push_list(&mut result, positions.as_slice());
            result.append("\n");
            if let Some(transformed) = self.transformed_hexagram() {
                result.append("Transforms to hexagram ");
                push_decimal(&mut result, transformed.primary_hexagram());
                result.append("\n");
            }
        }
        assert(result@ =~= display_text(*self));
        result
    }
}

/// What `str::to_uppercase` makes of a text.
pub uninterp spec fn upper_of(s: Seq<char>) -> Seq<char>;

/// Relies on `str::to_uppercase`: the result depends on the characters alone.
#[verifier::external_body]
fn uppercase(s: &str) -> (r: String)
    ensures
        r@ == upper_of(s@),
{
    s.to_uppercase()
}

/// The part of the one-line summary that names the changed figure and the
/// positions of the changing lines.
pub open spec fn brief_change(hs: Map<u8, Hexagram>, lines: Seq<Line>) -> Seq<char> {
    if has_changing(lines) {
        let tn = transformed_number(lines);
        (match find_hexagram(hs, tn) {
            Some(t) => " → "@ + t.unicode@ + " "@ + dec(tn) + " "@ + t.name@,
            None => " → "@ + dec(tn) + " Unknown"@,
        }) + " (lines: "@ + list_text(changing_positions(lines)) + ")"@
    } else {
        Seq::empty()
    }
}

/// The one-line summary of a reading: its question, the figure's glyph,
/// number and name, and where there are changing lines the figure they lead
/// to and their positions.
pub open spec fn brief_text(hs: Map<u8, Hexagram>, r: Reading) -> Seq<char> {
    let lines = r.lines@;
    let n = figure_number(lines) as u8;
    question_text(r.question, "Q: "@, "\n"@) + (match find_hexagram(hs, n) {
        Some(h) => h.unicode@ + " "@ + dec(n) + " "@ + h.name@ + brief_change(hs, lines),
        None => "Hexagram "@ + dec(n) + " (Unknown)"@,
    })
}

/// The summary of a reading for a status line, with the names given in `pu`
/// (the figure's) and `tu` (the changed figure's).
pub open spec fn motd_text(hs: Map<u8, Hexagram>, r: Reading, pu: Seq<char>, tu: Seq<char>) -> Seq<
    char,
> {
    let lines = r.lines@;
    let n = figure_number(lines) as u8;
    let tn = transformed_number(lines);
    match find_hexagram(hs, n) {
        Some(h) => if has_changing(lines) {
            match find_hexagram(hs, tn) {
                Some(t) => h.unicode@ + "→"@ + t.unicode@ + " "@ + dec(n) + " "@ + pu
                    + " CHANGING INTO "@ + dec(tn) + " "@ + tu,
                None => h.unicode@ + "→䷜ "@ + dec(n) + " "@ + pu + " CHANGING INTO "@ + dec(tn)
                    + " UNKNOWN"@,
            }
        } else {
            h.unicode@ + " "@ + dec(n) + " "@ + pu
        },
        None => "䷜ "@ + dec(n) + " UNKNOWN"@,
    }
}

/// The upper-case name of the record numbered `n`, if there is one.
pub open spec fn upper_name(hs: Map<u8, Hexagram>, n: u8) -> Seq<char> {
    match find_hexagram(hs, n) {
        Some(h) => upper_of(h.name@),
        None => Seq::empty(),
    }
}

/// The codes of the six lines.
pub open spec fn codes_of(lines: Seq<Line>) -> Seq<u8> {
    Seq::new(6, |i: int| line_code(lines[i]) as u8)
}

/// The full description of a figure's record.
pub open spec fn record_text(h: Hexagram) -> Seq<char> {
    "\n=== "@ + h.unicode@ + " "@ + h.name@ + " ===\n"@ + "Chinese: "@ + h.chinese@ + " ("@
        + h.pinyin@ + ")\n"@ + "Description: "@ + h.description@ + "\n"@ + "\nJudgment: "@
        + h.judgment.text@ + "\n"@ + "Commentary: "@ + h.judgment.commentary@ + "\n"@
        + "\nImage: "@ + h.image.text@ + "\n"@ + "Image Commentary: "@ + h.image.commentary@
        + "\n"@
}

/// The interpretations of the lines at positions `ps` of figure `n`.
pub open spec fn changing_text(hs: Map<u8, Hexagram>, n: u8, ps: Seq<u8>) -> Seq<char>
    decreases ps.len(),
{
    if ps.len() == 0 {
        Seq::empty()
    } else {
        changing_text(hs, n, ps.drop_last()) + (match find_line(hs, n, ps.last()) {
            Some(l) => "Line "@ + dec(ps.last()) + ": "@ + l.text@ + "\n"@ + "Comments: "@
                + l.comments@ + "\n\n"@,
            None => Seq::empty(),
        })
    }
}

/// The description of the figure numbered `tn` that a reading changes into.
pub open spec fn transformed_text(hs: Map<u8, Hexagram>, tn: u8) -> Seq<char> {
    match find_hexagram(hs, tn) {
        Some(t) => "\n=== Transforms to "@ + t.unicode@ + " "@ + t.name@ + " ===\n"@
            + "Chinese: "@ + t.chinese@ + " ("@ + t.pinyin@ + ")\n"@ + "Description: "@
            + t.description@ + "\n"@ + "Judgment: "@ + t.judgment.text@ + "\n"@,
        None => Seq::empty(),
    }
}

/// The full text of a reading: its drawing, codes and sub-figures, then the
/// record of its figure, the interpretations of its changing lines and the
/// figure they lead to.
pub open spec fn full_text(hs: Map<u8, Hexagram>, r: Reading) -> Seq<char> {
    let lines = r.lines@;
    let n = figure_number(lines) as u8;
    display_text(r) + "\nTraditional numbers: "@ + list_text(codes_of(lines)) + "\n"@
        + "Upper trigram: "@ + polarity_list(seq![lines[3].polarity, lines[4].polarity, lines[5].polarity])
        + "\n"@ + "Lower trigram: "@ + polarity_list(seq![lines[0].polarity, lines[1].polarity, lines[2].polarity])
        + "\n"@ + (match find_hexagram(hs, n) {
        Some(h) => record_text(h) + if has_changing(lines) {
            "\n=== Changing Lines ===\n"@ + changing_text(hs, n, changing_positions(lines))
                + transformed_text(hs, transformed_number(lines))
        } else {
            Seq::empty()
        },
        None => Seq::empty(),
    })
}

fn push_brief_change(s: &mut String, data: &IChingData, reading: &Reading)
    ensures
        final(s)@ == old(s)@ + brief_change(data.hexagrams@, reading.lines@),
{
    if reading.has_changing_lines() {
        let transformed_number = Reading::new(reading.transformed_figure(), None).primary_hexagram();
        if let Some(transformed_hex) = data.get_hexagram(transformed_number) {
            s.append(" → ");
            s.append(transformed_hex.unicode.as_str());
            s.append(" ");
            push_decimal(s, transformed_number);
            s.append(" ");
            s.append(transformed_hex.name.as_str());
        } else {
            s.append(" → ");
            push_decimal(s, transformed_number);
            s.append(" Unknown");
        }
        s.append(" (lines: ");
        let positions = reading.changing_line_positions();
        push_list(s, positions.as_slice());
        s.append(")");
    }
    assert(s@ =~= old(s)@ + brief_change(data.hexagrams@, reading.lines@));
}

/// The one-line summary of a reading.
pub fn format_brief(data: &IChingData, reading: &Reading) -> (r: String)
    ensures
        r@ == brief_text(data.hexagrams@, *reading),
{
    let mut result = String::new();
    if let Some(question) = &reading.question {
        result.append("Q: ");
        result.append(question.as_str());
        result.append("\n");
    }
    let ghost head = result@;
    assert(head =~= question_text(reading.question, "Q: "@, "\n"@));
    let hexagram_number = reading.primary_hexagram();
    if let Some(hexagram) = data.get_hexagram(hexagram_number) {
        result.append(hexagram.unicode.as_str());
        result.append(" ");
        push_decimal(&mut result, hexagram_number);
        result.append(" ");
        result.append(hexagram.name.as_str());
        push_brief_change(&mut result, data, reading);
    } else {
        result.append("Hexagram ");
        push_decimal(&mut result, hexagram_number);
        result.append(" (Unknown)");
    }
    assert(result@ =~= brief_text(data.hexagrams@, *reading));
    result
}

/// The status-line summary of a reading, with the names `primary_name` for
/// the figure and `transformed_name` for the figure it changes into.
pub fn compose_motd(
    data: &IChingData,
    reading: &Reading,
    primary_name: &str,
    transformed_name: &str,
) -> (r: String)
    ensures
        r@ == motd_text(data.hexagrams@, *reading, primary_name@, transformed_name@),
{
    let mut result = String::new();
    let hexagram_number = reading.primary_hexagram();
    let transformed_number = Reading::new(reading.transformed_figure(), None).primary_hexagram();
    if let Some(hexagram) = data.get_hexagram(hexagram_number) {
        if reading.has_changing_lines() {
            if let Some(transformed_hex) = data.get_hexagram(transformed_number) {
                result.append(hexagram.unicode.as_str());
                result.append("→");
                result.append(transformed_hex.unicode.as_str());
                result.append(" ");
                push_decimal(&mut result, hexagram_number);
                result.append(" ");
                result.append(primary_name);
                result.append(" CHANGING INTO ");
                push_decimal(&mut result, transformed_number);
                result.append(" ");
                result.append(transformed_name);
            } else {
                result.append(hexagram.unicode.as_str());
                result.append("→䷜ ");
                push_decimal(&mut result, hexagram_number);
                result.append(" ");
                result.append(primary_name);
                result.append(" CHANGING INTO ");
                push_decimal(&mut result, transformed_number);
                result.append(" UNKNOWN");
            }
        } else {
            result.append(hexagram.unicode.as_str());
            result.append(" ");
            push_decimal(&mut result, hexagram_number);
            result.append(" ");
            result.append(primary_name);
        }
    } else {
        result.append("䷜ ");
        push_decimal(&mut result, hexagram_number);
        result.append(" UNKNOWN");
    }
    assert(result@ =~= motd_text(data.hexagrams@, *reading, primary_name@, transformed_name@));
    result
}

/// The upper-case name of the record numbered `n`, empty where there is none.
fn upper_name_of(data: &IChingData, n: u8) -> (r: String)
    ensures
        r@ == upper_name(data.hexagrams@, n),
{
    match data.get_hexagram(n) {
        Some(h) => uppercase(h.name.as_str()),
        None => String::new(),
    }
}

/// The status-line summary of a reading, with the names in upper case.
pub fn format_motd(data: &IChingData, reading: &Reading) -> (r: String)
    ensures
        r@ == motd_text(
            data.hexagrams@,
            *reading,
            upper_name(data.hexagrams@, figure_number(reading.lines@) as u8),
            upper_name(data.hexagrams@, transformed_number(reading.lines@)),
        ),
{
    let hexagram_number = reading.primary_hexagram();
    let transformed_number = Reading::new(reading.transformed_figure(), None).primary_hexagram();
    let primary_name = upper_name_of(data, hexagram_number);
    let transformed_name = upper_name_of(data, transformed_number);
    compose_motd(data, reading, primary_name.as_str(), transformed_name.as_str())
}

fn push_record(s: &mut String, h: &Hexagram)
    ensures
        final(s)@ == old(s)@ + record_text(*h),
{
    s.append("\n=== ");
    s.append(h.unicode.as_str());
    s.append(" ");
    s.append(h.name.as_str());
    s.append(" ===\n");
    s.append("Chinese: ");
    s.append(h.chinese.as_str());
    s.append(" (");
    s.append(h.pinyin.as_str());
    s.append(")\n");
    s.append("Description: ");
    s.append(h.description.as_str());
    s.append("\n");
    s.append("\nJudgment: ");
    s.append(h.judgment.text.as_str());
    s.append("\n");
    s.append("Commentary: ");
    s.append(h.judgment.commentary.as_str());
    s.append("\n");
    s.append("\nImage: ");
    s.append(h.image.text.as_str());
    s.append("\n");
    s.append("Image Commentary: ");
    s.append(h.image.commentary.as_str());
    s.append("\n");
    assert(s@ =~= old(s)@ + record_text(*h));
}

fn push_changing(s: &mut String, data: &IChingData, n: u8, positions: &Vec<u8>)
    ensures
        final(s)@ == old(s)@ + changing_text(data.hexagrams@, n, positions@),
{
    let ghost start = s@;
    let mut i: usize = 0;
    while i < positions.len()
        invariant
            i <= positions@.len(),
            s@ == start + changing_text(data.hexagrams@, n, positions@.subrange(0, i as int)),
        decreases positions@.len() - i,
    {
        let line_pos = positions[i];
        assert(positions@.subrange(0, i + 1).drop_last() =~= positions@.subrange(0, i as int));
        if let Some(line_interp) = data.get_line_interpretation(n, line_pos) {
            s.append("Line ");
            push_decimal(s, line_pos);
            s.append(": ");
            s.append(line_interp.text.as_str());
            s.append("\n");
            s.append("Comments: ");
            s.append(line_interp.comments.as_str());
            s.append("\n\n");
        }
        assert(s@ =~= start + changing_text(data.hexagrams@, n, positions@.subrange(0, i + 1)));
        i += 1;
    }
    assert(positions@.subrange(0, positions@.len() as int) =~= positions@);
}

fn push_transformed(s: &mut String, data: &IChingData, tn: u8)
    ensures
        final(s)@ == old(s)@ + transformed_text(data.hexagrams@, tn),
{
    if let Some(t) = data.get_hexagram(tn) {
        s.append("\n=== Transforms to ");
        s.append(t.unicode.as_str());
        s.append(" ");
        s.append(t.name.as_str());
        s.append(" ===\n");
        s.append("Chinese: ");
        s.append(t.chinese.as_str());
        s.append(" (");
        s.append(t.pinyin.as_str());
        s.append(")\n");
        s.append("Description: ");
        s.append(t.description.as_str());
        s.append("\n");
        s.append("Judgment: ");
        s.append(t.judgment.text.as_str());
        s.append("\n");
    }
    assert(s@ =~= old(s)@ + transformed_text(data.hexagrams@, tn));
}

/// The full text of a reading.
pub fn format_full(data: &IChingData, reading: &Reading) -> (r: String)
    ensures
        r@ == full_text(data.hexagrams@, *reading),
{
    let mut result = reading.display();
    result.append("\nTraditional numbers: ");
    let codes = reading.traditional_numbers();
    assert(codes@ =~= codes_of(reading.lines@));
    push_list(&mut result, codes.as_slice());
    result.append("\n");
    result.append("Upper trigram: ");
    push_polarity_list(&mut result, reading.upper_trigram());
    result.append("\n");
    result.append("Lower trigram: ");
    push_polarity_list(&mut result, reading.lower_trigram());
    result.append("\n");
    let ghost top = result@;
    let hexagram_number = reading.primary_hexagram();
    if let Some(hexagram) = data.get_hexagram(hexagram_number) {
        push_record(&mut result, hexagram);
        if reading.has_changing_lines() {
            result.append("\n=== Changing Lines ===\n");
            let positions = reading.changing_line_positions();
            push_changing(&mut result, data, hexagram_number, &positions);
            let transformed_number = Reading::new(reading.transformed_figure(), None).primary_hexagram();
            push_transformed(&mut result, data, transformed_number);
        }
    }
    assert(result@ =~= full_text(data.hexagrams@, *reading));
    result
}

} // verus!
