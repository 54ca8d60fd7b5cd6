//! The theme table as Rust source: each theme file holds one colour per line,
//! a name and hexadecimal digits, and becomes one map of the table.
use crate::color::{
    append, constructor_text, hex_to_color_constructor, is_constructor_input,
    valid_constructor_input,
};
use crate::gap_buffer::{chars_of, string_of};
use vstd::prelude::*;
use vstd::utf8::encode_utf8;

verus! {

/// The words of `s`, as `str::split_whitespace` splits it.
pub uninterp spec fn words_of(s: Seq<char>) -> Seq<Seq<char>>;

/// The lines of `s`, as `str::lines` splits it.
pub uninterp spec fn lines_of(s: Seq<char>) -> Seq<Seq<char>>;

/// Relies on `str::split_whitespace`: the words of `s` in order, split at
/// Unicode white space; they depend on `s` alone.
#[verifier::external_body]
fn split_words(s: &str) -> (r: Vec<String>)
    ensures
        r@.map_values(|w: String| w@) == words_of(s@),
{
    s.split_whitespace().map(String::from).collect()
}

/// Relies on `str::lines`: the lines of `s` in order, without their line
/// endings; they depend on `s` alone.
#[verifier::external_body]
fn split_lines(s: &str) -> (r: Vec<String>)
    ensures
        r@.map_values(|l: String| l@) == lines_of(s@),
{
    s.lines().map(String::from).collect()
}

/// What one line of a theme file stands for.
pub enum ThemeLine {
    /// An empty line, or a comment.
    Skip,
    /// A colour, as an entry of the table.
    Entry(String),
    /// A line with no colour after its name, or a colour that is not hexadecimal.
    Malformed,
}

/// The table entry of a line with words `words`: `None` for a malformed line,
/// `Some(None)` for an empty line or a comment.
pub open spec fn line_entry(line: Seq<char>, words: Seq<Seq<char>>) -> Option<Option<Seq<char>>> {
    if line.len() == 0 || line[0] == '#' {
        Some(None)
    } else if words.len() < 2 || !valid_constructor_input(encode_utf8(words[1])) {
        None
    } else {
        Some(
            Some(
                "\t\t\""@ + words[0] + "\" => "@ + constructor_text(encode_utf8(words[1])) + ",\n"@,
            ),
        )
    }
}

/// The entries of the lines `lines`, one after another; `None` where a line
/// is malformed.
pub open spec fn entries_of(lines: Seq<Seq<char>>) -> Option<Seq<char>>
    decreases lines.len(),
{
    if lines.len() == 0 {
        Some(Seq::empty())
    } else {
        match (entries_of(lines.drop_last()), line_entry(lines.last(), words_of(lines.last()))) {
            (Some(a), Some(None)) => Some(a),
            (Some(a), Some(Some(e))) => Some(a + e),
            _ => None,
        }
    }
}

/// The map of theme `name` whose file holds the lines `lines`.
pub open spec fn block_of(name: Seq<char>, lines: Seq<Seq<char>>) -> Option<Seq<char>> {
    match entries_of(lines) {
        Some(e) => Some("\t\""@ + name + "\" => phf_map! {\n"@ + e + "\t},\n"@),
        None => None,
    }
}

/// The entry of one theme-file line, from the line and its words.
pub fn theme_entry_from_words(line: &str, words: &Vec<String>) -> (r: ThemeLine)
    ensures
        line_entry(line@, words@.map_values(|w: String| w@)) == match r {
            ThemeLine::Skip => Some(None),
            ThemeLine::Entry(e) => Some(Some(e@)),
            ThemeLine::Malformed => None::<Option<Seq<char>>>,
        },
{
    let ghost ws = words@.map_values(|w: String| w@);
    let chars = chars_of(line);
    if chars.len() == 0 || chars[0] == '#' {
        return ThemeLine::Skip;
    }
    if words.len() < 2 {
        return ThemeLine::Malformed;
    }
    let hex = words[1].as_str();
    assert(hex@ == ws[1]);
    if !is_constructor_input(hex) {
        return ThemeLine::Malformed;
    }
    let mut out = chars_of("\t\t\"");
    append(&mut out, &chars_of(words[0].as_str()));
    append(&mut out, &chars_of("\" => "));
    let ctor = hex_to_color_constructor(hex);
    append(&mut out, &chars_of(ctor.as_str()));
    append(&mut out, &chars_of(",\n"));
    ThemeLine::Entry(string_of(&out))
}

/// The entry of one theme-file line.
pub fn theme_entry(line: &str) -> (r: ThemeLine)
    ensures
        line_entry(line@, words_of(line@)) == match r {
            ThemeLine::Skip => Some(None),
            ThemeLine::Entry(e) => Some(Some(e@)),
            ThemeLine::Malformed => None::<Option<Seq<char>>>,
        },
{
    let words = split_words(line);
    theme_entry_from_words(line, &words)
}

/// The map of theme `name` whose file holds the lines `lines`; `None` where a
/// line is malformed.
pub fn theme_block_from_lines(name: &str, lines: &Vec<String>) -> (r: Option<String>)
    ensures
        match r {
            Some(b) => block_of(name@, lines@.map_values(|l: String| l@)) == Some(b@),
            None => block_of(name@, lines@.map_values(|l: String| l@)) is None,
        },
{
    let ghost ls = lines@.map_values(|l: String| l@);
    let mut entries: Vec<char> = Vec::new();
    let mut i: usize = 0;
    assert(ls.subrange(0, 0) =~= Seq::<Seq<char>>::empty());
    while i < lines.len()
        invariant
            i <= lines@.len(),
            ls == lines@.map_values(|l: String| l@),
            entries_of(ls.subrange(0, i as int)) == Some(entries@),
        decreases lines@.len() - i,
    {
        let line = lines[i].as_str();
        let entry = theme_entry(line);
        proof {
            assert(ls.subrange(0, i + 1).drop_last() =~= ls.subrange(0, i as int));
            assert(ls.subrange(0, i + 1).last() == line@);
        }
        match entry {
            ThemeLine::Skip => {},
            ThemeLine::Entry(e) => {
                append(&mut entries, &chars_of(e.as_str()));
            },
            ThemeLine::Malformed => {
                proof {
                    lemma_entries_stay_malformed(ls, i as int + 1);
                    assert(ls.subrange(0, ls.len() as int) =~= ls);
                }
                return None;
            },
        }
        i = i + 1;
    }
    assert(ls.subrange(0, i as int) =~= ls);
    let mut out = chars_of("\t\"");
    append(&mut out, &chars_of(name));
    append(&mut out, &chars_of("\" => phf_map! {\n"));
    append(&mut out, &entries);
    append(&mut out, &chars_of("\t},\n"));
    Some(string_of(&out))
}

/// Once a prefix of the lines is malformed, every longer prefix is too.
proof fn lemma_entries_stay_malformed(ls: Seq<Seq<char>>, k: int)
    requires
        0 <= k <= ls.len(),
        entries_of(ls.subrange(0, k)) is None,
    ensures
        entries_of(ls.subrange(0, ls.len() as int)) is None,
    decreases ls.len() - k,
{
    if k < ls.len() {
        assert(ls.subrange(0, k + 1).drop_last() =~= ls.subrange(0, k));
        lemma_entries_stay_malformed(ls, k + 1);
    }
}

/// The map of theme `name` whose file holds `text`; `None` where a line is
/// malformed.
pub fn theme_block(name: &str, text: &str) -> (r: Option<String>)
    ensures
        match r {
            Some(b) => block_of(name@, lines_of(text@)) == Some(b@),
            None => block_of(name@, lines_of(text@)) is None,
        },
{
    let lines = split_lines(text);
    theme_block_from_lines(name, &lines)
}

/// The maps of the themes `themes`, each a name and the text of its file,
/// one after another; `None` where a line of a file is malformed.
pub open spec fn blocks_of(themes: Seq<(Seq<char>, Seq<char>)>) -> Option<Seq<char>>
    decreases themes.len(),
{
    if themes.len() == 0 {
        Some(Seq::empty())
    } else {
        match (blocks_of(themes.drop_last()), block_of(themes.last().0, lines_of(themes.last().1))) {
            (Some(a), Some(b)) => Some(a + b),
            _ => None,
        }
    }
}

/// The source of the theme table for `themes`.
pub open spec fn source_of(themes: Seq<(Seq<char>, Seq<char>)>) -> Option<Seq<char>> {
    match blocks_of(themes) {
        Some(b) => Some(
            "use phf::{Map, phf_map};\n"@ + "use macroquad::{color::Color, color_u8};\n\n"@
                + "pub const THEMES: Map<&'static str, Map<&'static str, Color>> = phf_map! {\n"@
                + b + "};\n"@,
        ),
        None => None,
    }
}

/// Once a prefix of the themes holds a malformed line, every longer prefix does.
proof fn lemma_blocks_stay_malformed(ts: Seq<(Seq<char>, Seq<char>)>, k: int)
    requires
        0 <= k <= ts.len(),
        blocks_of(ts.subrange(0, k)) is None,
    ensures
        blocks_of(ts) is None,
    decreases ts.len() - k,
{
    if k < ts.len() {
        assert(ts.subrange(0, k + 1).drop_last() =~= ts.subrange(0, k));
        lemma_blocks_stay_malformed(ts, k + 1);
    } else {
        assert(ts.subrange(0, k) =~= ts);
    }
}

/// The source of the theme table: one map per theme, each given by its name
/// and the text of its file; `None` where a line of a file is malformed.
pub fn themes_source(themes: &Vec<(String, String)>) -> (r: Option<String>)
    ensures
        match r {
            Some(t) => source_of(themes@.map_values(|p: (String, String)| (p.0@, p.1@))) == Some(
                t@,
            ),
            None => source_of(themes@.map_values(|p: (String, String)| (p.0@, p.1@))) is None,
        },
{
    let ghost ts = themes@.map_values(|p: (String, String)| (p.0@, p.1@));
    let mut blocks: Vec<char> = Vec::new();
    let mut i: usize = 0;
    assert(ts.subrange(0, 0) =~= Seq::<(Seq<char>, Seq<char>)>::empty());
    while i < themes.len()
        invariant
            i <= themes@.len(),
            ts == themes@.map_values(|p: (String, String)| (p.0@, p.1@)),
            blocks_of(ts.subrange(0, i as int)) == Some(blocks@),
        decreases themes@.len() - i,
    {
        let block = theme_block(themes[i].0.as_str(), themes[i].1.as_str());
        proof {
            assert(ts.subrange(0, i + 1).drop_last() =~= ts.subrange(0, i as int));
            assert(ts.subrange(0, i + 1).last() == (themes@[i as int].0@, themes@[i as int].1@));
        }
        match block {
            Some(b) => {
                append(&mut blocks, &chars_of(b.as_str()));
            },
            None => {
                proof {
                    lemma_blocks_stay_malformed(ts, i as int + 1);
                }
                return None;
            },
        }
        i = i + 1;
    }
    assert(ts.subrange(0, i as int) =~= ts);
    let mut out = chars_of("use phf::{Map, phf_map};\n");
    append(&mut out, &chars_of("use macroquad::{color::Color, color_u8};\n\n"));
    append(
        &mut out,
        &chars_of("pub const THEMES: Map<&'static str, Map<&'static str, Color>> = phf_map! {\n"),
    );
    append(&mut out, &blocks);
    append(&mut out, &chars_of("};\n"));
    Some(string_of(&out))
}

} // verus!
