//! Decklist parsing: one free-form text line becomes at most one structured
//! entry, and a whole decklist becomes an ordered list of parsed lines.
//!
//! The grammar of a line is: optional leading whitespace, an optional run of
//! decimal digits (the multiplier; absent or unrepresentable means 1), the
//! name as the run of characters up to the first `(`, `[`, `$` or tab
//! (trimmed), then optionally — after a run of whitespace and opening
//! brackets — one 2-3 character alphanumeric token. The token, lower-cased,
//! is recorded as the set code unconditionally and as the language exactly
//! when it is a recognized language code. A line whose name is empty or a
//! reserved header word ("deck", "decklist", "sideboard") yields no entry.

use vstd::prelude::*;

use crate::collections::StringSet;
use crate::text::{
    alnum_char, chars_vec, digits_value, is_alnum, lower_of, lowercase, rskip_spaces_in,
    rscan_spaces, scan_bracket_run, scan_digits, scan_name, scan_spaces, scan_to_newline,
    skip_bracket_run_in, skip_digits_in, skip_name_in, skip_spaces_in, skip_to_newline, str_eq,
};
use vstd::string::StrSliceExecFns;

verus! {

/// Mathematical content of a [`DecklistEntry`].
pub ghost struct EntryV {
    pub multiple: int,
    pub name: Seq<char>,
    pub set: Option<Seq<char>>,
    pub lang: Option<Seq<char>>,
}

/// One structured decklist entry: how many copies of which card name, with
/// an optional set code and an optional language code.
#[derive(Debug, PartialEq, Eq, Clone)]
pub struct DecklistEntry {
    pub multiple: i32,
    pub name: String,
    pub set: Option<String>,
    pub lang: Option<String>,
}

impl View for DecklistEntry {
    type V = EntryV;

    open spec fn view(&self) -> EntryV {
        EntryV {
            multiple: self.multiple as int,
            name: self.name@,
            set: match self.set {
                Some(s) => Some(s@),
                None => None,
            },
            lang: match self.lang {
                Some(l) => Some(l@),
                None => None,
            },
        }
    }
}

impl DecklistEntry {
    /// Builds an entry from all four fields.
    pub fn new(multiple: i32, name: &str, set: Option<&str>, lang: Option<&str>) -> (r:
        DecklistEntry)
        ensures
            r@.multiple == multiple as int,
            r@.name == name@,
            r@.set == (match set {
                Some(s) => Some(s@),
                None => None::<Seq<char>>,
            }),
            r@.lang == (match lang {
                Some(l) => Some(l@),
                None => None::<Seq<char>>,
            }),
    {
        DecklistEntry {
            multiple,
            name: name.to_owned(),
            set: match set {
                Some(s) => Some(s.to_owned()),
                None => None,
            },
            lang: match lang {
                Some(l) => Some(l.to_owned()),
                None => None,
            },
        }
    }

    /// A single copy of a card, no set, no language.
    pub fn from_name(n: &str) -> (r: DecklistEntry)
        ensures
            r@ == (EntryV { multiple: 1, name: n@, set: None, lang: None }),
    {
        DecklistEntry { multiple: 1, name: n.to_owned(), set: None, lang: None }
    }

    /// Several copies of a card, no set, no language.
    pub fn from_multiple_name(m: i32, n: &str) -> (r: DecklistEntry)
        ensures
            r@ == (EntryV { multiple: m as int, name: n@, set: None, lang: None }),
    {
        DecklistEntry { multiple: m, name: n.to_owned(), set: None, lang: None }
    }
}

/// The multiplier a digit run denotes: 1 when the run is empty or its value
/// does not fit a 32-bit signed integer, else the value itself.
pub open spec fn multiple_of(digits: Seq<char>) -> int {
    if digits.len() == 0 {
        1
    } else if digits_value(digits) <= 0x7fff_ffff {
        digits_value(digits)
    } else {
        1
    }
}

/// The optional trailing token: 3 alphanumeric characters at `from` when
/// available, else 2, else none.
pub open spec fn token_at(s: Seq<char>, from: int) -> Option<Seq<char>> {
    if from + 2 <= s.len() && is_alnum(s[from]) && is_alnum(s[from + 1]) {
        if from + 3 <= s.len() && is_alnum(s[from + 2]) {
            Some(s.subrange(from, from + 3))
        } else {
            Some(s.subrange(from, from + 2))
        }
    } else {
        None
    }
}

/// A reserved header word: a line so named carries no entry.
pub open spec fn is_reserved_word(lowered: Seq<char>) -> bool {
    lowered == "deck"@ || lowered == "decklist"@ || lowered == "sideboard"@
}

/// What parsing one (already line-split) decklist line yields.
pub open spec fn parse_line_spec(s: Seq<char>, langs: Set<Seq<char>>) -> Option<EntryV> {
    let n = s.len() as int;
    let i0 = skip_spaces_in(s, 0, n);
    let i1 = skip_digits_in(s, i0, n);
    let digits = s.subrange(i0, i1);
    let i2 = skip_spaces_in(s, i1, n);
    let i3 = skip_name_in(s, i2, n);
    let a = skip_spaces_in(s, i2, i3);
    let b = rskip_spaces_in(s, i3, a);
    let name = s.subrange(a, b);
    let i4 = skip_bracket_run_in(s, i3, n);
    let tok = token_at(s, i4);
    if name.len() == 0 || is_reserved_word(lower_of(name)) {
        None
    } else {
        Some(
            EntryV {
                multiple: multiple_of(digits),
                name,
                set: match tok {
                    Some(t) => Some(lower_of(t)),
                    None => None,
                },
                lang: match tok {
                    Some(t) => if langs.contains(lower_of(t)) {
                        Some(lower_of(t))
                    } else {
                        None
                    },
                    None => None,
                },
            },
        )
    }
}

/// The view of an optional entry.
pub open spec fn entry_opt_view(r: Option<DecklistEntry>) -> Option<EntryV> {
    match r {
        Some(e) => Some(e@),
        None => None,
    }
}

/// Reads the multiplier denoted by the digit run `v[from..to]`.
fn parse_multiple(v: &Vec<char>, from: usize, to: usize) -> (r: i32)
    requires
        from <= to <= v@.len(),
        forall|j: int| from <= j < to ==> crate::text::is_digit(v@[j]),
    ensures
        r as int == multiple_of(v@.subrange(from as int, to as int)),
        r >= 0,
{
    if from == to {
        proof {
            assert(v@.subrange(from as int, to as int).len() == 0);
        }
        return 1;
    }
    let ghost digits = v@.subrange(from as int, to as int);
    // Invariant: the accumulator tracks the value of the prefix read so far,
    // saturated to the sentinel once that value exceeds i32::MAX.
    let big: u64 = 0x8000_0000;
    let mut acc: u64 = 0;
    let mut i: usize = from;
    while i < to
        invariant
            from <= i <= to <= v@.len(),
            digits == v@.subrange(from as int, to as int),
            forall|j: int| from <= j < to ==> crate::text::is_digit(v@[j]),
            big == 0x8000_0000u64,
            (acc <= 0x7fff_ffff && acc as int == digits_value(
                v@.subrange(from as int, i as int),
            )) || (acc == big && digits_value(v@.subrange(from as int, i as int)) > 0x7fff_ffff),
        decreases to - i,
    {
        proof {
            assert(v@.subrange(from as int, i + 1 as int).drop_last() =~= v@.subrange(
                from as int,
                i as int,
            ));
            assert(v@.subrange(from as int, i + 1 as int).last() == v@[i as int]);
        }
        let c = v[i];
        let d: u64 = (c as u32 as u64) - ('0' as u32 as u64);
        proof {
            assert('0' <= c && c <= '9');
            assert(d <= 9);
        }
        if acc > 0x7fff_ffff {
            acc = big;
        } else {
            acc = acc * 10 + d;
            if acc > 0x7fff_ffff {
                proof {
                    assert(digits_value(v@.subrange(from as int, i + 1 as int)) > 0x7fff_ffff);
                }
                acc = big;
            }
        }
        i = i + 1;
    }
    proof {
        assert(v@.subrange(from as int, i as int) == digits);
    }
    if acc > 0x7fff_ffff {
        1
    } else {
        acc as i32
    }
}

/// Parses one decklist line into an optional entry, exactly as
/// [`parse_line_spec`] describes.
pub fn parse_line(line: &str, languages: &StringSet) -> (r: Option<DecklistEntry>)
    ensures
        entry_opt_view(r) == parse_line_spec(line@, languages@),
{
    let cv = chars_vec(line);
    let n = cv.len();
    let i0 = scan_spaces(&cv, 0, n);
    let i1 = scan_digits(&cv, i0, n);
    let i2 = scan_spaces(&cv, i1, n);
    let i3 = scan_name(&cv, i2, n);
    let a = scan_spaces(&cv, i2, i3);
    let b = rscan_spaces(&cv, i3, a);
    if a == b {
        return None;
    }
    let name_str: String = line.substring_char(a, b).to_owned();
    let name_lc = lowercase(name_str.as_str());
    if str_eq(name_lc.as_str(), "deck") || str_eq(name_lc.as_str(), "decklist") || str_eq(
        name_lc.as_str(),
        "sideboard",
    ) {
        return None;
    }
    let multiple = parse_multiple(&cv, i0, i1);
    let i4 = scan_bracket_run(&cv, i3, n);
    let token: Option<String> = if n - i4 >= 2 && alnum_char(cv[i4]) && alnum_char(cv[i4 + 1]) {
        if n - i4 >= 3 && alnum_char(cv[i4 + 2]) {
            Some(line.substring_char(i4, i4 + 3).to_owned())
        } else {
            Some(line.substring_char(i4, i4 + 2).to_owned())
        }
    } else {
        None
    };
    let set: Option<String> = match &token {
        Some(t) => Some(lowercase(t.as_str())),
        None => None,
    };
    let lang: Option<String> = match &set {
        Some(ls) => if languages.contains(ls.as_str()) {
            Some(ls.clone())
        } else {
            None
        },
        None => None,
    };
    Some(DecklistEntry { multiple, name: name_str, set, lang })
}

/// Mathematical content of a [`ParsedDecklistLine`].
pub ghost struct ParsedLineV {
    pub line: Seq<char>,
    pub entry: Option<EntryV>,
}

/// One non-blank decklist line: its trimmed text, and the entry it parses
/// to, if any.
#[derive(Debug, PartialEq, Eq)]
pub struct ParsedDecklistLine {
    pub line: String,
    pub entry: Option<DecklistEntry>,
}

impl View for ParsedDecklistLine {
    type V = ParsedLineV;

    open spec fn view(&self) -> ParsedLineV {
        ParsedLineV { line: self.line@, entry: entry_opt_view(self.entry) }
    }
}

/// Copies an optional string, preserving its view.
fn clone_opt_string(o: &Option<String>) -> (r: Option<String>)
    ensures
        (match (o, &r) {
            (Some(a), Some(b)) => a@ == b@,
            (None, None) => true,
            _ => false,
        }),
{
    match o {
        Some(s) => Some(s.clone()),
        None => None,
    }
}

/// Copies an entry, preserving its view.
pub fn clone_entry(e: &DecklistEntry) -> (r: DecklistEntry)
    ensures
        r@ == e@,
{
    DecklistEntry {
        multiple: e.multiple,
        name: e.name.clone(),
        set: clone_opt_string(&e.set),
        lang: clone_opt_string(&e.lang),
    }
}

impl ParsedDecklistLine {
    /// The entry of this line, if the line parsed to one.
    pub fn as_entry(&self) -> (r: Option<DecklistEntry>)
        ensures
            entry_opt_view(r) == self@.entry,
    {
        match &self.entry {
            Some(e) => Some(clone_entry(e)),
            None => None,
        }
    }
}

/// The view of a sequence of parsed lines.
pub open spec fn parsed_lines_view(v: Seq<ParsedDecklistLine>) -> Seq<ParsedLineV> {
    v.map_values(|p: ParsedDecklistLine| p@)
}

/// What parsing a decklist from position `from` on yields: each line is
/// trimmed, blank lines are dropped, order is kept, and every kept line
/// carries its [`parse_line_spec`] outcome.
pub open spec fn parsed_lines_from(s: Seq<char>, from: int, langs: Set<Seq<char>>) -> Seq<
    ParsedLineV,
>
    decreases s.len() - from when 0 <= from
    via parsed_lines_from_decreases
{
    if from >= s.len() {
        Seq::empty()
    } else {
        let j = skip_to_newline(s, from);
        let a = skip_spaces_in(s, from, j);
        let b = rskip_spaces_in(s, j, a);
        let line = s.subrange(a, b);
        let head: Seq<ParsedLineV> = if a < b {
            seq![ParsedLineV { line, entry: parse_line_spec(line, langs) }]
        } else {
            Seq::empty()
        };
        if j + 1 >= s.len() {
            head
        } else {
            head + parsed_lines_from(s, j + 1, langs)
        }
    }
}

#[via_fn]
proof fn parsed_lines_from_decreases(s: Seq<char>, from: int, langs: Set<Seq<char>>) {
    if 0 <= from < s.len() {
        crate::text::lemma_skip_to_newline_bounds(s, from);
    }
}

/// The trimmed non-blank lines of a decklist from position `from` on, in
/// source order.
pub open spec fn nonblank_lines_from(s: Seq<char>, from: int) -> Seq<Seq<char>>
    decreases s.len() - from when 0 <= from
    via nonblank_lines_from_decreases
{
    if from >= s.len() {
        Seq::empty()
    } else {
        let j = skip_to_newline(s, from);
        let a = skip_spaces_in(s, from, j);
        let b = rskip_spaces_in(s, j, a);
        let head: Seq<Seq<char>> = if a < b {
            seq![s.subrange(a, b)]
        } else {
            Seq::empty()
        };
        if j + 1 >= s.len() {
            head
        } else {
            head + nonblank_lines_from(s, j + 1)
        }
    }
}

#[via_fn]
proof fn nonblank_lines_from_decreases(s: Seq<char>, from: int) {
    if 0 <= from < s.len() {
        crate::text::lemma_skip_to_newline_bounds(s, from);
    }
}

/// Law: a parsed decklist has exactly one element per non-blank trimmed
/// source line, in order; each element carries that line's text and its
/// [`parse_line_spec`] outcome.
pub proof fn lemma_parsed_lines_match_source(s: Seq<char>, from: int, langs: Set<Seq<char>>)
    requires
        0 <= from,
    ensures
        parsed_lines_from(s, from, langs).len() == nonblank_lines_from(s, from).len(),
        forall|i: int|
            0 <= i < parsed_lines_from(s, from, langs).len() ==> {
                &&& (#[trigger] parsed_lines_from(s, from, langs)[i]).line
                    == nonblank_lines_from(s, from)[i]
                &&& parsed_lines_from(s, from, langs)[i].entry == parse_line_spec(
                    nonblank_lines_from(s, from)[i],
                    langs,
                )
            },
    decreases s.len() - from,
{
    if from >= s.len() {
    } else {
        let j = skip_to_newline(s, from);
        crate::text::lemma_skip_to_newline_bounds(s, from);
        if j + 1 < s.len() {
            lemma_parsed_lines_match_source(s, j + 1, langs);
        }
    }
}

/// Splits a decklist into trimmed non-blank lines and parses each, exactly
/// as [`parsed_lines_from`] describes; order is preserved and the number of
/// returned lines equals the number of non-blank trimmed source lines.
pub fn parse_decklist(decklist: &str, languages: &StringSet) -> (r: Vec<ParsedDecklistLine>)
    ensures
        parsed_lines_view(r@) == parsed_lines_from(decklist@, 0, languages@),
{
    let cv = chars_vec(decklist);
    let n = cv.len();
    let mut result: Vec<ParsedDecklistLine> = Vec::new();
    let mut pos: usize = 0;
    while pos < n
        invariant
            pos <= n == cv@.len(),
            cv@ == decklist@,
            parsed_lines_view(result@) + parsed_lines_from(decklist@, pos as int, languages@)
                == parsed_lines_from(decklist@, 0, languages@),
        decreases n - pos,
    {
        let ghost pre = result@;
        let j = scan_to_newline(&cv, pos);
        let a = scan_spaces(&cv, pos, j);
        let b = rscan_spaces(&cv, j, a);
        if a < b {
            let line_str: String = decklist.substring_char(a, b).to_owned();
            let entry = parse_line(line_str.as_str(), languages);
            result.push(ParsedDecklistLine { line: line_str, entry });
            proof {
                assert(parsed_lines_view(result@) =~= parsed_lines_view(pre) + seq![
                    ParsedLineV {
                        line: decklist@.subrange(a as int, b as int),
                        entry: parse_line_spec(
                            decklist@.subrange(a as int, b as int),
                            languages@,
                        ),
                    },
                ]);
            }
        }
        proof {
            assert(parsed_lines_view(result@) + parsed_lines_from(
                decklist@,
                j + 1 as int,
                languages@,
            ) =~= parsed_lines_from(decklist@, 0, languages@));
            if j == n {
                assert(parsed_lines_from(decklist@, j + 1 as int, languages@) =~= Seq::<
                    ParsedLineV,
                >::empty());
                assert(parsed_lines_from(decklist@, n as int, languages@) =~= Seq::<
                    ParsedLineV,
                >::empty());
            }
        }
        if j == n {
            pos = n;
        } else {
            pos = j + 1;
        }
    }
    proof {
        assert(parsed_lines_from(decklist@, pos as int, languages@) =~= Seq::<
            ParsedLineV,
        >::empty());
        assert(parsed_lines_view(result@) =~= parsed_lines_view(result@) + Seq::<
            ParsedLineV,
        >::empty());
    }
    result
}

} // verus!
