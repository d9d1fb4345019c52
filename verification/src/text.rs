//! Character-level text utilities: the whitespace and digit classes used by
//! the decklist grammar, trimming, equality, and lower-casing.

use vstd::prelude::*;

verus! {

use vstd::std_specs::iter::IteratorSpec;

/// The whitespace class of the decklist grammar: ASCII whitespace.
pub open spec fn is_space(c: char) -> bool {
    c == ' ' || c == '\t' || c == '\n' || c == '\r' || c == '\x0b' || c == '\x0c'
}

/// ASCII decimal digit.
pub open spec fn is_digit(c: char) -> bool {
    '0' <= c && c <= '9'
}

/// ASCII alphanumeric: digit or letter.
pub open spec fn is_alnum(c: char) -> bool {
    is_digit(c) || ('a' <= c && c <= 'z') || ('A' <= c && c <= 'Z')
}

/// Executable test for [`is_space`].
pub fn space_char(c: char) -> (r: bool)
    ensures
        r == is_space(c),
{
    c == ' ' || c == '\t' || c == '\n' || c == '\r' || c == '\x0b' || c == '\x0c'
}

/// Executable test for [`is_digit`].
pub fn digit_char(c: char) -> (r: bool)
    ensures
        r == is_digit(c),
{
    '0' <= c && c <= '9'
}

/// Executable test for [`is_alnum`].
pub fn alnum_char(c: char) -> (r: bool)
    ensures
        r == is_alnum(c),
{
    digit_char(c) || ('a' <= c && c <= 'z') || ('A' <= c && c <= 'Z')
}

/// Collects the characters of a string slice into a vector.
pub fn chars_vec(s: &str) -> (v: Vec<char>)
    ensures
        v@ == s@,
{
    broadcast use vstd::string::next_postcondition;
    broadcast use vstd::string::axiom_spec_iter;

    let mut v: Vec<char> = Vec::new();
    let mut it = s.chars();
    loop
        invariant
            it.obeys_prophetic_iter_laws(),
            v@ + it.remaining() == s@,
            it.decrease() is Some,
        ensures
            v@ == s@,
        decreases it.decrease()->0,
    {
        match it.next() {
            Some(c) => {
                v.push(c);
            },
            None => {
                assert(v@ =~= s@);
                break ;
            },
        }
    }
    v
}

/// Character-by-character string equality.
pub fn str_eq(a: &str, b: &str) -> (r: bool)
    ensures
        r == (a@ == b@),
{
    let alen = a.unicode_len();
    let blen = b.unicode_len();
    if alen != blen {
        assert(a@ != b@);
        return false;
    }
    let mut i: usize = 0;
    while i < alen
        invariant
            alen == a@.len(),
            alen == b@.len(),
            i <= alen,
            forall|j: int| 0 <= j < i ==> a@[j] == b@[j],
        decreases alen - i,
    {
        if a.get_char(i) != b.get_char(i) {
            assert(a@ != b@);
            return false;
        }
        i = i + 1;
    }
    assert(a@ =~= b@);
    true
}

/// A character that ends the name field of a decklist line.
pub open spec fn is_name_stop(c: char) -> bool {
    c == '(' || c == '[' || c == '$' || c == '\t'
}

/// A character of the run that may separate the name field from the trailing
/// set/language token: whitespace or an opening bracket.
pub open spec fn is_bracket_run(c: char) -> bool {
    is_space(c) || c == '(' || c == '['
}

/// Index of the first non-space character at or after `from`, but at most `to`.
pub open spec fn skip_spaces_in(s: Seq<char>, from: int, to: int) -> int
    decreases to - from,
{
    if from < to && from < s.len() && is_space(s[from]) {
        skip_spaces_in(s, from + 1, to)
    } else {
        from
    }
}

/// Index after dropping trailing spaces: moves left from `from` while the
/// character before it is a space, but not below `downto`.
pub open spec fn rskip_spaces_in(s: Seq<char>, from: int, downto: int) -> int
    decreases from - downto,
{
    if from > downto && 0 < from <= s.len() && is_space(s[from - 1]) {
        rskip_spaces_in(s, from - 1, downto)
    } else {
        from
    }
}

/// Index of the first non-digit character at or after `from`, but at most `to`.
pub open spec fn skip_digits_in(s: Seq<char>, from: int, to: int) -> int
    decreases to - from,
{
    if from < to && from < s.len() && is_digit(s[from]) {
        skip_digits_in(s, from + 1, to)
    } else {
        from
    }
}

/// Index of the first name-stop character at or after `from`, but at most `to`.
pub open spec fn skip_name_in(s: Seq<char>, from: int, to: int) -> int
    decreases to - from,
{
    if from < to && from < s.len() && !is_name_stop(s[from]) {
        skip_name_in(s, from + 1, to)
    } else {
        from
    }
}

/// Index of the first character at or after `from` that is neither whitespace
/// nor an opening bracket, but at most `to`.
pub open spec fn skip_bracket_run_in(s: Seq<char>, from: int, to: int) -> int
    decreases to - from,
{
    if from < to && from < s.len() && is_bracket_run(s[from]) {
        skip_bracket_run_in(s, from + 1, to)
    } else {
        from
    }
}

/// Index of the first newline at or after `from`, or `s.len()` if none.
pub open spec fn skip_to_newline(s: Seq<char>, from: int) -> int
    decreases s.len() - from,
{
    if from < s.len() && s[from] != '\n' {
        skip_to_newline(s, from + 1)
    } else {
        from
    }
}

/// Executable counterpart of [`skip_spaces_in`].
pub fn scan_spaces(v: &Vec<char>, from: usize, to: usize) -> (r: usize)
    requires
        from <= to <= v@.len(),
    ensures
        r == skip_spaces_in(v@, from as int, to as int),
        from <= r <= to,
{
    let mut i: usize = from;
    while i < to && space_char(v[i])
        invariant
            from <= i <= to <= v@.len(),
            skip_spaces_in(v@, from as int, to as int) == skip_spaces_in(v@, i as int, to as int),
        decreases to - i,
    {
        i = i + 1;
    }
    i
}

/// Executable counterpart of [`rskip_spaces_in`].
pub fn rscan_spaces(v: &Vec<char>, from: usize, downto: usize) -> (r: usize)
    requires
        downto <= from <= v@.len(),
    ensures
        r == rskip_spaces_in(v@, from as int, downto as int),
        downto <= r <= from,
{
    let mut i: usize = from;
    while i > downto && space_char(v[i - 1])
        invariant
            downto <= i <= from <= v@.len(),
            rskip_spaces_in(v@, from as int, downto as int) == rskip_spaces_in(
                v@,
                i as int,
                downto as int,
            ),
        decreases i,
    {
        i = i - 1;
    }
    i
}

/// Executable counterpart of [`skip_digits_in`].
pub fn scan_digits(v: &Vec<char>, from: usize, to: usize) -> (r: usize)
    requires
        from <= to <= v@.len(),
    ensures
        r == skip_digits_in(v@, from as int, to as int),
        from <= r <= to,
        forall|j: int| from <= j < r ==> is_digit(v@[j]),
{
    let mut i: usize = from;
    while i < to && digit_char(v[i])
        invariant
            from <= i <= to <= v@.len(),
            skip_digits_in(v@, from as int, to as int) == skip_digits_in(v@, i as int, to as int),
            forall|j: int| from <= j < i ==> is_digit(v@[j]),
        decreases to - i,
    {
        i = i + 1;
    }
    i
}

/// Executable counterpart of [`skip_name_in`].
pub fn scan_name(v: &Vec<char>, from: usize, to: usize) -> (r: usize)
    requires
        from <= to <= v@.len(),
    ensures
        r == skip_name_in(v@, from as int, to as int),
        from <= r <= to,
{
    let mut i: usize = from;
    while i < to && !(v[i] == '(' || v[i] == '[' || v[i] == '$' || v[i] == '\t')
        invariant
            from <= i <= to <= v@.len(),
            skip_name_in(v@, from as int, to as int) == skip_name_in(v@, i as int, to as int),
        decreases to - i,
    {
        i = i + 1;
    }
    i
}

/// Executable counterpart of [`skip_bracket_run_in`].
pub fn scan_bracket_run(v: &Vec<char>, from: usize, to: usize) -> (r: usize)
    requires
        from <= to <= v@.len(),
    ensures
        r == skip_bracket_run_in(v@, from as int, to as int),
        from <= r <= to,
{
    let mut i: usize = from;
    while i < to && (space_char(v[i]) || v[i] == '(' || v[i] == '[')
        invariant
            from <= i <= to <= v@.len(),
            skip_bracket_run_in(v@, from as int, to as int) == skip_bracket_run_in(
                v@,
                i as int,
                to as int,
            ),
        decreases to - i,
    {
        i = i + 1;
    }
    i
}

/// Executable counterpart of [`skip_to_newline`].
pub fn scan_to_newline(v: &Vec<char>, from: usize) -> (r: usize)
    requires
        from <= v@.len(),
    ensures
        r == skip_to_newline(v@, from as int),
        from <= r <= v@.len(),
        r < v@.len() ==> v@[r as int] == '\n',
{
    let n = v.len();
    let mut i: usize = from;
    while i < n && v[i] != '\n'
        invariant
            from <= i <= n == v@.len(),
            skip_to_newline(v@, from as int) == skip_to_newline(v@, i as int),
        decreases n - i,
    {
        i = i + 1;
    }
    i
}

/// [`skip_to_newline`] stays within the bounds of the sequence.
pub proof fn lemma_skip_to_newline_bounds(s: Seq<char>, from: int)
    requires
        0 <= from <= s.len(),
    ensures
        from <= skip_to_newline(s, from) <= s.len(),
    decreases s.len() - from,
{
    if from < s.len() && s[from] != '\n' {
        lemma_skip_to_newline_bounds(s, from + 1);
    }
}

/// Index of the first two-face separator `//` at or after `from`, or
/// `s.len()` if there is none.
pub open spec fn find_sep(s: Seq<char>, from: int) -> int
    decreases s.len() - from when from <= s.len()
{
    if from + 2 > s.len() {
        s.len() as int
    } else if s[from] == '/' && s[from + 1] == '/' {
        from
    } else {
        find_sep(s, from + 1)
    }
}

/// [`find_sep`] stays within bounds, and a found separator has room for both
/// slashes.
pub proof fn lemma_find_sep_bounds(s: Seq<char>, from: int)
    requires
        0 <= from <= s.len(),
    ensures
        from <= find_sep(s, from) <= s.len(),
        find_sep(s, from) < s.len() ==> find_sep(s, from) + 2 <= s.len(),
    decreases s.len() - from,
{
    if from + 2 <= s.len() && !(s[from] == '/' && s[from + 1] == '/') {
        lemma_find_sep_bounds(s, from + 1);
    }
}

/// Executable counterpart of [`find_sep`].
pub fn scan_sep(v: &Vec<char>, from: usize) -> (r: usize)
    requires
        from <= v@.len(),
    ensures
        r == find_sep(v@, from as int),
        from <= r <= v@.len(),
        r < v@.len() ==> r + 2 <= v@.len(),
{
    let n = v.len();
    let mut i: usize = from;
    while n - i >= 2 && !(v[i] == '/' && v[i + 1] == '/')
        invariant
            from <= i <= n == v@.len(),
            find_sep(v@, from as int) == find_sep(v@, i as int),
        decreases n - i,
    {
        i = i + 1;
    }
    if n - i >= 2 {
        i
    } else {
        proof {
            assert(find_sep(v@, i as int) == n as int);
        }
        n
    }
}

/// The trimmed pieces of `s` from `from` on, split at each two-face
/// separator `//`; a string without a separator is one piece.
pub open spec fn trimmed_parts_from(s: Seq<char>, from: int) -> Seq<Seq<char>>
    decreases s.len() - from when 0 <= from <= s.len()
    via trimmed_parts_from_decreases
{
    let p = find_sep(s, from);
    let hi = if p >= s.len() {
        s.len() as int
    } else {
        p
    };
    let a = skip_spaces_in(s, from, hi);
    let b = rskip_spaces_in(s, hi, a);
    let piece = s.subrange(a, b);
    if p >= s.len() {
        seq![piece]
    } else {
        seq![piece] + trimmed_parts_from(s, p + 2)
    }
}

#[via_fn]
proof fn trimmed_parts_from_decreases(s: Seq<char>, from: int) {
    if 0 <= from <= s.len() {
        lemma_find_sep_bounds(s, from);
    }
}

/// Whether `s` holds a two-face separator at all.
pub open spec fn has_sep(s: Seq<char>) -> bool {
    find_sep(s, 0) < s.len()
}

/// The numeric value of a sequence of decimal digit characters.
pub open spec fn digits_value(ds: Seq<char>) -> int
    decreases ds.len(),
{
    if ds.len() == 0 {
        0
    } else {
        digits_value(ds.drop_last()) * 10 + (ds.last() as int - '0' as int)
    }
}

/// The lower-cased form of a character sequence, as Unicode case mapping
/// defines it. Left uninterpreted: it stands for what `str::to_lowercase`
/// returns.
pub uninterp spec fn lower_of(s: Seq<char>) -> Seq<char>;

/// Relies on `str::to_lowercase` of std: the result is a function of the
/// input characters alone (Unicode lowercase mapping, no locale); an empty
/// input yields an empty result; and on an all-ASCII input each character
/// maps independently, upper-case letters to their lower-case counterparts
/// 32 code points up, everything else unchanged.
#[verifier::external_body]
pub fn lowercase(s: &str) -> (r: String)
    ensures
        r@ == lower_of(s@),
        s@.len() == 0 ==> r@.len() == 0,
        vstd::utf8::is_ascii_chars(s@) ==> {
            &&& r@.len() == s@.len()
            &&& forall|i: int|
                0 <= i < s@.len() ==> ((#[trigger] r@[i]) as int) == (
                if 'A' <= s@[i] && s@[i] <= 'Z' {
                    s@[i] as int + 32
                } else {
                    s@[i] as int
                })
        },
{
    s.to_lowercase()
}

} // verus!
