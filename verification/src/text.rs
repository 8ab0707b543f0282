//! Text rules for product names: white space, trimming, slugs, canonical
//! names and the test for a censored description.
//!
//! Every string is specified by its view, a `Seq<char>`.

use regex::Regex;
use vstd::prelude::*;

verus! {

/// `String::push` appends one character to the end of the string.
pub assume_specification[ String::push ](s: &mut String, c: char)
    ensures
        final(s)@ == old(s)@.push(c),
;

/// The characters of `s`, in order.
pub fn chars_of(s: &str) -> (out: Vec<char>)
    ensures
        out@ == s@,
{
    let mut out: Vec<char> = Vec::new();
    for c in it: s.chars()
        invariant
            it.seq() == s@,
            out@ == s@.take(it.index()),
    {
        out.push(c);
    }
    out
}

/// The string made of the characters of `v`, in order.
pub fn string_of(v: &Vec<char>) -> (out: String)
    ensures
        out@ == v@,
{
    let mut out = String::new();
    let mut i: usize = 0;
    while i < v.len()
        invariant
            i <= v.len(),
            out@ == v@.take(i as int),
        decreases v.len() - i,
    {
        out.push(v[i]);
        i += 1;
    }
    out
}

/// Appends the characters of `tail` to `v`.
pub fn push_str(v: &mut Vec<char>, tail: &str)
    ensures
        final(v)@ == old(v)@ + tail@,
{
    for c in it: tail.chars()
        invariant
            it.seq() == tail@,
            v@ == old(v)@ + tail@.take(it.index()),
    {
        v.push(c);
    }
}

/// Appends the characters of `tail` to `v`.
pub fn push_chars(v: &mut Vec<char>, tail: &Vec<char>)
    ensures
        final(v)@ == old(v)@ + tail@,
{
    let mut i: usize = 0;
    while i < tail.len()
        invariant
            i <= tail.len(),
            v@ == old(v)@ + tail@.take(i as int),
        decreases tail.len() - i,
    {
        v.push(tail[i]);
        i += 1;
    }
}

/// The characters with the Unicode property `White_Space`.
pub open spec fn is_whitespace(c: char) -> bool {
    ||| '\u{9}' <= c <= '\u{d}'
    ||| c == ' '
    ||| c == '\u{85}'
    ||| c == '\u{a0}'
    ||| c == '\u{1680}'
    ||| '\u{2000}' <= c <= '\u{200a}'
    ||| c == '\u{2028}'
    ||| c == '\u{2029}'
    ||| c == '\u{202f}'
    ||| c == '\u{205f}'
    ||| c == '\u{3000}'
}

/// Whether `c` is white space.
pub fn char_is_whitespace(c: char) -> (b: bool)
    ensures
        b == is_whitespace(c),
{
    ('\u{9}' <= c && c <= '\u{d}') || c == ' ' || c == '\u{85}' || c == '\u{a0}' || c
        == '\u{1680}' || ('\u{2000}' <= c && c <= '\u{200a}') || c == '\u{2028}' || c
        == '\u{2029}' || c == '\u{202f}' || c == '\u{205f}' || c == '\u{3000}'
}

/// `s` without its leading white space.
pub open spec fn trim_start(s: Seq<char>) -> Seq<char>
    decreases s.len(),
{
    if s.len() > 0 && is_whitespace(s.first()) {
        trim_start(s.drop_first())
    } else {
        s
    }
}

/// `s` without its trailing white space.
pub open spec fn trim_end(s: Seq<char>) -> Seq<char>
    decreases s.len(),
{
    if s.len() > 0 && is_whitespace(s.last()) {
        trim_end(s.drop_last())
    } else {
        s
    }
}

/// `s` without its leading and trailing white space.
pub open spec fn trim(s: Seq<char>) -> Seq<char> {
    trim_end(trim_start(s))
}

/// Every character of `s` before `n` is white space.
pub open spec fn all_whitespace_before(s: Seq<char>, n: int) -> bool {
    forall|i: int| 0 <= i < n ==> is_whitespace(#[trigger] s[i])
}

/// Every character of `s` from `n` on is white space.
pub open spec fn all_whitespace_from(s: Seq<char>, n: int) -> bool {
    forall|i: int| n <= i < s.len() ==> is_whitespace(#[trigger] s[i])
}

/// Dropping a white prefix that ends before a black character, or at the end,
/// is what `trim_start` does.
pub proof fn lemma_trim_start_skip(s: Seq<char>, n: int)
    requires
        0 <= n <= s.len(),
        all_whitespace_before(s, n),
        n < s.len() ==> !is_whitespace(s[n]),
    ensures
        trim_start(s) == s.skip(n),
    decreases n,
{
    if n == 0 {
        assert(s.skip(0) =~= s);
    } else {
        assert(is_whitespace(s[0]));
        let t = s.drop_first();
        assert forall|i: int| 0 <= i < n - 1 implies is_whitespace(#[trigger] t[i]) by {
            assert(t[i] == s[i + 1]);
        }
        lemma_trim_start_skip(t, n - 1);
        assert(t.skip(n - 1) =~= s.skip(n));
    }
}

/// Keeping the part before a white suffix that starts after a black
/// character, or at the start, is what `trim_end` does.
pub proof fn lemma_trim_end_take(s: Seq<char>, n: int)
    requires
        0 <= n <= s.len(),
        all_whitespace_from(s, n),
        n > 0 ==> !is_whitespace(s[n - 1]),
    ensures
        trim_end(s) == s.take(n),
    decreases s.len() - n,
{
    if n == s.len() {
        assert(s.take(n) =~= s);
    } else {
        assert(is_whitespace(s[s.len() - 1]));
        let t = s.drop_last();
        assert forall|i: int| n <= i < t.len() implies is_whitespace(#[trigger] t[i]) by {
            assert(t[i] == s[i]);
        }
        lemma_trim_end_take(t, n);
        assert(t.take(n) =~= s.take(n));
    }
}

/// `s` without its leading and trailing white space.
pub fn trim_chars(s: &Vec<char>) -> (out: Vec<char>)
    ensures
        out@ == trim(s@),
{
    let mut start: usize = 0;
    while start < s.len() && char_is_whitespace(s[start])
        invariant
            start <= s.len(),
            all_whitespace_before(s@, start as int),
        decreases s.len() - start,
    {
        start += 1;
    }
    let mut end: usize = s.len();
    while end > start && char_is_whitespace(s[end - 1])
        invariant
            start <= end <= s.len(),
            all_whitespace_from(s@, end as int),
        decreases end,
    {
        end -= 1;
    }
    let mut out: Vec<char> = Vec::new();
    let mut i: usize = start;
    while i < end
        invariant
            start <= i <= end <= s.len(),
            out@ == s@.subrange(start as int, i as int),
        decreases end - i,
    {
        out.push(s[i]);
        i += 1;
    }
    proof {
        lemma_trim_start_skip(s@, start as int);
        let t = s@.skip(start as int);
        let n = end - start;
        assert forall|j: int| n <= j < t.len() implies is_whitespace(#[trigger] t[j]) by {
            assert(t[j] == s@[j + start]);
        }
        if n > 0 {
            assert(t[n - 1] == s@[end - 1]);
        }
        lemma_trim_end_take(t, n);
        assert(t.take(n) =~= s@.subrange(start as int, end as int));
    }
    out
}

/// Whether every character of `s` is `#` or white space: what is left of a
/// text that the platform has blanked out.
pub open spec fn censored(s: Seq<char>) -> bool {
    forall|i: int| 0 <= i < s.len() ==> (#[trigger] s[i]) == '#' || is_whitespace(s[i])
}

/// Whether `s` holds nothing but `#` and white space.
pub fn is_censored(s: &str) -> (b: bool)
    ensures
        b == censored(s@),
{
    let mut all = true;
    for c in it: s.chars()
        invariant
            it.seq() == s@,
            all == censored(s@.take(it.index())),
    {
        proof {
            let k = it.index();
            let before = s@.take(k);
            let after = s@.take(k + 1);
            assert(after[k] == c);
            assert forall|i: int| 0 <= i < k implies before[i] == after[i] by {}
            if censored(after) {
                assert forall|i: int| 0 <= i < before.len() implies (#[trigger] before[i]) == '#'
                    || is_whitespace(before[i]) by {
                    assert(before[i] == after[i]);
                }
            }
        }
        if !(c == '#' || char_is_whitespace(c)) {
            all = false;
        }
    }
    proof {
        assert(s@.take(s@.len() as int) =~= s@);
    }
    all
}

/// `s` with every run of white space replaced by one space.
pub open spec fn collapse_whitespace(s: Seq<char>) -> Seq<char>
    decreases s.len(),
{
    if s.len() == 0 {
        s
    } else if !is_whitespace(s.last()) {
        collapse_whitespace(s.drop_last()).push(s.last())
    } else if s.len() > 1 && is_whitespace(s[s.len() - 2]) {
        collapse_whitespace(s.drop_last())
    } else {
        collapse_whitespace(s.drop_last()).push(' ')
    }
}

/// `s` with its runs of white space collapsed to one space each, and without
/// white space at either end.
pub open spec fn normalize_whitespace(s: Seq<char>) -> Seq<char> {
    trim(collapse_whitespace(s))
}

/// `s` with every run of white space replaced by one space.
pub fn collapse_chars(s: &Vec<char>) -> (out: Vec<char>)
    ensures
        out@ == collapse_whitespace(s@),
{
    let mut out: Vec<char> = Vec::new();
    let mut in_run = false;
    let mut i: usize = 0;
    while i < s.len()
        invariant
            i <= s.len(),
            out@ == collapse_whitespace(s@.take(i as int)),
            in_run == (i > 0 && is_whitespace(s@[i - 1])),
        decreases s.len() - i,
    {
        let c = s[i];
        proof {
            let next = s@.take(i + 1);
            assert(next.drop_last() =~= s@.take(i as int));
            assert(next.last() == c);
            if i > 0 {
                assert(next[next.len() - 2] == s@[i - 1]);
            }
        }
        if char_is_whitespace(c) {
            if !in_run {
                out.push(' ');
            }
            in_run = true;
        } else {
            out.push(c);
            in_run = false;
        }
        i += 1;
    }
    proof {
        assert(s@.take(s@.len() as int) =~= s@);
    }
    out
}

/// What `str::to_lowercase` makes of a string with these characters.
pub uninterp spec fn lowercase_of(s: Seq<char>) -> Seq<char>;

/// `str::to_lowercase`: the lower-case form of `s` as Unicode defines it,
/// which is a function of the characters of `s` alone.
#[verifier::external_body]
fn to_lowercase(s: &str) -> (out: String)
    ensures
        out@ == lowercase_of(s@),
{
    s.to_lowercase()
}

/// The characters that a slug keeps from a lower-cased name: lower-case
/// ASCII letters, ASCII digits and white space.
pub open spec fn kept_in_slug(c: char) -> bool {
    ('a' <= c <= 'z') || ('0' <= c <= '9') || is_whitespace(c)
}

/// A hyphen for white space, every other character as it is.
pub open spec fn hyphen_for_whitespace(c: char) -> char {
    if is_whitespace(c) {
        '-'
    } else {
        c
    }
}

/// The slug made from text that is already in lower case.
pub open spec fn slug_of_lowercase(lower: Seq<char>) -> Seq<char> {
    normalize_whitespace(lower.filter(|c: char| kept_in_slug(c))).map_values(
        |c: char| hyphen_for_whitespace(c),
    )
}

/// The slug of a name, by which a new product is keyed: the name in lower
/// case, stripped of all but ASCII letters, digits and white space, trimmed,
/// and with one hyphen for each run of white space left.
pub open spec fn slug_of(name: Seq<char>) -> Seq<char> {
    slug_of_lowercase(lowercase_of(name))
}

/// The slug made from text that is already in lower case.
pub fn slug_from_lowercase(lower: &str) -> (out: String)
    ensures
        out@ == slug_of_lowercase(lower@),
{
    let mut kept: Vec<char> = Vec::new();
    for c in it: lower.chars()
        invariant
            it.seq() == lower@,
            kept@ == lower@.take(it.index()).filter(|c: char| kept_in_slug(c)),
    {
        proof {
            let k = it.index();
            assert(lower@.take(k + 1) =~= lower@.take(k).push(c));
            Seq::lemma_filter_push(lower@.take(k), c, |c: char| kept_in_slug(c));
        }
        if ('a' <= c && c <= 'z') || ('0' <= c && c <= '9') || char_is_whitespace(c) {
            kept.push(c);
        }
    }
    proof {
        assert(lower@.take(lower@.len() as int) =~= lower@);
    }
    let collapsed = collapse_chars(&kept);
    let trimmed = trim_chars(&collapsed);
    let mut out = String::new();
    let mut i: usize = 0;
    while i < trimmed.len()
        invariant
            i <= trimmed.len(),
            out@ == trimmed@.take(i as int).map_values(|c: char| hyphen_for_whitespace(c)),
        decreases trimmed.len() - i,
    {
        let c = trimmed[i];
        proof {
            let f = |c: char| hyphen_for_whitespace(c);
            assert(trimmed@.take(i + 1).map_values(f) =~= trimmed@.take(i as int).map_values(
                f,
            ).push(f(c)));
        }
        if char_is_whitespace(c) {
            out.push('-');
        } else {
            out.push(c);
        }
        i += 1;
    }
    proof {
        assert(trimmed@.take(trimmed@.len() as int) =~= trimmed@);
    }
    out
}

/// The slug of `name`.
pub fn format_name(name: &str) -> (out: String)
    ensures
        out@ == slug_of(name@),
{
    let lower = to_lowercase(name);
    slug_from_lowercase(lower.as_str())
}

/// Whether `Regex::new` accepts a pattern with these characters.
pub uninterp spec fn regex_compiles(pattern: Seq<char>) -> bool;

/// What `Regex::replace_all` returns for an expression compiled from
/// `pattern`, a text and a replacement string with these characters.
pub uninterp spec fn regex_replaced(
    pattern: Seq<char>,
    text: Seq<char>,
    replacement: Seq<char>,
) -> Seq<char>;

/// `Regex::new`: whether the pattern is accepted depends on its characters
/// alone, the size limit being the crate's default.
#[verifier::external_body]
fn regex_is_valid(pattern: &str) -> (ok: bool)
    ensures
        ok == regex_compiles(pattern@),
{
    Regex::new(pattern).is_ok()
}

/// `Regex::new`, then `Regex::replace_all`: nothing where the pattern is
/// refused; else the text with every match, leftmost first and not
/// overlapping, replaced by the replacement with its `$` references
/// expanded, which depends on the three strings alone.
#[verifier::external_body]
fn regex_replace_all(pattern: &str, text: &str, replacement: &str) -> (out: Option<String>)
    ensures
        out is Some <==> regex_compiles(pattern@),
        out matches Some(t) ==> t@ == regex_replaced(pattern@, text@, replacement@),
{
    match Regex::new(pattern) {
        Ok(re) => Some(re.replace_all(text, replacement).into_owned()),
        Err(_) => None,
    }
}

/// A pattern that names are filtered by. It is known to compile.
#[derive(Debug)]
pub struct NameFilter {
    pattern: String,
}

impl View for NameFilter {
    type V = Seq<char>;

    closed spec fn view(&self) -> Seq<char> {
        self.pattern@
    }
}

impl NameFilter {
    #[verifier::type_invariant]
    spec fn compiles(self) -> bool {
        regex_compiles(self.pattern@)
    }

    /// The filter for `pattern`, where the pattern compiles.
    pub fn new(pattern: String) -> (out: Option<Self>)
        ensures
            out is Some <==> regex_compiles(pattern@),
            out matches Some(f) ==> f@ == pattern@,
    {
        if regex_is_valid(pattern.as_str()) {
            Some(NameFilter { pattern })
        } else {
            None
        }
    }

    /// The pattern as it was given.
    pub fn as_str(&self) -> (out: &str)
        ensures
            out@ == self@,
            regex_compiles(self@),
    {
        proof {
            use_type_invariant(self);
        }
        self.pattern.as_str()
    }
}

impl Clone for NameFilter {
    fn clone(&self) -> (out: Self)
        ensures
            out@ == self@,
    {
        proof {
            use_type_invariant(self);
        }
        NameFilter { pattern: self.pattern.clone() }
    }
}

/// The patterns of a list of filters, in order; none for a missing list.
pub open spec fn filter_patterns(filters: Option<Vec<NameFilter>>) -> Seq<Seq<char>> {
    match filters {
        Some(list) => list@.map_values(|f: NameFilter| f@),
        None => Seq::empty(),
    }
}

/// The patterns used where none is configured: the discount mark that
/// `apply_discount_prefix` writes, anything in square brackets, and every
/// character that is no ASCII letter, digit, white space or one of `!?,.-`.
pub open spec fn default_patterns() -> Seq<Seq<char>> {
    seq![
        "\u{1F4B2}.*?% OFF\u{1F4B2}"@,
        "\\[.*?\\]"@,
        "[^a-zA-Z0-9!?,.\\-\\s]"@,
    ]
}

/// `text` with every match of `pattern` replaced by one space; `text` itself
/// where the pattern does not compile.
pub open spec fn apply_filter(pattern: Seq<char>, text: Seq<char>) -> Seq<char> {
    if regex_compiles(pattern) {
        regex_replaced(pattern, text, " "@)
    } else {
        text
    }
}

/// `text` after each of `patterns` has been applied to it, first to last.
pub open spec fn apply_filters(patterns: Seq<Seq<char>>, text: Seq<char>) -> Seq<char>
    decreases patterns.len(),
{
    if patterns.len() == 0 {
        text
    } else {
        apply_filter(patterns.last(), apply_filters(patterns.drop_last(), text))
    }
}

/// The patterns that take effect: the configured ones, or the default ones
/// where none is configured.
pub open spec fn effective_patterns(patterns: Seq<Seq<char>>) -> Seq<Seq<char>> {
    if patterns.len() == 0 {
        default_patterns()
    } else {
        patterns
    }
}

/// The canonical form of a name: the effective patterns applied, then white
/// space collapsed and trimmed.
pub open spec fn canonical_of(name: Seq<char>, patterns: Seq<Seq<char>>) -> Seq<char> {
    normalize_whitespace(apply_filters(effective_patterns(patterns), name))
}

fn apply_pattern(pattern: &str, text: String) -> (out: String)
    ensures
        out@ == apply_filter(pattern@, text@),
{
    match regex_replace_all(pattern, text.as_str(), " ") {
        Some(replaced) => replaced,
        None => text,
    }
}

/// `text` with its white space collapsed and trimmed.
pub fn normalize(text: &str) -> (out: String)
    ensures
        out@ == normalize_whitespace(text@),
{
    let chars = chars_of(text);
    let collapsed = collapse_chars(&chars);
    let trimmed = trim_chars(&collapsed);
    string_of(&trimmed)
}

/// The canonical form of `name` under `filters`.
pub fn canonical_name(name: &str, filters: &Option<Vec<NameFilter>>) -> (out: String)
    ensures
        out@ == canonical_of(name@, filter_patterns(*filters)),
{
    let mut text = name.to_owned();
    let configured: usize = match filters {
        Some(list) => list.len(),
        None => 0,
    };
    if configured == 0 {
        text = apply_pattern("\u{1F4B2}.*?% OFF\u{1F4B2}", text);
        text = apply_pattern("\\[.*?\\]", text);
        text = apply_pattern("[^a-zA-Z0-9!?,.\\-\\s]", text);
        proof {
            let d = default_patterns();
            assert(d.drop_last().drop_last().drop_last() =~= Seq::<Seq<char>>::empty());
            reveal_with_fuel(apply_filters, 4);
            assert(filter_patterns(*filters).len() == 0);
        }
    } else {
        let list = filters.as_ref().unwrap();
        let ghost patterns = filter_patterns(*filters);
        let mut i: usize = 0;
        while i < list.len()
            invariant
                i <= list.len(),
                patterns == list@.map_values(|f: NameFilter| f@),
                text@ == apply_filters(patterns.take(i as int), name@),
            decreases list.len() - i,
        {
            proof {
                assert(patterns.take(i + 1).drop_last() =~= patterns.take(i as int));
            }
            text = apply_pattern(list[i].as_str(), text);
            i += 1;
        }
        proof {
            assert(patterns.take(patterns.len() as int) =~= patterns);
        }
    }
    normalize(text.as_str())
}

/// The first pattern of a list that does not compile.
#[derive(Debug)]
pub struct InvalidFilter {
    pub index: usize,
    pub pattern: String,
}

/// Turns the patterns read from a catalog into filters. A missing list stays
/// missing; a list is refused at its first pattern that does not compile.
pub fn deserialize_regex_vec(patterns: Option<Vec<String>>) -> (out: Result<
    Option<Vec<NameFilter>>,
    InvalidFilter,
>)
    ensures
        out matches Ok(filters) ==> (filters is Some <==> patterns is Some),
        out matches Ok(filters) ==> (patterns matches Some(list) ==> filter_patterns(filters)
            == list@.map_values(|p: String| p@)),
        out is Ok ==> (patterns matches Some(list) ==> forall|i: int|
            0 <= i < list.len() ==> regex_compiles(#[trigger] list[i]@)),
        out matches Err(e) ==> {
            &&& patterns matches Some(list)
            &&& e.index < list.len()
            &&& e.pattern@ == list[e.index as int]@
            &&& !regex_compiles(list[e.index as int]@)
            &&& forall|i: int| 0 <= i < e.index ==> regex_compiles(#[trigger] list[i]@)
        },
{
    match patterns {
        None => Ok(None),
        Some(list) => {
            let mut filters: Vec<NameFilter> = Vec::new();
            let mut i: usize = 0;
            while i < list.len()
                invariant
                    i <= list.len(),
                    patterns == Some(list),
                    filters@.map_values(|f: NameFilter| f@) == list@.take(i as int).map_values(
                        |p: String| p@,
                    ),
                    forall|j: int| 0 <= j < i ==> regex_compiles(#[trigger] list[j]@),
                decreases list.len() - i,
            {
                let pattern = list[i].clone();
                match NameFilter::new(pattern) {
                    Some(filter) => {
                        proof {
                            let fv = |f: NameFilter| f@;
                            let pv = |p: String| p@;
                            assert(filters@.push(filter).map_values(fv) =~= filters@.map_values(
                                fv,
                            ).push(filter@));
                            assert(list@.take(i + 1).map_values(pv) =~= list@.take(
                                i as int,
                            ).map_values(pv).push(list[i as int]@));
                        }
                        filters.push(filter);
                    },
                    None => {
                        return Err(InvalidFilter { index: i, pattern: list[i].clone() });
                    },
                }
                i += 1;
            }
            proof {
                assert(list@.take(list@.len() as int) =~= list@);
            }
            Ok(Some(filters))
        },
    }
}

/// The patterns of the filters, as they are written to a catalog.
pub fn serialize_regex_vec(filters: &Option<Vec<NameFilter>>) -> (out: Option<Vec<String>>)
    ensures
        out is Some <==> filters is Some,
        out matches Some(list) ==> list@.map_values(|p: String| p@) == filter_patterns(*filters),
{
    match filters {
        None => None,
        Some(list) => {
            let mut patterns: Vec<String> = Vec::new();
            let mut i: usize = 0;
            while i < list.len()
                invariant
                    i <= list.len(),
                    patterns@.map_values(|p: String| p@) == list@.take(i as int).map_values(
                        |f: NameFilter| f@,
                    ),
                decreases list.len() - i,
            {
                let pattern = list[i].as_str().to_owned();
                proof {
                    let fv = |f: NameFilter| f@;
                    let pv = |p: String| p@;
                    assert(patterns@.push(pattern).map_values(pv) =~= patterns@.map_values(
                        pv,
                    ).push(pattern@));
                    assert(list@.take(i + 1).map_values(fv) =~= list@.take(i as int).map_values(
                        fv,
                    ).push(list[i as int]@));
                }
                patterns.push(pattern);
                i += 1;
            }
            proof {
                assert(list@.take(list@.len() as int) =~= list@);
            }
            Some(patterns)
        },
    }
}

/// Where `trim_start` stops: at the first character that is not white space.
pub proof fn lemma_trim_start_shape(s: Seq<char>) -> (n: int)
    ensures
        0 <= n <= s.len(),
        all_whitespace_before(s, n),
        n < s.len() ==> !is_whitespace(s[n]),
        trim_start(s) == s.skip(n),
    decreases s.len(),
{
    if s.len() > 0 && is_whitespace(s.first()) {
        let t = s.drop_first();
        let m = lemma_trim_start_shape(t);
        assert forall|i: int| 0 <= i < m + 1 implies is_whitespace(#[trigger] s[i]) by {
            if i > 0 {
                assert(s[i] == t[i - 1]);
            }
        }
        if m + 1 < s.len() {
            assert(s[m + 1] == t[m]);
        }
        assert(t.skip(m) =~= s.skip(m + 1));
        m + 1
    } else {
        assert(s.skip(0) =~= s);
        0
    }
}

/// Where `trim_end` stops: after the last character that is not white space.
pub proof fn lemma_trim_end_shape(s: Seq<char>) -> (n: int)
    ensures
        0 <= n <= s.len(),
        all_whitespace_from(s, n),
        n > 0 ==> !is_whitespace(s[n - 1]),
        trim_end(s) == s.take(n),
    decreases s.len(),
{
    if s.len() > 0 && is_whitespace(s.last()) {
        let t = s.drop_last();
        let m = lemma_trim_end_shape(t);
        assert forall|i: int| m <= i < s.len() implies is_whitespace(#[trigger] s[i]) by {
            if i < t.len() {
                assert(s[i] == t[i]);
            }
        }
        if m > 0 {
            assert(s[m - 1] == t[m - 1]);
        }
        assert(t.take(m) =~= s.take(m));
        m
    } else {
        assert(s.take(s.len() as int) =~= s);
        s.len() as int
    }
}

/// A trimmed text is a stretch of the text that neither starts nor ends with
/// white space.
pub proof fn lemma_trim_shape(s: Seq<char>) -> (bounds: (int, int))
    ensures
        0 <= bounds.0 <= bounds.1 <= s.len(),
        trim(s) == s.subrange(bounds.0, bounds.1),
        bounds.0 < bounds.1 ==> !is_whitespace(s[bounds.0]) && !is_whitespace(s[bounds.1 - 1]),
{
    let a = lemma_trim_start_shape(s);
    let t = s.skip(a);
    let m = lemma_trim_end_shape(t);
    assert(t.take(m) =~= s.subrange(a, a + m));
    if m > 0 {
        assert(t[m - 1] == s[a + m - 1]);
    }
    (a, a + m)
}

/// The characters of a slug: lower-case ASCII letters, ASCII digits, hyphen.
pub open spec fn is_slug_char(c: char) -> bool {
    ('a' <= c <= 'z') || ('0' <= c <= '9') || c == '-'
}

/// All white space in `s` is single spaces.
pub open spec fn is_single_spaced(s: Seq<char>) -> bool {
    &&& forall|i: int| 0 <= i < s.len() && is_whitespace(#[trigger] s[i]) ==> s[i] == ' '
    &&& forall|i: int|
        0 < i < s.len() ==> !(is_whitespace(s[i - 1]) && is_whitespace(#[trigger] s[i]))
}

/// All white space in `s` is single spaces between other characters.
pub open spec fn is_normalized(s: Seq<char>) -> bool {
    &&& is_single_spaced(s)
    &&& s.len() > 0 ==> !is_whitespace(s.first()) && !is_whitespace(s.last())
}

/// Collapsing leaves single spaces only, and the text ends in white space
/// just when it did before.
pub proof fn lemma_collapse_single_spaced(s: Seq<char>)
    ensures
        is_single_spaced(collapse_whitespace(s)),
        s.len() == 0 ==> collapse_whitespace(s).len() == 0,
        s.len() > 0 ==> collapse_whitespace(s).len() > 0 && (is_whitespace(
            collapse_whitespace(s).last(),
        ) <==> is_whitespace(s.last())),
    decreases s.len(),
{
    if s.len() > 0 {
        let rest = s.drop_last();
        lemma_collapse_single_spaced(rest);
        let c = collapse_whitespace(rest);
        let out = collapse_whitespace(s);
        if rest.len() > 0 {
            assert(rest.last() == s[s.len() - 2]);
        }
        if !is_whitespace(s.last()) || !(s.len() > 1 && is_whitespace(s[s.len() - 2])) {
            let x = if is_whitespace(s.last()) {
                ' '
            } else {
                s.last()
            };
            assert(out == c.push(x));
            assert forall|i: int| 0 <= i < out.len() && is_whitespace(
                #[trigger] out[i],
            ) implies out[i] == ' ' by {
                if i < c.len() {
                    assert(out[i] == c[i]);
                }
            }
            assert forall|i: int| 0 < i < out.len() implies !(is_whitespace(out[i - 1])
                && is_whitespace(#[trigger] out[i])) by {
                if i < c.len() {
                    assert(out[i] == c[i]);
                    assert(out[i - 1] == c[i - 1]);
                } else {
                    assert(out[i - 1] == c.last());
                }
            }
        }
    }
}

/// Collapsing changes nothing in a text whose white space is single spaces.
pub proof fn lemma_collapse_fixed(s: Seq<char>)
    requires
        is_single_spaced(s),
    ensures
        collapse_whitespace(s) == s,
    decreases s.len(),
{
    if s.len() > 0 {
        let rest = s.drop_last();
        assert forall|i: int| 0 <= i < rest.len() && is_whitespace(
            #[trigger] rest[i],
        ) implies rest[i] == ' ' by {
            assert(rest[i] == s[i]);
        }
        assert forall|i: int| 0 < i < rest.len() implies !(is_whitespace(rest[i - 1])
            && is_whitespace(#[trigger] rest[i])) by {
            assert(rest[i] == s[i]);
            assert(rest[i - 1] == s[i - 1]);
        }
        lemma_collapse_fixed(rest);
        if is_whitespace(s.last()) {
            assert(s[s.len() - 1] == ' ');
            if s.len() > 1 {
                assert(!(is_whitespace(s[s.len() - 1 - 1]) && is_whitespace(s[s.len() - 1])));
            }
        }
        assert(rest.push(s.last()) =~= s);
    }
}

/// What `normalize_whitespace` returns is normalized.
pub proof fn lemma_normalize_is_normalized(s: Seq<char>)
    ensures
        is_normalized(normalize_whitespace(s)),
{
    let c = collapse_whitespace(s);
    lemma_collapse_single_spaced(s);
    let (a, b) = lemma_trim_shape(c);
    let n = c.subrange(a, b);
    assert forall|i: int| 0 <= i < n.len() && is_whitespace(#[trigger] n[i]) implies n[i]
        == ' ' by {
        assert(n[i] == c[a + i]);
    }
    assert forall|i: int| 0 < i < n.len() implies !(is_whitespace(n[i - 1]) && is_whitespace(
        #[trigger] n[i],
    )) by {
        assert(n[i] == c[a + i]);
        assert(n[i - 1] == c[a + i - 1]);
    }
    if n.len() > 0 {
        assert(n.first() == c[a]);
        assert(n.last() == c[b - 1]);
    }
}

/// Normalizing changes nothing in a normalized text.
pub proof fn lemma_normalized_fixed(s: Seq<char>)
    requires
        is_normalized(s),
    ensures
        normalize_whitespace(s) == s,
{
    lemma_collapse_fixed(s);
}

/// Normalizing white space twice is the same as normalizing it once.
pub proof fn lemma_normalize_idempotent(s: Seq<char>)
    ensures
        normalize_whitespace(normalize_whitespace(s)) == normalize_whitespace(s),
{
    lemma_normalize_is_normalized(s);
    lemma_normalized_fixed(normalize_whitespace(s));
}

/// A canonical name is normalized, whatever the filters are.
pub proof fn lemma_canonical_is_normalized(name: Seq<char>, patterns: Seq<Seq<char>>)
    ensures
        is_normalized(canonical_of(name, patterns)),
{
    lemma_normalize_is_normalized(apply_filters(effective_patterns(patterns), name));
}

/// Filters that each leave a text as it is leave it as it is together.
pub proof fn lemma_apply_filters_fixed(patterns: Seq<Seq<char>>, text: Seq<char>)
    requires
        forall|i: int| 0 <= i < patterns.len() ==> apply_filter(#[trigger] patterns[i], text) == text,
    ensures
        apply_filters(patterns, text) == text,
    decreases patterns.len(),
{
    if patterns.len() > 0 {
        let rest = patterns.drop_last();
        assert forall|i: int| 0 <= i < rest.len() implies apply_filter(#[trigger] rest[i], text)
            == text by {
            assert(rest[i] == patterns[i]);
        }
        lemma_apply_filters_fixed(rest, text);
        assert(apply_filter(patterns[patterns.len() - 1], text) == text);
    }
}

/// A normalized name in which no effective filter finds anything to replace
/// is its own canonical form.
pub proof fn lemma_canonical_fixed(name: Seq<char>, patterns: Seq<Seq<char>>)
    requires
        is_normalized(name),
        forall|i: int|
            0 <= i < effective_patterns(patterns).len() ==> apply_filter(
                #[trigger] effective_patterns(patterns)[i],
                name,
            ) == name,
    ensures
        canonical_of(name, patterns) == name,
{
    lemma_apply_filters_fixed(effective_patterns(patterns), name);
    lemma_normalized_fixed(name);
}

/// The canonical form of a canonical name is that name again, wherever no
/// effective filter finds anything to replace in the canonical name.
pub proof fn lemma_canonical_idempotent(name: Seq<char>, patterns: Seq<Seq<char>>)
    requires
        forall|i: int|
            0 <= i < effective_patterns(patterns).len() ==> apply_filter(
                #[trigger] effective_patterns(patterns)[i],
                canonical_of(name, patterns),
            ) == canonical_of(name, patterns),
    ensures
        canonical_of(canonical_of(name, patterns), patterns) == canonical_of(name, patterns),
{
    lemma_canonical_is_normalized(name, patterns);
    lemma_canonical_fixed(canonical_of(name, patterns), patterns);
}

/// Collapsing white space leaves only characters that a slug keeps, where
/// the text held no others.
pub proof fn lemma_collapse_kept(s: Seq<char>)
    requires
        forall|i: int| 0 <= i < s.len() ==> kept_in_slug(#[trigger] s[i]),
    ensures
        forall|i: int|
            0 <= i < collapse_whitespace(s).len() ==> kept_in_slug(
                #[trigger] collapse_whitespace(s)[i],
            ),
    decreases s.len(),
{
    if s.len() > 0 {
        let rest = s.drop_last();
        assert forall|i: int| 0 <= i < rest.len() implies kept_in_slug(#[trigger] rest[i]) by {
            assert(rest[i] == s[i]);
        }
        lemma_collapse_kept(rest);
        let c = collapse_whitespace(rest);
        let out = collapse_whitespace(s);
        assert(kept_in_slug(s[s.len() - 1]));
        assert forall|i: int| 0 <= i < out.len() implies kept_in_slug(#[trigger] out[i]) by {
            if i < c.len() {
                assert(out[i] == c[i]);
            }
        }
    }
}

/// A slug holds only lower-case ASCII letters, ASCII digits and hyphens; it
/// neither starts nor ends with a hyphen, and no two hyphens stand side by
/// side in it.
pub proof fn lemma_slug_shape(name: Seq<char>)
    ensures
        forall|i: int| 0 <= i < slug_of(name).len() ==> is_slug_char(#[trigger] slug_of(name)[i]),
        slug_of(name).len() > 0 ==> slug_of(name).first() != '-' && slug_of(name).last() != '-',
        forall|i: int|
            0 < i < slug_of(name).len() ==> !(slug_of(name)[i - 1] == '-' && (
            #[trigger] slug_of(name)[i]) == '-'),
{
    broadcast use vstd::seq_lib::group_filter_ensures;

    let lower = lowercase_of(name);
    let keep = |c: char| kept_in_slug(c);
    let kept = lower.filter(keep);
    assert forall|i: int| 0 <= i < kept.len() implies kept_in_slug(#[trigger] kept[i]) by {
        assert(keep(kept[i]));
    }
    lemma_collapse_kept(kept);
    lemma_normalize_is_normalized(kept);
    let collapsed = collapse_whitespace(kept);
    let (a, b) = lemma_trim_shape(collapsed);
    let normal = normalize_whitespace(kept);
    assert(normal == collapsed.subrange(a, b));
    let slug = slug_of(name);
    assert(slug == normal.map_values(|c: char| hyphen_for_whitespace(c)));
    assert forall|i: int| 0 <= i < slug.len() implies is_slug_char(#[trigger] slug[i]) by {
        assert(normal[i] == collapsed[a + i]);
        assert(kept_in_slug(collapsed[a + i]));
    }
    assert forall|i: int| 0 < i < slug.len() implies !(slug[i - 1] == '-' && (#[trigger] slug[i])
        == '-') by {
        assert(normal[i] == collapsed[a + i]);
        assert(normal[i - 1] == collapsed[a + i - 1]);
        assert(kept_in_slug(collapsed[a + i]));
        assert(kept_in_slug(collapsed[a + i - 1]));
        assert(!(is_whitespace(normal[i - 1]) && is_whitespace(normal[i])));
    }
    if slug.len() > 0 {
        assert(normal[0] == collapsed[a]);
        assert(kept_in_slug(collapsed[a]));
        assert(normal[b - a - 1] == collapsed[b - 1]);
        assert(kept_in_slug(collapsed[b - 1]));
    }
}

} // verus!
