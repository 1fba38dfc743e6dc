//! Severity levels and the classifier that assigns one to a line of text.
//!
//! A level is a rule: a name, a pattern of space-separated tokens, a switch
//! and two colours. A line matches a rule when it contains one of the rule's
//! tokens as a literal, case-sensitive substring. Rules are tried in order and
//! the first that matches wins.

use crate::text::{chars_of, contains, contains_range, lemma_split_push, split};
use vstd::prelude::*;

verus! {

/// A colour with eight bits per channel. `a` is the opacity: 0 is fully
/// transparent, 255 fully opaque.
#[derive(Clone, Copy, Debug, PartialEq, Eq, Structural)]
pub struct Color {
    pub r: u8,
    pub g: u8,
    pub b: u8,
    pub a: u8,
}

impl Color {
    /// Opaque white.
    pub open spec fn spec_white() -> Color {
        Color { r: 255, g: 255, b: 255, a: 255 }
    }

    /// Black with no opacity at all.
    pub open spec fn spec_transparent() -> Color {
        Color { r: 0, g: 0, b: 0, a: 0 }
    }

    /// Opaque white.
    #[verifier::when_used_as_spec(spec_white)]
    pub fn white() -> (c: Color)
        ensures
            c == Color::spec_white(),
    {
        Color { r: 255, g: 255, b: 255, a: 255 }
    }

    /// Black with no opacity at all.
    #[verifier::when_used_as_spec(spec_transparent)]
    pub fn transparent() -> (c: Color)
        ensures
            c == Color::spec_transparent(),
    {
        Color { r: 0, g: 0, b: 0, a: 0 }
    }

    /// The opaque colour with the given channels.
    pub open spec fn rgb8(r: u8, g: u8, b: u8) -> Color {
        Color { r, g, b, a: 255 }
    }

    /// The opaque colour with the given channels.
    pub fn from_rgb8(r: u8, g: u8, b: u8) -> (c: Color)
        ensures
            c == Color::rgb8(r, g, b),
    {
        Color { r, g, b, a: 255 }
    }
}

/// A severity level: the rule that recognises it and how its lines are shown.
#[derive(Debug)]
pub struct LogLevel {
    pub name: String,
    /// The tokens that mark a line as being of this level, separated by
    /// single spaces.
    pub pattern: String,
    /// Whether lines of this level are shown.
    pub enabled: bool,
    pub foreground: Color,
    pub background: Color,
}

/// The mathematical value of a [`LogLevel`].
pub struct LevelView {
    pub name: Seq<char>,
    pub pattern: Seq<char>,
    pub enabled: bool,
    pub foreground: Color,
    pub background: Color,
}

impl View for LogLevel {
    type V = LevelView;

    open spec fn view(&self) -> LevelView {
        LevelView {
            name: self.name@,
            pattern: self.pattern@,
            enabled: self.enabled,
            foreground: self.foreground,
            background: self.background,
        }
    }
}

impl LogLevel {
    /// A level that is switched on.
    pub fn new(name: String, pattern: String, foreground: Color, background: Color) -> (r: Self)
        ensures
            r@ == (LevelView {
                name: name@,
                pattern: pattern@,
                enabled: true,
                foreground,
                background,
            }),
    {
        Self { name, pattern, enabled: true, foreground, background }
    }
}

impl Clone for LogLevel {
    fn clone(&self) -> (r: Self)
        ensures
            r@ == self@,
    {
        Self {
            name: self.name.clone(),
            pattern: self.pattern.clone(),
            enabled: self.enabled,
            foreground: self.foreground,
            background: self.background,
        }
    }
}

/// An ordered rule set.
#[derive(Debug)]
pub struct Filters {
    pub levels: Vec<LogLevel>,
}

/// The values of a sequence of levels.
pub open spec fn level_views(levels: Seq<LogLevel>) -> Seq<LevelView> {
    levels.map_values(|l: LogLevel| l@)
}

impl View for Filters {
    type V = Seq<LevelView>;

    open spec fn view(&self) -> Seq<LevelView> {
        level_views(self.levels@)
    }
}

/// The rule set that a new document starts with.
pub open spec fn default_levels() -> Seq<LevelView> {
    seq![
        LevelView {
            name: "Verbose"@,
            pattern: "VERBOSE TRACE"@,
            enabled: true,
            foreground: Color::rgb8(2, 51, 0),
            background: Color::rgb8(154, 249, 149),
        },
        LevelView {
            name: "Debug"@,
            pattern: "DEBUG"@,
            enabled: true,
            foreground: Color::rgb8(0, 32, 66),
            background: Color::rgb8(141, 195, 252),
        },
        LevelView {
            name: "Info"@,
            pattern: "INFO INFORMATION"@,
            enabled: true,
            foreground: Color::white(),
            background: Color::transparent(),
        },
        LevelView {
            name: "Warn"@,
            pattern: "WARN WARNING"@,
            enabled: true,
            foreground: Color::rgb8(79, 72, 0),
            background: Color::rgb8(249, 238, 109),
        },
        LevelView {
            name: "Error"@,
            pattern: "ERROR"@,
            enabled: true,
            foreground: Color::rgb8(51, 1, 1),
            background: Color::rgb8(252, 116, 116),
        },
    ]
}

impl Default for Filters {
    fn default() -> (r: Self)
        ensures
            r@ == default_levels(),
    {
        let mut levels: Vec<LogLevel> = Vec::new();
        levels.push(
            LogLevel::new(
                "Verbose".to_owned(),
                "VERBOSE TRACE".to_owned(),
                Color::from_rgb8(2, 51, 0),
                Color::from_rgb8(154, 249, 149),
            ),
        );
        levels.push(
            LogLevel::new(
                "Debug".to_owned(),
                "DEBUG".to_owned(),
                Color::from_rgb8(0, 32, 66),
                Color::from_rgb8(141, 195, 252),
            ),
        );
        levels.push(
            LogLevel::new(
                "Info".to_owned(),
                "INFO INFORMATION".to_owned(),
                Color::white(),
                Color::transparent(),
            ),
        );
        levels.push(
            LogLevel::new(
                "Warn".to_owned(),
                "WARN WARNING".to_owned(),
                Color::from_rgb8(79, 72, 0),
                Color::from_rgb8(249, 238, 109),
            ),
        );
        levels.push(
            LogLevel::new(
                "Error".to_owned(),
                "ERROR".to_owned(),
                Color::from_rgb8(51, 1, 1),
                Color::from_rgb8(252, 116, 116),
            ),
        );
        Self { levels }
    }
}

impl Clone for Filters {
    fn clone(&self) -> (r: Self)
        ensures
            r@ == self@,
    {
        let mut levels: Vec<LogLevel> = Vec::new();
        let mut i: usize = 0;
        while i < self.levels.len()
            invariant
                i <= self.levels.len(),
                levels.len() == i,
                level_views(levels@) == self@.take(i as int),
            decreases self.levels.len() - i,
        {
            let ghost before = levels@;
            let level = self.levels[i].clone();
            levels.push(level);
            assert forall|j: int| 0 <= j < i + 1 implies level_views(levels@)[j] == self@[j] by {
                if j < i {
                    assert(level_views(before)[j] == self@.take(i as int)[j]);
                }
            }
            i += 1;
        }
        Self { levels }
    }
}

/// Whether one of `pieces` occurs in `text`.
pub open spec fn contains_any(text: Seq<char>, pieces: Seq<Seq<char>>) -> bool {
    exists|k: int| 0 <= k < pieces.len() && contains(text, #[trigger] pieces[k])
}

/// Whether `text` contains one of the tokens of `pattern`. The tokens are the
/// pieces of the pattern between single spaces, so a pattern that is empty,
/// begins or ends with a space, or holds two spaces in a row has an empty
/// token, which every text contains.
pub open spec fn pattern_matches(text: Seq<char>, pattern: Seq<char>) -> bool {
    contains_any(text, split(pattern, ' '))
}

/// The first rule at or after `from` that `text` matches, if any.
pub open spec fn first_match_from(text: Seq<char>, rules: Seq<LevelView>, from: int) -> Option<int>
    decreases rules.len() - from,
{
    if from < 0 || from >= rules.len() {
        None
    } else if pattern_matches(text, rules[from].pattern) {
        Some(from)
    } else {
        first_match_from(text, rules, from + 1)
    }
}

/// The first rule, in the order of the rule set, that `text` matches.
pub open spec fn first_match(text: Seq<char>, rules: Seq<LevelView>) -> Option<int> {
    first_match_from(text, rules, 0)
}

/// The level that a line gets: the one it matches, or else the one carried
/// over from the lines before it.
pub open spec fn carry(found: Option<int>, last: Option<int>) -> Option<int> {
    if found is Some {
        found
    } else {
        last
    }
}

/// An index into a rule set, as a mathematical integer.
pub open spec fn level_index(level: Option<usize>) -> Option<int> {
    match level {
        Some(k) => Some(k as int),
        None => None,
    }
}

/// First match wins: the rule found is one that the text matches, no rule
/// before it matches, and none is found only when no rule matches at all.
pub proof fn lemma_first_match(text: Seq<char>, rules: Seq<LevelView>)
    ensures
        match first_match(text, rules) {
            Some(k) => {
                &&& 0 <= k < rules.len()
                &&& pattern_matches(text, rules[k].pattern)
                &&& forall|j: int| 0 <= j < k ==> !pattern_matches(text, #[trigger] rules[j].pattern)
            },
            None => forall|j: int|
                0 <= j < rules.len() ==> !pattern_matches(text, #[trigger] rules[j].pattern),
        },
{
    lemma_first_match_from(text, rules, 0);
}

proof fn lemma_first_match_from(text: Seq<char>, rules: Seq<LevelView>, from: int)
    requires
        0 <= from,
    ensures
        match first_match_from(text, rules, from) {
            Some(k) => {
                &&& from <= k < rules.len()
                &&& pattern_matches(text, rules[k].pattern)
                &&& forall|j: int|
                    from <= j < k ==> !pattern_matches(text, #[trigger] rules[j].pattern)
            },
            None => forall|j: int|
                from <= j < rules.len() ==> !pattern_matches(text, #[trigger] rules[j].pattern),
        },
    decreases rules.len() - from,
{
    if from < rules.len() && !pattern_matches(text, rules[from].pattern) {
        lemma_first_match_from(text, rules, from + 1);
    }
}

/// One more piece to look for adds just that piece's occurrences.
proof fn lemma_contains_any_push(text: Seq<char>, pieces: Seq<Seq<char>>, piece: Seq<char>)
    ensures
        contains_any(text, pieces.push(piece)) == (contains_any(text, pieces) || contains(
            text,
            piece,
        )),
{
    let more = pieces.push(piece);
    if contains_any(text, more) {
        let k = choose|k: int| 0 <= k < more.len() && contains(text, #[trigger] more[k]);
        assert(k < pieces.len() ==> more[k] == pieces[k]);
    }
    if contains_any(text, pieces) {
        let k = choose|k: int| 0 <= k < pieces.len() && contains(text, #[trigger] pieces[k]);
        assert(contains(text, more[k]));
    }
    if contains(text, piece) {
        assert(contains(text, more[pieces.len() as int]));
    }
}

/// Whether `text` contains one of the tokens of `pattern`.
pub fn matches_pattern(text: &Vec<char>, pattern: &Vec<char>) -> (r: bool)
    ensures
        r == pattern_matches(text@, pattern@),
{
    let mut found = false;
    let mut start: usize = 0;
    let mut i: usize = 0;
    while i < pattern.len()
        invariant
            start <= i <= pattern.len(),
            split(pattern@.take(i as int), ' ').len() >= 1,
            split(pattern@.take(i as int), ' ').last() == pattern@.subrange(start as int, i as int),
            found == contains_any(text@, split(pattern@.take(i as int), ' ').drop_last()),
        decreases pattern.len() - i,
    {
        let ghost before = split(pattern@.take(i as int), ' ');
        proof {
            lemma_split_push(pattern@.take(i as int), pattern@[i as int], ' ');
            assert(pattern@.take(i + 1) == pattern@.take(i as int).push(pattern@[i as int]));
        }
        if pattern[i] == ' ' {
            let here = found || contains_range(text, pattern, start, i);
            proof {
                lemma_contains_any_push(text@, before.drop_last(), before.last());
                assert(before.drop_last().push(before.last()) == before);
                assert(before.push(Seq::empty()).drop_last() == before);
            }
            found = here;
            start = i + 1;
        } else {
            proof {
                let grown = before.last().push(pattern@[i as int]);
                assert(before.drop_last().push(grown).drop_last() == before.drop_last());
            }
        }
        i += 1;
    }
    let last = found || contains_range(text, pattern, start, pattern.len());
    proof {
        let pieces = split(pattern@, ' ');
        assert(pattern@.take(pattern.len() as int) == pattern@);
        lemma_contains_any_push(text@, pieces.drop_last(), pieces.last());
        assert(pieces.drop_last().push(pieces.last()) == pieces);
    }
    last
}

impl Filters {
    /// The characters of each rule's pattern, in the order of the rules.
    pub fn patterns(&self) -> (r: Vec<Vec<char>>)
        ensures
            r.len() == self@.len(),
            forall|k: int| 0 <= k < r.len() ==> (#[trigger] r[k])@ == self@[k].pattern,
    {
        let mut out: Vec<Vec<char>> = Vec::new();
        let mut k: usize = 0;
        while k < self.levels.len()
            invariant
                k <= self.levels.len(),
                out.len() == k,
                forall|j: int| 0 <= j < k ==> (#[trigger] out[j])@ == self@[j].pattern,
            decreases self.levels.len() - k,
        {
            out.push(chars_of(self.levels[k].pattern.as_str()));
            k += 1;
        }
        out
    }
}

/// The first of `patterns` that `text` matches.
pub(crate) fn find_level(
    text: &Vec<char>,
    patterns: &Vec<Vec<char>>,
    Ghost(rules): Ghost<Seq<LevelView>>,
) -> (r: Option<usize>)
    requires
        patterns.len() == rules.len(),
        forall|k: int| 0 <= k < patterns.len() ==> (#[trigger] patterns[k])@ == rules[k].pattern,
    ensures
        level_index(r) == first_match(text@, rules),
{
    let mut k: usize = 0;
    while k < patterns.len()
        invariant
            k <= patterns.len(),
            patterns.len() == rules.len(),
            forall|j: int| 0 <= j < patterns.len() ==> (#[trigger] patterns[j])@ == rules[j].pattern,
            first_match(text@, rules) == first_match_from(text@, rules, k as int),
        decreases patterns.len() - k,
    {
        if matches_pattern(text, &patterns[k]) {
            return Some(k);
        }
        k += 1;
    }
    None
}

/// Classifies one line. Returns the level assigned to the line and the level
/// to carry into the next line; both are the first rule that `text` matches,
/// or `last_matched` where it matches none.
pub fn classify(text: &str, rules: &Filters, last_matched: Option<usize>) -> (r: (
    Option<usize>,
    Option<usize>,
))
    ensures
        level_index(r.0) == carry(first_match(text@, rules@), level_index(last_matched)),
        r.1 == r.0,
{
    let chars = chars_of(text);
    let patterns = rules.patterns();
    match find_level(&chars, &patterns, Ghost(rules@)) {
        Some(k) => (Some(k), Some(k)),
        None => (last_matched, last_matched),
    }
}

} // verus!
