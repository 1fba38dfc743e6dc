//! Log documents: the lines read from one file so far, the offset up to which
//! the file has been consumed, and the rule set that classifies the lines.

use crate::filter::{
    carry, find_level, first_match, lemma_first_match, level_index, Color, Filters, LevelView,
    LogLevel,
};
use crate::text::{chars_of, lemma_split_push, split, string_of, trim_end, trimmed_length};
use vstd::prelude::*;

verus! {

/// One line of a document.
#[derive(Debug)]
pub struct LogLine {
    pub text: String,
    /// The rule that the line is classified under, as an index into the
    /// document's rule set; `None` for a line that no rule has claimed.
    pub level: Option<usize>,
    pub foreground: Color,
    pub background: Color,
    pub visible: bool,
}

/// The mathematical value of a [`LogLine`].
pub struct LineView {
    pub text: Seq<char>,
    pub level: Option<int>,
    pub foreground: Color,
    pub background: Color,
    pub visible: bool,
}

impl View for LogLine {
    type V = LineView;

    open spec fn view(&self) -> LineView {
        LineView {
            text: self.text@,
            level: level_index(self.level),
            foreground: self.foreground,
            background: self.background,
            visible: self.visible,
        }
    }
}

/// A line as it is before any rule has claimed it: shown, white on nothing.
pub open spec fn plain(text: Seq<char>) -> LineView {
    LineView {
        text,
        level: None,
        foreground: Color::white(),
        background: Color::transparent(),
        visible: true,
    }
}

/// A line as it is shown under `level`: with that rule's colours, and
/// visible exactly if the rule is switched on. Without a level, or with one
/// that the rule set does not have, the line is plain.
pub open spec fn styled(text: Seq<char>, rules: Seq<LevelView>, level: Option<int>) -> LineView {
    match level {
        Some(k) if 0 <= k < rules.len() => LineView {
            text,
            level: Some(k),
            foreground: rules[k].foreground,
            background: rules[k].background,
            visible: rules[k].enabled,
        },
        _ => plain(text),
    }
}

impl LogLine {
    /// A plain line.
    pub fn new(text: String) -> (r: Self)
        ensures
            r@ == plain(text@),
    {
        Self {
            text,
            level: None,
            foreground: Color::white(),
            background: Color::transparent(),
            visible: true,
        }
    }

    /// Shows the line as `filter` says: its visibility and both colours. The
    /// text and the level stay as they are.
    pub fn apply_filter(&mut self, filter: &LogLevel)
        ensures
            final(self)@ == (LineView {
                visible: filter.enabled,
                background: filter.background,
                foreground: filter.foreground,
                ..old(self)@
            }),
    {
        self.visible = filter.enabled;
        self.background = filter.background;
        self.foreground = filter.foreground;
    }
}

impl Clone for LogLine {
    fn clone(&self) -> (r: Self)
        ensures
            r@ == self@,
    {
        Self {
            text: self.text.clone(),
            level: self.level,
            foreground: self.foreground,
            background: self.background,
            visible: self.visible,
        }
    }
}

/// A document: one file's lines as read so far.
#[derive(Debug)]
pub struct LogData {
    /// The file that the lines come from.
    pub path: String,
    pub contents: Vec<LogLine>,
    /// How many bytes of the file have been consumed into `contents`.
    pub position: u64,
    pub filters: Filters,
}

/// The mathematical value of a [`LogData`].
pub struct DocView {
    pub path: Seq<char>,
    pub lines: Seq<LineView>,
    pub position: u64,
    pub rules: Seq<LevelView>,
}

/// The values of a sequence of lines.
pub open spec fn line_views(lines: Seq<LogLine>) -> Seq<LineView> {
    lines.map_values(|l: LogLine| l@)
}

/// The texts of a sequence of lines.
pub open spec fn texts(lines: Seq<LineView>) -> Seq<Seq<char>> {
    lines.map_values(|l: LineView| l.text)
}

impl View for LogData {
    type V = DocView;

    open spec fn view(&self) -> DocView {
        DocView {
            path: self.path@,
            lines: line_views(self.contents@),
            position: self.position,
            rules: self.filters@,
        }
    }
}

impl Clone for LogData {
    fn clone(&self) -> (r: Self)
        ensures
            r@ == self@,
    {
        let mut contents: Vec<LogLine> = Vec::new();
        let mut i: usize = 0;
        while i < self.contents.len()
            invariant
                i <= self.contents.len(),
                contents.len() == i,
                line_views(contents@) == self@.lines.take(i as int),
            decreases self.contents.len() - i,
        {
            let ghost before = contents@;
            let line = self.contents[i].clone();
            contents.push(line);
            assert forall|j: int| 0 <= j < i + 1 implies line_views(contents@)[j]
                == self@.lines[j] by {
                if j < i {
                    assert(line_views(before)[j] == self@.lines.take(i as int)[j]);
                }
            }
            i += 1;
        }
        assert(self@.lines.take(self.contents.len() as int) == self@.lines);
        Self {
            path: self.path.clone(),
            contents,
            position: self.position,
            filters: self.filters.clone(),
        }
    }
}

/// The lines that a chunk of file content holds: its trailing run of
/// whitespace is dropped, and what is left is cut at each line feed. A chunk
/// that ends in a line feed therefore has no empty last line, and a chunk of
/// nothing but whitespace has one empty line.
pub open spec fn lines_of(data: Seq<char>) -> Seq<Seq<char>> {
    split(trim_end(data), '\n')
}

/// The level of line `i` when the lines are classified in order, starting
/// with `start` as the level carried in: the first rule that the line
/// matches, or else the level of the line before it.
pub open spec fn level_at(
    texts: Seq<Seq<char>>,
    rules: Seq<LevelView>,
    start: Option<int>,
    i: int,
) -> Option<int>
    decreases i + 1,
{
    if i < 0 {
        start
    } else {
        carry(first_match(texts[i], rules), level_at(texts, rules, start, i - 1))
    }
}

/// The lines with the given texts, each classified and shown under its level.
pub open spec fn classified(
    texts: Seq<Seq<char>>,
    rules: Seq<LevelView>,
    start: Option<int>,
) -> Seq<LineView> {
    Seq::new(texts.len(), |i: int| styled(texts[i], rules, level_at(texts, rules, start, i)))
}

/// The document with every line classified afresh under its own rule set,
/// nothing carried in.
pub open spec fn refiltered(doc: DocView) -> DocView {
    DocView { lines: classified(texts(doc.lines), doc.rules, None), ..doc }
}

/// The level that a document hands on to lines appended to it: that of its
/// last line, where the rule set has it.
pub open spec fn carried_level(doc: DocView) -> Option<int> {
    if doc.lines.len() == 0 {
        None
    } else {
        match doc.lines.last().level {
            Some(k) if 0 <= k < doc.rules.len() => Some(k),
            _ => None,
        }
    }
}

/// The document grown by the lines of `delta`: they are classified under the
/// document's rules, continuing from its last line, and the document takes
/// the delta's offset.
pub open spec fn appended(doc: DocView, delta: DocView) -> DocView {
    DocView {
        lines: doc.lines + classified(texts(delta.lines), doc.rules, carried_level(doc)),
        position: delta.position,
        ..doc
    }
}

/// Classifies `lines` in order under `rules`, with `start` carried in.
fn classify_lines(lines: &mut Vec<LogLine>, rules: &Filters, start: Option<usize>)
    requires
        start matches Some(k) ==> k < rules@.len(),
    ensures
        line_views(final(lines)@) == classified(
            texts(line_views(old(lines)@)),
            rules@,
            level_index(start),
        ),
{
    let ghost all = texts(line_views(lines@));
    let patterns = rules.patterns();
    let mut last = start;
    let mut i: usize = 0;
    while i < lines.len()
        invariant
            i <= lines.len(),
            lines.len() == all.len(),
            texts(line_views(lines@)) == all,
            patterns.len() == rules@.len(),
            forall|k: int| 0 <= k < patterns.len() ==> (#[trigger] patterns[k])@ == rules@[k].pattern,
            last matches Some(k) ==> k < rules@.len(),
            level_index(last) == level_at(all, rules@, level_index(start), i - 1),
            forall|j: int|
                0 <= j < i ==> (#[trigger] lines[j])@ == styled(
                    all[j],
                    rules@,
                    level_at(all, rules@, level_index(start), j),
                ),
        decreases lines.len() - i,
    {
        let chars = chars_of(lines[i].text.as_str());
        match find_level(&chars, &patterns, Ghost(rules@)) {
            Some(k) => {
                proof {
                    lemma_first_match(chars@, rules@);
                }
                last = Some(k);
            },
            None => {},
        }
        let line = &mut lines[i];
        match last {
            Some(k) => {
                line.level = Some(k);
                line.apply_filter(&rules.levels[k]);
            },
            None => {
                line.level = None;
                line.foreground = Color::white();
                line.background = Color::transparent();
                line.visible = true;
            },
        }
        i += 1;
    }
}

impl LogData {
    /// The document of the file at `path`, given a chunk of its content and
    /// the offset that the file has been consumed to. The lines are plain,
    /// and the rule set is the default one.
    pub fn new(path: String, data: String, position: u64) -> (r: Self)
        ensures
            r@ == (DocView {
                path: path@,
                lines: lines_of(data@).map_values(|t: Seq<char>| plain(t)),
                position,
                rules: crate::filter::default_levels(),
            }),
    {
        let chars = chars_of(data.as_str());
        let end = trimmed_length(&chars);
        let ghost kept = trim_end(data@);
        let mut contents: Vec<LogLine> = Vec::new();
        let mut start: usize = 0;
        let mut i: usize = 0;
        while i < end
            invariant
                start <= i <= end <= chars.len(),
                kept == chars@.take(end as int),
                split(kept.take(i as int), '\n').len() == contents.len() + 1,
                split(kept.take(i as int), '\n').last() == chars@.subrange(start as int, i as int),
                forall|k: int|
                    0 <= k < contents.len() ==> (#[trigger] contents[k])@ == plain(
                        split(kept.take(i as int), '\n')[k],
                    ),
            decreases end - i,
        {
            proof {
                lemma_split_push(kept.take(i as int), chars@[i as int], '\n');
                assert(kept.take(i + 1) == kept.take(i as int).push(chars@[i as int]));
            }
            if chars[i] == '\n' {
                contents.push(LogLine::new(string_of(&chars, start, i)));
                start = i + 1;
            } else {
                assert(chars@.subrange(start as int, i + 1) == chars@.subrange(
                    start as int,
                    i as int,
                ).push(chars@[i as int]));
            }
            i += 1;
        }
        assert(kept.take(end as int) == kept);
        contents.push(LogLine::new(string_of(&chars, start, end)));
        let r = Self { path, contents, position, filters: Filters::default() };
        assert(r@.lines =~= lines_of(data@).map_values(|t: Seq<char>| plain(t)));
        r
    }

    /// Appends the lines of `other`, which was read from this document's
    /// file starting at this document's offset. The new lines are classified
    /// under this document's rules, continuing from its last line; the rules
    /// and the classification that `other` came with are discarded.
    pub fn append(&mut self, other: LogData)
        ensures
            final(self)@ == appended(old(self)@, other@),
    {
        let start = self.last_level();
        let mut delta = other;
        classify_lines(&mut delta.contents, &self.filters, start);
        self.contents.append(&mut delta.contents);
        self.position = delta.position;
        assert(self@.lines =~= appended(old(self)@, other@).lines);
    }

    /// Classifies every line afresh under the current rule set, from a clean
    /// start: what the lines were classified as before plays no part.
    pub fn filter_all(&mut self)
        ensures
            final(self)@ == refiltered(old(self)@),
    {
        classify_lines(&mut self.contents, &self.filters, None);
    }

    /// Replaces the lines and the offset by those of `fresh`, a new reading
    /// of the whole file, and classifies the lines from a clean start. This is
    /// the answer to a file that was truncated or replaced; the path and the
    /// rule set stay.
    pub fn reload(&mut self, fresh: LogData)
        ensures
            final(self)@ == reloaded(old(self)@, fresh@),
    {
        let mut read = fresh;
        self.contents.clear();
        self.contents.append(&mut read.contents);
        self.position = read.position;
        self.filter_all();
    }

    /// Switches rule `level` on or off and classifies every line afresh, so
    /// that the lines of that level are shown or hidden at once. An index that
    /// the rule set does not have changes nothing.
    pub fn set_enabled(&mut self, level: usize, enabled: bool)
        ensures
            final(self)@ == if level < old(self)@.rules.len() {
                refiltered(
                    DocView {
                        rules: with_enabled(old(self)@.rules, level as int, enabled),
                        ..old(self)@
                    },
                )
            } else {
                old(self)@
            },
    {
        if level < self.filters.levels.len() {
            let rule = &mut self.filters.levels[level];
            rule.enabled = enabled;
            assert(self@.rules =~= with_enabled(old(self)@.rules, level as int, enabled));
            self.filter_all();
        }
    }

    /// What to do when the file is found to hold `file_len` bytes.
    pub fn plan_read(&self, file_len: u64) -> (r: ReadPlan)
        ensures
            r == read_plan(self.position, file_len),
    {
        plan_read(self.position, file_len)
    }

    /// The level that this document hands on to lines appended to it.
    fn last_level(&self) -> (r: Option<usize>)
        ensures
            level_index(r) == carried_level(self@),
            r matches Some(k) ==> k < self.filters@.len(),
    {
        let n: usize = self.contents.len();
        if n == 0 {
            None
        } else {
            match self.contents[n - 1].level {
                Some(k) => if k < self.filters.levels.len() {
                    Some(k)
                } else {
                    None
                },
                None => None,
            }
        }
    }
}

/// How to read on in a file whose document stands at some offset.
#[derive(Clone, Copy, Debug, PartialEq, Eq, Structural)]
pub enum ReadPlan {
    /// The file is shorter than the offset: it was truncated or replaced.
    /// Read it anew from the start; do not seek.
    Reopen,
    /// The file reaches the offset: read from there to the end.
    Resume,
}

/// A file shorter than the offset is read anew; any other is read on.
pub open spec fn read_plan(position: u64, file_len: u64) -> ReadPlan {
    if file_len < position {
        ReadPlan::Reopen
    } else {
        ReadPlan::Resume
    }
}

/// The number of bytes that `text` takes in a file, as `str::len` gives it:
/// the length of its UTF-8 encoding, in the machine's word.
pub open spec fn byte_len(text: Seq<char>) -> usize {
    vstd::utf8::encode_utf8(text).len() as usize
}

/// The document of a file read whole: see [`read_file`].
pub open spec fn opened(path: Seq<char>, data: Seq<char>) -> DocView {
    DocView {
        path,
        lines: lines_of(data).map_values(|t: Seq<char>| plain(t)),
        position: byte_len(data) as u64,
        rules: crate::filter::default_levels(),
    }
}

/// The document of what a file holds beyond an offset: see [`read_new_data`].
pub open spec fn resumed(path: Seq<char>, position: u64, data: Seq<char>) -> DocView {
    DocView {
        path,
        lines: lines_of(data).map_values(|t: Seq<char>| plain(t)),
        position: (position + byte_len(data)) as u64,
        rules: crate::filter::default_levels(),
    }
}

/// The document after its file was read anew: see [`LogData::reload`].
pub open spec fn reloaded(doc: DocView, fresh: DocView) -> DocView {
    refiltered(DocView { lines: fresh.lines, position: fresh.position, ..doc })
}

/// Decides how to read on from `position` in a file of `file_len` bytes.
pub fn plan_read(position: u64, file_len: u64) -> (r: ReadPlan)
    ensures
        r == read_plan(position, file_len),
{
    if file_len < position {
        ReadPlan::Reopen
    } else {
        ReadPlan::Resume
    }
}

/// The document of the file at `path`, whose whole content `data` was just
/// read. Its offset is the number of bytes read.
pub fn read_file(path: String, data: String) -> (r: LogData)
    ensures
        r@ == opened(path@, data@),
{
    let position: u64 = data.as_str().len() as u64;
    LogData::new(path, data, position)
}

/// The document of `data`, which was just read from the file at `path`
/// between the offset `position` and the file's end. Its offset is
/// `position` moved on by the number of bytes read.
pub fn read_new_data(path: String, position: u64, data: String) -> (r: LogData)
    requires
        position + byte_len(data@) <= u64::MAX,
    ensures
        r@ == resumed(path@, position, data@),
{
    let read: u64 = data.as_str().len() as u64;
    LogData::new(path, data, position + read)
}

/// Filtering twice in a row, with the rule set unchanged, gives what
/// filtering once gives.
pub proof fn lemma_filter_all_idempotent(doc: DocView)
    ensures
        refiltered(refiltered(doc)) == refiltered(doc),
{
    assert(texts(refiltered(doc).lines) =~= texts(doc.lines));
}

/// Which rule a text matches first depends on the rules' patterns alone.
pub proof fn lemma_first_match_by_patterns(
    text: Seq<char>,
    rules: Seq<LevelView>,
    others: Seq<LevelView>,
    from: int,
)
    requires
        rules.len() == others.len(),
        forall|j: int| 0 <= j < rules.len() ==> rules[j].pattern == others[j].pattern,
    ensures
        crate::filter::first_match_from(text, rules, from) == crate::filter::first_match_from(
            text,
            others,
            from,
        ),
    decreases rules.len() - from,
{
    if 0 <= from < rules.len() {
        lemma_first_match_by_patterns(text, rules, others, from + 1);
    }
}

/// The level of a line is that of a rule in the rule set, unless it is the
/// level that was carried in.
pub proof fn lemma_level_at_in_range(
    texts: Seq<Seq<char>>,
    rules: Seq<LevelView>,
    start: Option<int>,
    i: int,
)
    requires
        i < texts.len(),
    ensures
        level_at(texts, rules, start, i) == start || (level_at(texts, rules, start, i) matches Some(
            k,
        ) && 0 <= k < rules.len()),
    decreases i + 1,
{
    if i >= 0 {
        lemma_first_match(texts[i], rules);
        lemma_level_at_in_range(texts, rules, start, i - 1);
    }
}

/// Continuation: a line has the level of the nearest line at or before it
/// that matches a rule, which is the first rule that that line matches; where
/// there is no such line, it has the level that was carried in.
pub proof fn lemma_level_inherited(
    texts: Seq<Seq<char>>,
    rules: Seq<LevelView>,
    start: Option<int>,
    i: int,
)
    requires
        i < texts.len(),
    ensures
        (exists|j: int|
            0 <= j <= i && first_match(#[trigger] texts[j], rules) is Some && level_at(
                texts,
                rules,
                start,
                i,
            ) == first_match(texts[j], rules) && forall|m: int|
                j < m <= i ==> first_match(#[trigger] texts[m], rules) is None) || (level_at(
            texts,
            rules,
            start,
            i,
        ) == start && forall|m: int| 0 <= m <= i ==> first_match(#[trigger] texts[m], rules) is None),
    decreases i + 1,
{
    if i >= 0 {
        if first_match(texts[i], rules) is Some {
        } else {
            lemma_level_inherited(texts, rules, start, i - 1);
            if level_at(texts, rules, start, i - 1) == start && forall|m: int|
                0 <= m <= i - 1 ==> first_match(#[trigger] texts[m], rules) is None {
            } else {
                let j = choose|j: int|
                    0 <= j <= i - 1 && first_match(#[trigger] texts[j], rules) is Some && level_at(
                        texts,
                        rules,
                        start,
                        i - 1,
                    ) == first_match(texts[j], rules) && forall|m: int|
                        j < m <= i - 1 ==> first_match(#[trigger] texts[m], rules) is None;
            }
        }
    }
}

/// The rule set with rule `k` switched on or off.
pub open spec fn with_enabled(rules: Seq<LevelView>, k: int, enabled: bool) -> Seq<LevelView> {
    rules.update(k, LevelView { enabled, ..rules[k] })
}

/// Switching a rule does not change which level a line has.
pub proof fn lemma_level_at_by_patterns(
    texts: Seq<Seq<char>>,
    rules: Seq<LevelView>,
    others: Seq<LevelView>,
    start: Option<int>,
    i: int,
)
    requires
        rules.len() == others.len(),
        forall|j: int| 0 <= j < rules.len() ==> rules[j].pattern == others[j].pattern,
    ensures
        level_at(texts, rules, start, i) == level_at(texts, others, start, i),
    decreases i + 1,
{
    if i >= 0 {
        lemma_first_match_by_patterns(texts[i], rules, others, 0);
        lemma_level_at_by_patterns(texts, rules, others, start, i - 1);
    }
}

/// After rule `k` is switched off and the document filtered, every line has
/// the level it had, the lines of level `k` are hidden, and every other line
/// is shown as it was. Where all the other rules are switched on, the lines
/// that are shown are exactly those not of level `k`.
pub proof fn lemma_disabled_level_hidden(doc: DocView, k: int)
    requires
        0 <= k < doc.rules.len(),
    ensures
        ({
            let before = refiltered(doc);
            let after = refiltered(DocView { rules: with_enabled(doc.rules, k, false), ..doc });
            &&& after.lines.len() == before.lines.len()
            &&& forall|i: int|
                #![trigger after.lines[i]]
                0 <= i < before.lines.len() ==> {
                    &&& after.lines[i].level == before.lines[i].level
                    &&& before.lines[i].level == Some(k) ==> !after.lines[i].visible
                    &&& before.lines[i].level != Some(k) ==> after.lines[i].visible
                        == before.lines[i].visible
                    &&& (forall|j: int| 0 <= j < doc.rules.len() && j != k ==> doc.rules[j].enabled)
                        ==> after.lines[i].visible == (before.lines[i].level != Some(k))
                }
        }),
{
    let all = texts(doc.lines);
    let others = with_enabled(doc.rules, k, false);
    let before = refiltered(doc);
    let after = refiltered(DocView { rules: others, ..doc });
    assert forall|i: int| #![trigger after.lines[i]] 0 <= i < before.lines.len() implies {
        &&& after.lines[i].level == before.lines[i].level
        &&& before.lines[i].level == Some(k) ==> !after.lines[i].visible
        &&& before.lines[i].level != Some(k) ==> after.lines[i].visible == before.lines[i].visible
        &&& (forall|j: int| 0 <= j < doc.rules.len() && j != k ==> doc.rules[j].enabled)
            ==> after.lines[i].visible == (before.lines[i].level != Some(k))
    } by {
        lemma_level_at_by_patterns(all, doc.rules, others, None, i);
        lemma_level_at_in_range(all, doc.rules, None, i);
    }
}

/// Reading on never moves the offset back: it grows by exactly the bytes
/// read, and a reading that finds nothing leaves it where it is, so that the
/// next plan is to read on from there.
pub proof fn lemma_offset_monotonic(path: Seq<char>, position: u64, data: Seq<char>)
    requires
        position + byte_len(data) <= u64::MAX,
    ensures
        resumed(path, position, data).position == position + byte_len(data),
        resumed(path, position, data).position >= position,
        resumed(path, position, Seq::empty()).position == position,
        read_plan(position, resumed(path, position, data).position) == ReadPlan::Resume,
{
    reveal_with_fuel(vstd::utf8::encode_utf8, 1);
}

/// A document that takes in what was read on from its own offset never
/// moves its offset back: it moves on by exactly the bytes read, and the plan
/// for a file of just that length is to read on.
pub proof fn lemma_append_advances(doc: DocView, data: Seq<char>)
    requires
        doc.position + byte_len(data) <= u64::MAX,
    ensures
        appended(doc, resumed(doc.path, doc.position, data)).position == doc.position + byte_len(
            data,
        ),
        appended(doc, resumed(doc.path, doc.position, data)).position >= doc.position,
        read_plan(
            appended(doc, resumed(doc.path, doc.position, data)).position,
            (doc.position + byte_len(data)) as u64,
        ) == ReadPlan::Resume,
{
}

/// A truncated file is never read on: where the file is shorter than the
/// offset the plan is to reopen, and only there.
pub proof fn lemma_rotation_detected(position: u64, file_len: u64)
    ensures
        file_len < position <==> read_plan(position, file_len) == ReadPlan::Reopen,
        file_len >= position <==> read_plan(position, file_len) == ReadPlan::Resume,
{
}

/// A document that is classified stays so when lines are appended: the
/// result is what filtering all its lines afresh would give.
pub proof fn lemma_append_continues(doc: DocView, delta: DocView)
    requires
        doc == refiltered(doc),
    ensures
        appended(doc, delta) == refiltered(appended(doc, delta)),
{
    let old_texts = texts(doc.lines);
    let new_texts = texts(delta.lines);
    let start = carried_level(doc);
    let grown = appended(doc, delta);
    let all = texts(grown.lines);
    assert(all =~= old_texts + new_texts);
    if doc.lines.len() > 0 {
        lemma_level_at_in_range(old_texts, doc.rules, None, doc.lines.len() - 1);
    }
    assert forall|i: int| 0 <= i < all.len() implies grown.lines[i] == styled(
        all[i],
        doc.rules,
        level_at(all, doc.rules, None, i),
    ) by {
        lemma_level_at_concat(old_texts, new_texts, doc.rules, i);
    }
    assert(grown.lines =~= classified(all, doc.rules, None));
}

/// Classifying two runs of lines as one is classifying the first and then
/// the second with the first's last level carried in.
proof fn lemma_level_at_concat(
    first: Seq<Seq<char>>,
    second: Seq<Seq<char>>,
    rules: Seq<LevelView>,
    i: int,
)
    requires
        i < first.len() + second.len(),
    ensures
        level_at(first + second, rules, None, i) == if i < first.len() {
            level_at(first, rules, None, i)
        } else {
            level_at(second, rules, level_at(first, rules, None, first.len() - 1), i - first.len())
        },
    decreases i + 1,
{
    if i >= 0 {
        lemma_level_at_concat(first, second, rules, i - 1);
    }
}

} // verus!
