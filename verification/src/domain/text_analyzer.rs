//! Character, word and line counts of a text.
use vstd::prelude::*;
use crate::domain::session::TextAnalyzerSnapshot;
use crate::text::{chars_of, char_is_whitespace, is_ws};

verus! {

/// The text being analyzed.
#[derive(Debug, PartialEq, Eq)]
pub struct TextAnalyzerState {
    text: String,
}

/// Counts derived from a text.
#[derive(Clone, Copy, Debug, PartialEq, Eq, Structural)]
pub struct TextStats {
    pub characters: usize,
    pub words: usize,
    pub lines: usize,
}

/// Number of maximal runs of non-whitespace characters, the words
/// `split_whitespace` yields.
pub open spec fn word_count(s: Seq<char>) -> nat
    decreases s.len(),
{
    if s.len() == 0 {
        0
    } else {
        word_count(s.drop_last()) + if !is_ws(s.last()) && (s.len() == 1 || is_ws(s[s.len() - 2])) {
            1nat
        } else {
            0nat
        }
    }
}

/// Number of `\n` characters.
pub open spec fn newline_count(s: Seq<char>) -> nat
    decreases s.len(),
{
    if s.len() == 0 {
        0
    } else {
        newline_count(s.drop_last()) + if s.last() == '\n' {
            1nat
        } else {
            0nat
        }
    }
}

/// The pieces `split('\n')` yields, none for an empty text.
pub open spec fn line_count(s: Seq<char>) -> nat {
    if s.len() == 0 {
        0
    } else {
        newline_count(s) + 1
    }
}

proof fn lemma_counts_bounded(s: Seq<char>)
    ensures
        word_count(s) <= s.len(),
        newline_count(s) <= s.len(),
    decreases s.len(),
{
    if s.len() > 0 {
        lemma_counts_bounded(s.drop_last());
    }
}

/// Any whitespace character between two texts, a tab as much as a space or
/// a newline, separates their words: the words of `a`, `w`, `b` together are
/// the words of `a` and the words of `b`.
pub proof fn lemma_whitespace_separates_words(a: Seq<char>, w: char, b: Seq<char>)
    requires
        is_ws(w),
    ensures
        word_count(a + seq![w] + b) == word_count(a) + word_count(b),
    decreases b.len(),
{
    let s = a + seq![w] + b;
    if b.len() == 0 {
        assert(s.drop_last() =~= a);
    } else {
        let b1 = b.drop_last();
        assert(s.drop_last() =~= a + seq![w] + b1);
        lemma_whitespace_separates_words(a, w, b1);
        assert(s.last() == b.last());
        if b.len() == 1 {
            assert(s[s.len() - 2] == w);
        } else {
            assert(s[s.len() - 2] == b[b.len() - 2]);
        }
    }
}

/// A non-empty text without whitespace is one word.
pub proof fn lemma_one_word(s: Seq<char>)
    requires
        s.len() > 0,
        forall|i: int| 0 <= i < s.len() ==> !is_ws(#[trigger] s[i]),
    ensures
        word_count(s) == 1,
    decreases s.len(),
{
    if s.len() > 1 {
        let t = s.drop_last();
        assert forall|i: int| 0 <= i < t.len() implies !is_ws(#[trigger] t[i]) by {
            assert(t[i] == s[i]);
        }
        lemma_one_word(t);
        assert(!is_ws(s[s.len() - 2]));
        assert(!is_ws(s.last()));
    } else {
        assert(s.drop_last().len() == 0);
        assert(word_count(s.drop_last()) == 0);
        assert(!is_ws(s.last()));
    }
}

/// A text made of whitespace alone has no words.
pub proof fn lemma_blank_no_words(s: Seq<char>)
    requires
        forall|i: int| 0 <= i < s.len() ==> is_ws(#[trigger] s[i]),
    ensures
        word_count(s) == 0,
    decreases s.len(),
{
    if s.len() > 0 {
        let t = s.drop_last();
        assert forall|i: int| 0 <= i < t.len() implies is_ws(#[trigger] t[i]) by {
            assert(t[i] == s[i]);
        }
        lemma_blank_no_words(t);
        assert(is_ws(s[s.len() - 1]));
    }
}

/// `analyze_text`: characters, words separated by whitespace, and lines.
pub fn analyze_text(text: &str) -> (r: TextStats)
    ensures
        r.characters == text@.len(),
        r.words == word_count(text@),
        line_count(text@) <= usize::MAX ==> r.lines == line_count(text@),
{
    let v = chars_of(text);
    let mut words: usize = 0;
    let mut newlines: usize = 0;
    let mut i: usize = 0;
    while i < v.len()
        invariant
            i <= v@.len(),
            v@ == text@,
            words == word_count(v@.take(i as int)),
            newlines == newline_count(v@.take(i as int)),
        decreases v@.len() - i,
    {
        proof {
            assert(v@.take(i + 1).drop_last() == v@.take(i as int));
            lemma_counts_bounded(v@.take(i as int));
        }
        let c = v[i];
        if !char_is_whitespace(c) && (i == 0 || char_is_whitespace(v[i - 1])) {
            words = words + 1;
        }
        if c == '\n' {
            newlines = newlines + 1;
        }
        i = i + 1;
    }
    assert(v@.take(v@.len() as int) == v@);
    let lines = if v.len() == 0 {
        0
    } else if newlines < usize::MAX {
        newlines + 1
    } else {
        usize::MAX
    };
    TextStats { characters: v.len(), words, lines }
}

impl Default for TextAnalyzerState {
    fn default() -> (r: Self)
        ensures
            r.text_view() == Seq::<char>::empty(),
    {
        TextAnalyzerState { text: String::new() }
    }
}

impl TextAnalyzerState {
    /// The state a persisted form describes.
    pub fn from_snapshot(snapshot: TextAnalyzerSnapshot) -> (r: Self)
        ensures
            r.text_view() == snapshot.text@,
    {
        TextAnalyzerState { text: snapshot.text }
    }

    /// The persisted form.
    pub fn snapshot(&self) -> (r: TextAnalyzerSnapshot)
        ensures
            r.text@ == self.text_view(),
    {
        TextAnalyzerSnapshot { text: self.text.clone() }
    }

    /// The text.
    pub fn text(&self) -> (r: &str)
        ensures
            r@ == self.text_view(),
    {
        self.text.as_str()
    }

    /// The text, as characters.
    pub closed spec fn text_view(&self) -> Seq<char> {
        self.text@
    }

    /// Replaces the text.
    pub fn set_text(&mut self, text: String)
        ensures
            final(self).text_view() == text@,
    {
        self.text = text;
    }

    /// The counts of the text.
    pub fn stats(&self) -> (r: TextStats)
        ensures
            r.characters == self.text_view().len(),
            r.words == word_count(self.text_view()),
            line_count(self.text_view()) <= usize::MAX ==> r.lines == line_count(self.text_view()),
    {
        analyze_text(self.text.as_str())
    }
}

} // verus!
