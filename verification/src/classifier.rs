//! The executable line classifier.
//!
//! [`SourceUtility`] owns one immutable text and answers five counting
//! queries, each re-scanning the text and each proved against the
//! specification functions of [`crate::model`].

use crate::model::code_line_count;
use crate::model::code_symbol_count;
use crate::model::comment_count_of;
use crate::model::comment_line_count;
use crate::model::empty_count_of;
use crate::model::empty_line_count;
use crate::model::is_comment_line;
use crate::model::is_empty_line;
use crate::model::is_space;
use crate::model::lemma_classify_at_scan;
use crate::model::lemma_counts_bounded;
use crate::model::lemma_line_count_partition;
use crate::model::lemma_raw_split_nonempty;
use crate::model::lines_of;
use crate::model::raw_split;
use crate::model::symbol_sum;
use crate::model::symbol_weight;
use crate::model::total_line_count;
use vstd::prelude::*;

verus! {

/// A line classifier over one immutable source text.
///
/// Its view is the text itself, as a sequence of characters; every query's
/// contract is stated over that view.
pub struct SourceUtility {
    text: Vec<char>,
}

/// Collects the characters of a string into a vector, in order.
fn chars_of(s: &str) -> (v: Vec<char>)
    ensures
        v@ == s@,
{
    let mut v: Vec<char> = Vec::new();
    for c in it: s.chars()
        invariant
            it.seq() == s@,
            v@ == it.seq().take(it.index() as int),
    {
        v.push(c);
        proof {
            assert(v@ =~= it.seq().take(it.index() + 1));
        }
    }
    proof {
        assert(v@ =~= s@);
    }
    v
}

impl View for SourceUtility {
    type V = Seq<char>;

    closed spec fn view(&self) -> Seq<char> {
        self.text@
    }
}

impl SourceUtility {
    /// Builds a classifier over the given text. Any text is acceptable,
    /// including the empty one.
    pub fn new(code_source: String) -> (u: Self)
        ensures
            u@ == code_source@,
    {
        SourceUtility { text: chars_of(code_source.as_str()) }
    }

    /// The total number of lines of the text.
    pub fn count_total_lines(&self) -> (n: usize)
        ensures
            n == total_line_count(self@),
    {
        let lines = split_lines(&self.text);
        lines.len()
    }

    /// The number of lines that hold nothing but whitespace.
    pub fn count_empty_lines(&self) -> (n: usize)
        ensures
            n == empty_line_count(self@),
    {
        let lines = split_lines(&self.text);
        let ghost ls = lines_of(self.text@);
        let mut n: usize = 0;
        let mut i: usize = 0;
        proof {
            assert(ls.skip(0) =~= ls);
        }
        while i < lines.len()
            invariant
                i <= lines@.len(),
                lines@.map_values(|l: Vec<char>| l@) == ls,
                n <= i,
                n + empty_count_of(ls.skip(i as int)) == empty_count_of(ls),
            decreases lines@.len() - i,
        {
            proof {
                assert(ls.skip(i as int).first() == ls[i as int]);
                assert(ls.skip(i as int).drop_first() =~= ls.skip(i as int + 1));
            }
            if line_is_empty(&lines[i]) {
                n = n + 1;
            }
            i = i + 1;
        }
        proof {
            assert(ls.skip(ls.len() as int) =~= Seq::<Seq<char>>::empty());
        }
        n
    }

    /// The number of lines whose trimmed content starts with `//`.
    pub fn count_comment_lines(&self) -> (n: usize)
        ensures
            n == comment_line_count(self@),
    {
        let lines = split_lines(&self.text);
        let ghost ls = lines_of(self.text@);
        let mut n: usize = 0;
        let mut i: usize = 0;
        proof {
            assert(ls.skip(0) =~= ls);
        }
        while i < lines.len()
            invariant
                i <= lines@.len(),
                lines@.map_values(|l: Vec<char>| l@) == ls,
                n <= i,
                n + comment_count_of(ls.skip(i as int)) == comment_count_of(ls),
            decreases lines@.len() - i,
        {
            proof {
                assert(ls.skip(i as int).first() == ls[i as int]);
                assert(ls.skip(i as int).drop_first() =~= ls.skip(i as int + 1));
            }
            if line_is_comment(&lines[i]) {
                n = n + 1;
            }
            i = i + 1;
        }
        proof {
            assert(ls.skip(ls.len() as int) =~= Seq::<Seq<char>>::empty());
        }
        n
    }

    /// The number of code lines: the lines that are neither empty nor
    /// comments. Computed, as the partition invariant allows, by taking the
    /// empty and comment lines away from the total.
    pub fn count_code_lines(&self) -> (n: usize)
        ensures
            n == code_line_count(self@),
    {
        let total = self.count_total_lines();
        let empty = self.count_empty_lines();
        let comment = self.count_comment_lines();
        proof {
            lemma_line_count_partition(self.text@);
        }
        total - empty - comment
    }

    /// The number of code symbols: the characters of every raw segment that
    /// is neither zero-length nor a comment. A whitespace-only line is no
    /// comment and has characters, so they all count, even though the line
    /// itself counts as empty.
    pub fn count_code_symbols(&self) -> (n: usize)
        ensures
            n == code_symbol_count(self@),
    {
        let segments = split_raw(&self.text);
        let ghost ls = raw_split(self.text@);
        let cap = self.text.len();
        proof {
            lemma_counts_bounded(self.text@);
            assert(ls.skip(0) =~= ls);
        }
        let mut n: usize = 0;
        let mut i: usize = 0;
        while i < segments.len()
            invariant
                i <= segments@.len(),
                segments@.map_values(|l: Vec<char>| l@) == ls,
                n + symbol_sum(ls.skip(i as int)) == symbol_sum(ls),
                symbol_sum(ls) <= cap,
                cap <= usize::MAX,
            decreases segments@.len() - i,
        {
            proof {
                assert(ls.skip(i as int).first() == ls[i as int]);
                assert(ls.skip(i as int).drop_first() =~= ls.skip(i as int + 1));
            }
            let seg = &segments[i];
            if seg.len() != 0 && !line_is_comment(seg) {
                proof {
                    assert(symbol_weight(ls[i as int]) == seg@.len());
                }
                n = n + seg.len();
            }
            i = i + 1;
        }
        proof {
            assert(ls.skip(ls.len() as int) =~= Seq::<Seq<char>>::empty());
        }
        n
    }
}

/// Whether trimming removes this character: Unicode's White_Space set, the
/// set `char::is_whitespace` accepts.
fn char_is_space(c: char) -> (r: bool)
    ensures
        r == is_space(c),
{
    let u = c as u32;
    u == 0x20 || (0x09 <= u && u <= 0x0d) || u == 0x85 || u == 0xa0 || u == 0x1680 || (0x2000 <= u
        && u <= 0x200a) || u == 0x2028 || u == 0x2029 || u == 0x202f || u == 0x205f || u == 0x3000
}

/// The position of the first character of the line that is not whitespace,
/// or the line's length when the line is whitespace throughout.
fn first_non_space(l: &Vec<char>) -> (k: usize)
    ensures
        k <= l@.len(),
        forall|i: int| 0 <= i < k ==> is_space(l@[i]),
        k < l@.len() ==> !is_space(l@[k as int]),
{
    let mut k: usize = 0;
    while k < l.len()
        invariant
            k <= l@.len(),
            forall|i: int| 0 <= i < k ==> is_space(l@[i]),
        decreases l@.len() - k,
    {
        if !char_is_space(l[k]) {
            return k;
        }
        k = k + 1;
    }
    k
}

/// Whether the line holds nothing but whitespace.
fn line_is_empty(l: &Vec<char>) -> (r: bool)
    ensures
        r == is_empty_line(l@),
{
    let k = first_non_space(l);
    proof {
        lemma_classify_at_scan(l@, k as int);
    }
    k == l.len()
}

/// Whether the line, once trimmed, starts with the comment marker `//`.
fn line_is_comment(l: &Vec<char>) -> (r: bool)
    ensures
        r == is_comment_line(l@),
{
    let k = first_non_space(l);
    proof {
        lemma_classify_at_scan(l@, k as int);
    }
    if k < l.len() && l[k] == '/' {
        k + 1 < l.len() && l[k + 1] == '/'
    } else {
        false
    }
}

/// Splits the text on `'\n'` into its raw segments, as
/// [`raw_split`] describes them.
fn split_raw(text: &Vec<char>) -> (lines: Vec<Vec<char>>)
    ensures
        lines@.map_values(|l: Vec<char>| l@) == raw_split(text@),
{
    let ghost s = text@;
    let mut lines: Vec<Vec<char>> = Vec::new();
    let mut cur: Vec<char> = Vec::new();
    let mut i: usize = 0;
    proof {
        assert(s.skip(0) =~= s);
    }
    while i < text.len()
        invariant
            i <= s.len(),
            text@ == s,
            raw_split(s) =~~= lines@.map_values(|l: Vec<char>| l@) + glue_first(
                cur@,
                raw_split(s.skip(i as int)),
            ),
        decreases s.len() - i,
    {
        let ghost rem = s.skip(i as int);
        let ghost rest = raw_split(s.skip(i as int + 1));
        proof {
            assert(rem.first() == s[i as int]);
            assert(rem.drop_first() =~= s.skip(i as int + 1));
            lemma_raw_split_nonempty(s.skip(i as int + 1));
        }
        let c = text[i];
        if c == '\n' {
            proof {
                assert(raw_split(rem) == seq![Seq::<char>::empty()] + rest);
                assert(glue_first(cur@, raw_split(rem)) =~~= seq![cur@] + rest);
                assert(glue_first(Seq::<char>::empty(), rest) =~~= rest);
            }
            let ghost done_before = lines@.map_values(|l: Vec<char>| l@);
            let ghost cur_before = cur@;
            lines.push(cur);
            cur = Vec::new();
            proof {
                assert(lines@.map_values(|l: Vec<char>| l@) =~~= done_before + seq![cur_before]);
            }
        } else {
            proof {
                assert(raw_split(rem) == seq![seq![rem.first()] + rest.first()]
                    + rest.drop_first());
                assert(glue_first(cur@, raw_split(rem)) =~~= seq![
                    cur@ + seq![rem.first()] + rest.first(),
                ] + rest.drop_first());
                assert(cur@.push(c) =~= cur@ + seq![c]);
            }
            cur.push(c);
            proof {
                assert(glue_first(cur@, rest) =~~= seq![cur@ + rest.first()] + rest.drop_first());
            }
        }
        i = i + 1;
    }
    proof {
        assert(s.skip(s.len() as int) =~= Seq::<char>::empty());
        assert(raw_split(s.skip(s.len() as int)) == seq![Seq::<char>::empty()]);
        assert(glue_first(cur@, seq![Seq::<char>::empty()]) =~~= seq![cur@]);
    }
    lines.push(cur);
    proof {
        assert(lines@.map_values(|l: Vec<char>| l@) =~~= raw_split(s));
    }
    lines
}

/// The raw segments with the first one extended in front by the given prefix:
/// the shape a partial left-to-right scan of the text leaves behind.
spec fn glue_first(p: Seq<char>, ls: Seq<Seq<char>>) -> Seq<Seq<char>> {
    seq![p + ls.first()] + ls.drop_first()
}

/// Splits the text into its lines, as [`lines_of`] describes
/// them: the raw split, less the empty segment a trailing newline leaves.
fn split_lines(text: &Vec<char>) -> (lines: Vec<Vec<char>>)
    ensures
        lines@.map_values(|l: Vec<char>| l@) == lines_of(text@),
{
    if text.len() == 0 {
        let lines: Vec<Vec<char>> = Vec::new();
        proof {
            assert(lines@.map_values(|l: Vec<char>| l@) =~~= lines_of(text@));
        }
        return lines;
    }
    let mut lines = split_raw(text);
    proof {
        lemma_raw_split_nonempty(text@);
    }
    if text[text.len() - 1] == '\n' {
        let ghost before = lines@;
        lines.pop();
        proof {
            assert(lines@.map_values(|l: Vec<char>| l@) =~~= before.map_values(
                |l: Vec<char>| l@,
            ).drop_last());
        }
    }
    lines
}

} // verus!
