//! The mathematical model of the line classifier.
//!
//! Everything here is specification-level: line splitting, whitespace
//! trimming, the classification of a single line, and the five counts, all
//! stated over `Seq<char>`. The executable code in [`crate::classifier`] is
//! proved against these definitions.

use vstd::prelude::*;

verus! {

/// The characters that trimming removes: Unicode's White_Space set, the same
/// set that `char::is_whitespace` accepts.
pub open spec fn is_space(c: char) -> bool {
    ||| c as u32 == 0x20
    ||| (0x09 <= c as u32 && c as u32 <= 0x0d)
    ||| c as u32 == 0x85
    ||| c as u32 == 0xa0
    ||| c as u32 == 0x1680
    ||| (0x2000 <= c as u32 && c as u32 <= 0x200a)
    ||| c as u32 == 0x2028
    ||| c as u32 == 0x2029
    ||| c as u32 == 0x202f
    ||| c as u32 == 0x205f
    ||| c as u32 == 0x3000
}

/// A line with its leading whitespace removed.
pub open spec fn trim_front(l: Seq<char>) -> Seq<char>
    decreases l.len(),
{
    if l.len() == 0 {
        l
    } else if is_space(l.first()) {
        trim_front(l.drop_first())
    } else {
        l
    }
}

/// A line with its trailing whitespace removed.
pub open spec fn trim_back(l: Seq<char>) -> Seq<char>
    decreases l.len(),
{
    if l.len() == 0 {
        l
    } else if is_space(l.last()) {
        trim_back(l.drop_last())
    } else {
        l
    }
}

/// A line with both leading and trailing whitespace removed.
pub open spec fn trimmed(l: Seq<char>) -> Seq<char> {
    trim_back(trim_front(l))
}

/// An empty line: nothing is left of it once it is trimmed.
pub open spec fn is_empty_line(l: Seq<char>) -> bool {
    trimmed(l).len() == 0
}

/// A comment line: the trimmed line starts with the two-character marker `//`.
pub open spec fn is_comment_line(l: Seq<char>) -> bool {
    trimmed(l).len() >= 2 && trimmed(l)[0] == '/' && trimmed(l)[1] == '/'
}

/// A code line: any line that is neither empty nor a comment.
pub open spec fn is_code_line(l: Seq<char>) -> bool {
    !is_empty_line(l) && !is_comment_line(l)
}

/// The raw split of a text on `'\n'`: every separator bounds two segments, so
/// the result always holds at least one segment, and a text that ends with a
/// newline ends with an empty segment. The empty text gives one empty segment.
pub open spec fn raw_split(s: Seq<char>) -> Seq<Seq<char>>
    decreases s.len(),
{
    if s.len() == 0 {
        seq![Seq::<char>::empty()]
    } else if s.first() == '\n' {
        seq![Seq::<char>::empty()] + raw_split(s.drop_first())
    } else {
        let rest = raw_split(s.drop_first());
        seq![seq![s.first()] + rest.first()] + rest.drop_first()
    }
}

/// The lines of a text: the raw split, except that the empty text has no
/// lines and a trailing newline opens no further line.
pub open spec fn lines_of(s: Seq<char>) -> Seq<Seq<char>> {
    if s.len() == 0 {
        Seq::<Seq<char>>::empty()
    } else if s.last() == '\n' {
        raw_split(s).drop_last()
    } else {
        raw_split(s)
    }
}

/// How many of the given lines are empty.
pub open spec fn empty_count_of(ls: Seq<Seq<char>>) -> nat
    decreases ls.len(),
{
    if ls.len() == 0 {
        0
    } else {
        (if is_empty_line(ls.first()) {
            1nat
        } else {
            0nat
        }) + empty_count_of(ls.drop_first())
    }
}

/// How many of the given lines are comments.
pub open spec fn comment_count_of(ls: Seq<Seq<char>>) -> nat
    decreases ls.len(),
{
    if ls.len() == 0 {
        0
    } else {
        (if is_comment_line(ls.first()) {
            1nat
        } else {
            0nat
        }) + comment_count_of(ls.drop_first())
    }
}

/// How many of the given lines are code.
pub open spec fn code_count_of(ls: Seq<Seq<char>>) -> nat
    decreases ls.len(),
{
    if ls.len() == 0 {
        0
    } else {
        (if is_code_line(ls.first()) {
            1nat
        } else {
            0nat
        }) + code_count_of(ls.drop_first())
    }
}

/// What one raw segment contributes to the code-symbol count: its whole
/// character count, unless the segment is empty or a comment. A segment of
/// nothing but whitespace still contributes all of its characters: the symbol
/// scan goes by raw length, not by the trimmed line.
pub open spec fn symbol_weight(l: Seq<char>) -> nat {
    if l.len() != 0 && !is_comment_line(l) {
        l.len()
    } else {
        0
    }
}

/// The code-symbol contribution of a sequence of raw segments.
pub open spec fn symbol_sum(ls: Seq<Seq<char>>) -> nat
    decreases ls.len(),
{
    if ls.len() == 0 {
        0
    } else {
        symbol_weight(ls.first()) + symbol_sum(ls.drop_first())
    }
}

/// The total number of lines of a text.
pub open spec fn total_line_count(s: Seq<char>) -> nat {
    lines_of(s).len()
}

/// The number of empty lines of a text.
pub open spec fn empty_line_count(s: Seq<char>) -> nat {
    empty_count_of(lines_of(s))
}

/// The number of comment lines of a text.
pub open spec fn comment_line_count(s: Seq<char>) -> nat {
    comment_count_of(lines_of(s))
}

/// The number of code lines of a text.
pub open spec fn code_line_count(s: Seq<char>) -> nat {
    code_count_of(lines_of(s))
}

/// The number of code symbols of a text: the symbol contribution of its raw
/// split. The raw split, not `lines_of`, is the scan the count goes by, so a
/// final empty segment after a trailing newline contributes nothing, while a
/// whitespace-only line contributes its characters.
pub open spec fn code_symbol_count(s: Seq<char>) -> nat {
    symbol_sum(raw_split(s))
}

/// The characters of a sequence of segments, counted together.
pub open spec fn flat_len(ls: Seq<Seq<char>>) -> nat
    decreases ls.len(),
{
    if ls.len() == 0 {
        0
    } else {
        ls.first().len() + flat_len(ls.drop_first())
    }
}

/// Trimming the front removes exactly the leading run of whitespace: what is
/// left is a suffix, everything before it is whitespace, and it does not
/// itself start with whitespace.
pub proof fn lemma_trim_front_shape(l: Seq<char>)
    ensures
        trim_front(l).len() <= l.len(),
        trim_front(l) =~= l.skip(l.len() - trim_front(l).len()),
        forall|i: int| 0 <= i < l.len() - trim_front(l).len() ==> is_space(l[i]),
        trim_front(l).len() > 0 ==> !is_space(trim_front(l).first()),
    decreases l.len(),
{
    if l.len() != 0 && is_space(l.first()) {
        lemma_trim_front_shape(l.drop_first());
        assert(l.drop_first().skip(l.len() - 1 - trim_front(l).len()) =~= l.skip(
            l.len() - trim_front(l).len(),
        ));
        assert forall|i: int| 0 <= i < l.len() - trim_front(l).len() implies is_space(
            l[i],
        ) by {
            if i > 0 {
                assert(l[i] == l.drop_first()[i - 1]);
            }
        }
    } else {
        assert(l.skip(0) =~= l);
    }
}

/// Trimming the back removes exactly the trailing run of whitespace: what is
/// left is a prefix, everything after it is whitespace, and it does not
/// itself end with whitespace.
pub proof fn lemma_trim_back_shape(l: Seq<char>)
    ensures
        trim_back(l).len() <= l.len(),
        trim_back(l) =~= l.take(trim_back(l).len() as int),
        forall|i: int| trim_back(l).len() <= i < l.len() ==> is_space(l[i]),
        trim_back(l).len() > 0 ==> !is_space(trim_back(l).last()),
    decreases l.len(),
{
    if l.len() != 0 && is_space(l.last()) {
        lemma_trim_back_shape(l.drop_last());
        assert(l.drop_last().take(trim_back(l).len() as int) =~= l.take(
            trim_back(l).len() as int,
        ));
        assert forall|i: int| trim_back(l).len() <= i < l.len() implies is_space(l[i]) by {
            if i < l.len() - 1 {
                assert(l[i] == l.drop_last()[i]);
            }
        }
    } else {
        assert(l.take(l.len() as int) =~= l);
    }
}

/// Classifying a line by its first non-whitespace position: the line is
/// empty exactly when there is none, and a comment exactly when the two
/// characters from that position onward are `//`.
pub proof fn lemma_classify_at_scan(l: Seq<char>, k: int)
    requires
        0 <= k <= l.len(),
        forall|i: int| 0 <= i < k ==> is_space(l[i]),
        k < l.len() ==> !is_space(l[k]),
    ensures
        is_empty_line(l) <==> k == l.len(),
        is_comment_line(l) <==> (k + 1 < l.len() && l[k] == '/' && l[k + 1] == '/'),
{
    lemma_trim_front_shape(l);
    let x = trim_front(l);
    let k0 = l.len() - x.len();
    if k < k0 {
        assert(is_space(l[k]));
        assert(false);
    }
    if k0 < k {
        assert(x.first() == l[k0]);
        assert(is_space(l[k0]));
        assert(false);
    }
    assert(k == k0);
    lemma_trim_back_shape(x);
    let t = trim_back(x);
    assert(forall|i: int| 0 <= i < t.len() ==> t[i] == x[i]);
    assert(forall|i: int| 0 <= i < x.len() ==> x[i] == l[k + i]);
    if k < l.len() {
        assert(x.first() == l[k]);
        if t.len() == 0 {
            assert(is_space(x[0]));
            assert(false);
        }
    }
    if k + 1 < l.len() && l[k] == '/' && l[k + 1] == '/' {
        assert(x[1] == l[k + 1]);
        if t.len() <= 1 {
            assert(is_space(x[1]));
            assert(false);
        }
        assert(t[0] == '/' && t[1] == '/');
    }
    if is_comment_line(l) {
        assert(t[0] == x[0] && t[1] == x[1]);
        assert(l[k] == '/' && l[k + 1] == '/');
        assert(k + 1 < l.len());
    }
}

/// The symbol contribution of any segments is at most their characters.
pub proof fn lemma_symbol_sum_le_flat_len(ls: Seq<Seq<char>>)
    ensures
        symbol_sum(ls) <= flat_len(ls),
    decreases ls.len(),
{
    if ls.len() != 0 {
        lemma_symbol_sum_le_flat_len(ls.drop_first());
    }
}

/// The raw split accounts for every character: the segments together hold
/// all of the text but its separators, one separator between each two
/// neighbouring segments.
pub proof fn lemma_raw_split_flat_len(s: Seq<char>)
    ensures
        flat_len(raw_split(s)) + raw_split(s).len() == s.len() + 1,
    decreases s.len(),
{
    if s.len() == 0 {
        assert(raw_split(s).drop_first() =~= Seq::<Seq<char>>::empty());
        assert(flat_len(Seq::<Seq<char>>::empty()) == 0);
        assert(flat_len(raw_split(s)) == 0);
        assert(raw_split(s).len() == 1);
    } else if s.first() == '\n' {
        lemma_raw_split_flat_len(s.drop_first());
        let rest = raw_split(s.drop_first());
        assert(raw_split(s) == seq![Seq::<char>::empty()] + rest);
        assert((seq![Seq::<char>::empty()] + rest).drop_first() =~= rest);
        assert(flat_len(raw_split(s)) == flat_len(rest));
        assert(raw_split(s).len() == 1 + rest.len());
    } else {
        lemma_raw_split_flat_len(s.drop_first());
        let rest = raw_split(s.drop_first());
        lemma_raw_split_nonempty(s.drop_first());
        let glued = seq![seq![s.first()] + rest.first()] + rest.drop_first();
        assert(raw_split(s) == glued);
        assert(glued.drop_first() =~= rest.drop_first());
        assert(glued.first().len() == 1 + rest.first().len());
        assert(flat_len(glued) == 1 + rest.first().len() + flat_len(rest.drop_first()));
        assert(flat_len(rest) == rest.first().len() + flat_len(rest.drop_first()));
        assert(glued.len() == rest.len());
    }
}

/// The code-symbol count never exceeds the character count of the text.
pub proof fn lemma_symbol_count_le_len(s: Seq<char>)
    ensures
        code_symbol_count(s) <= s.len(),
{
    lemma_symbol_sum_le_flat_len(raw_split(s));
    lemma_raw_split_flat_len(s);
    lemma_raw_split_nonempty(s);
}

/// Each class count of a sequence of lines is at most its length.
pub proof fn lemma_class_counts_le_len(ls: Seq<Seq<char>>)
    ensures
        empty_count_of(ls) <= ls.len(),
        comment_count_of(ls) <= ls.len(),
        code_count_of(ls) <= ls.len(),
    decreases ls.len(),
{
    if ls.len() != 0 {
        lemma_class_counts_le_len(ls.drop_first());
    }
}

/// Every count stays within the input: the total is the number of
/// line-splits (none for the empty text), each class count is at most the
/// total, and the symbol count is at most the character count. All counts
/// are naturals, so none is ever negative.
pub proof fn lemma_counts_bounded(s: Seq<char>)
    ensures
        total_line_count(s) == lines_of(s).len(),
        s.len() == 0 ==> total_line_count(s) == 0,
        empty_line_count(s) <= total_line_count(s),
        comment_line_count(s) <= total_line_count(s),
        code_line_count(s) <= total_line_count(s),
        code_symbol_count(s) <= s.len(),
{
    lemma_class_counts_le_len(lines_of(s));
    lemma_symbol_count_le_len(s);
}

/// The raw split never comes out empty.
pub proof fn lemma_raw_split_nonempty(s: Seq<char>)
    ensures
        raw_split(s).len() >= 1,
    decreases s.len(),
{
    if s.len() != 0 && s.first() != '\n' {
        lemma_raw_split_nonempty(s.drop_first());
    }
}

/// No line is both empty and a comment: an empty line trims to nothing, a
/// comment line trims to at least the two marker characters.
pub proof fn lemma_classes_disjoint(l: Seq<char>)
    ensures
        !(is_empty_line(l) && is_comment_line(l)),
{
}

/// Every line falls in exactly one class, so the three class counts of any
/// sequence of lines add up to its length.
pub proof fn lemma_class_counts_partition(ls: Seq<Seq<char>>)
    ensures
        code_count_of(ls) + empty_count_of(ls) + comment_count_of(ls) == ls.len(),
    decreases ls.len(),
{
    if ls.len() != 0 {
        lemma_class_counts_partition(ls.drop_first());
    }
}

/// The partition invariant: for every text, the code, empty and comment line
/// counts add up to the total line count.
pub proof fn lemma_line_count_partition(s: Seq<char>)
    ensures
        code_line_count(s) + empty_line_count(s) + comment_line_count(s) == total_line_count(s),
{
    lemma_class_counts_partition(lines_of(s));
}

} // verus!
