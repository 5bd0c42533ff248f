//! Sentence boundary detection: the text is split after sentence-ending
//! punctuation that is followed by white space, except after common
//! abbreviations, and then at line breaks.
use vstd::prelude::*;

use crate::text::{
    all_white, ascii_lower, ascii_lower_char, chars_of, is_all_white, is_ascii_lower,
    is_white, is_white_char, split_chars, split_on, string_from_chars, trim, trim_chars, trim_end,
    trim_start,
};

verus! {

/// How many abbreviations are recognised.
pub const ABBREVIATION_COUNT: usize = 25;

/// The abbreviations after which a period does not end a sentence (in this
/// order of preference).
pub open spec fn abbrev_word_spec(k: int) -> Seq<char> {
    if k == 0 {
        "dr"@
    } else if k == 1 {
        "mr"@
    } else if k == 2 {
        "mrs"@
    } else if k == 3 {
        "ms"@
    } else if k == 4 {
        "prof"@
    } else if k == 5 {
        "sr"@
    } else if k == 6 {
        "jr"@
    } else if k == 7 {
        "inc"@
    } else if k == 8 {
        "ltd"@
    } else if k == 9 {
        "corp"@
    } else if k == 10 {
        "vs"@
    } else if k == 11 {
        "etc"@
    } else if k == 12 {
        "approx"@
    } else if k == 13 {
        "dept"@
    } else if k == 14 {
        "univ"@
    } else if k == 15 {
        "assn"@
    } else if k == 16 {
        "no"@
    } else if k == 17 {
        "vol"@
    } else if k == 18 {
        "fig"@
    } else if k == 19 {
        "eq"@
    } else if k == 20 {
        "al"@
    } else if k == 21 {
        "e.g"@
    } else if k == 22 {
        "i.e"@
    } else if k == 23 {
        "a.m"@
    } else {
        "p.m"@
    }
}

fn abbrev_word(k: usize) -> (res: &'static str)
    requires
        k < ABBREVIATION_COUNT,
    ensures
        res@ == abbrev_word_spec(k as int),
{
    if k == 0 {
        "dr"
    } else if k == 1 {
        "mr"
    } else if k == 2 {
        "mrs"
    } else if k == 3 {
        "ms"
    } else if k == 4 {
        "prof"
    } else if k == 5 {
        "sr"
    } else if k == 6 {
        "jr"
    } else if k == 7 {
        "inc"
    } else if k == 8 {
        "ltd"
    } else if k == 9 {
        "corp"
    } else if k == 10 {
        "vs"
    } else if k == 11 {
        "etc"
    } else if k == 12 {
        "approx"
    } else if k == 13 {
        "dept"
    } else if k == 14 {
        "univ"
    } else if k == 15 {
        "assn"
    } else if k == 16 {
        "no"
    } else if k == 17 {
        "vol"
    } else if k == 18 {
        "fig"
    } else if k == 19 {
        "eq"
    } else if k == 20 {
        "al"
    } else if k == 21 {
        "e.g"
    } else if k == 22 {
        "i.e"
    } else if k == 23 {
        "a.m"
    } else {
        "p.m"
    }
}

/// Whether the character is a Unicode word character (`\w`: Alphabetic,
/// Join_Control, Decimal_Number, Mark or Connector_Punctuation), as
/// `regex_syntax::is_word_character` classifies it; this is the class
/// that a regular expression's word boundary `\b` looks at.
pub uninterp spec fn unicode_word_char(c: char) -> bool;

/// `regex_syntax::is_word_character` (the crate is built with its
/// `unicode-perl` feature, without which the function panics).
#[verifier::external_body]
fn is_word_character(c: char) -> (res: bool)
    ensures
        res == unicode_word_char(c),
{
    regex_syntax::is_word_character(c)
}

/// A character of a word.
pub open spec fn is_word_char(c: char) -> bool {
    unicode_word_char(c)
}

/// Whether position `p` of `s` begins a word (no word character before).
pub open spec fn at_word_start(s: Seq<char>, p: int) -> bool {
    p == 0 || (0 < p <= s.len() && !is_word_char(s[p - 1]))
}

/// Case-insensitive match of a text character against a character of an
/// abbreviation (lower-case ASCII, or `.`): letters match in either ASCII
/// case, `s` also matches the long s `ſ` (its Unicode case fold).
pub open spec fn folds_to(c: char, p: char) -> bool {
    if is_ascii_lower(p) {
        ascii_lower(c) == p || (p == 's' && c == '\u{17F}')
    } else {
        c == p
    }
}

/// Whether the abbreviation `w`, then `.`, then one white-space character,
/// stand at position `p` of `s`.
pub open spec fn word_matches_at(s: Seq<char>, p: int, w: Seq<char>) -> bool {
    &&& 0 <= p
    &&& p + w.len() + 2 <= s.len()
    &&& forall|k: int| 0 <= k < w.len() ==> folds_to(#[trigger] s[p + k], w[k])
    &&& s[p + w.len()] == '.'
    &&& is_white(s[p + w.len() + 1])
}

/// The first abbreviation, from number `k` on, that stands at `p`.
pub open spec fn abbrev_from(s: Seq<char>, p: int, k: int) -> Option<int>
    decreases ABBREVIATION_COUNT - k,
{
    if k < 0 || k >= ABBREVIATION_COUNT {
        None
    } else if word_matches_at(s, p, abbrev_word_spec(k)) {
        Some(k)
    } else {
        abbrev_from(s, p, k + 1)
    }
}

/// The length of the abbreviation (with its period and the white space
/// after it) that begins a word at `p`; 0 when there is none.
pub open spec fn abbrev_len_at(s: Seq<char>, p: int) -> int {
    if at_word_start(s, p) {
        match abbrev_from(s, p, 0) {
            Some(k) => abbrev_word_spec(k).len() + 2int,
            None => 0,
        }
    } else {
        0
    }
}

/// A period hidden from the sentence splitter.
pub open spec fn protect_char(c: char) -> char {
    if c == '.' {
        '\0'
    } else {
        c
    }
}

/// A hidden period shown again.
pub open spec fn restore_char(c: char) -> char {
    if c == '\0' {
        '.'
    } else {
        c
    }
}

/// The text from position `i` on, with the periods of abbreviations hidden.
pub open spec fn protect_from(s: Seq<char>, i: int) -> Seq<char>
    decreases s.len() - i,
{
    if i < 0 || i >= s.len() {
        Seq::empty()
    } else {
        let l = abbrev_len_at(s, i);
        if l > 0 && i + l <= s.len() {
            s.subrange(i, i + l).map_values(|c: char| protect_char(c)) + protect_from(s, i + l)
        } else {
            seq![s[i]] + protect_from(s, i + 1)
        }
    }
}

pub open spec fn is_end_punct(c: char) -> bool {
    c == '.' || c == '!' || c == '?'
}

/// The end of the run of sentence-ending punctuation at `i`.
pub open spec fn punct_run_end(t: Seq<char>, i: int) -> int
    decreases t.len() - i,
{
    if 0 <= i < t.len() && is_end_punct(t[i]) {
        punct_run_end(t, i + 1)
    } else {
        i
    }
}

/// The end of the run of white space at `i`.
pub open spec fn white_run_end(t: Seq<char>, i: int) -> int
    decreases t.len() - i,
{
    if 0 <= i < t.len() && is_white(t[i]) {
        white_run_end(t, i + 1)
    } else {
        i
    }
}

/// The pieces of `t` from `last` on, scanning from `i`: a run of `.`, `!`
/// or `?` followed by white space ends a piece just after its first
/// character; what follows the last such run is the final piece.
pub open spec fn raw_segments(t: Seq<char>, last: int, i: int) -> Seq<Seq<char>>
    decreases t.len() - i,
{
    if i < 0 || i >= t.len() {
        if 0 <= last < t.len() {
            seq![t.subrange(last, t.len() as int)]
        } else {
            Seq::empty()
        }
    } else if is_end_punct(t[i]) {
        let j = punct_run_end(t, i);
        if i < j && j < t.len() && is_white(t[j]) && 0 <= last <= i {
            let k = white_run_end(t, j);
            if j < k && k <= t.len() {
                seq![t.subrange(last, i + 1)] + raw_segments(t, i + 1, k)
            } else {
                raw_segments(t, last, i + 1)
            }
        } else if i < j && j <= t.len() {
            raw_segments(t, last, j)
        } else {
            raw_segments(t, last, i + 1)
        }
    } else {
        raw_segments(t, last, i + 1)
    }
}

/// The pieces shown again, trimmed, the empty ones dropped.
pub open spec fn cleaned(segs: Seq<Seq<char>>) -> Seq<Seq<char>>
    decreases segs.len(),
{
    if segs.len() == 0 {
        Seq::empty()
    } else {
        let c = trim(segs.last().map_values(|c: char| restore_char(c)));
        cleaned(segs.drop_last()) + if c.len() > 0 {
            seq![c]
        } else {
            Seq::empty()
        }
    }
}

/// The trimmed, non-empty pieces among `ps`.
pub open spec fn kept(ps: Seq<Seq<char>>) -> Seq<Seq<char>>
    decreases ps.len(),
{
    if ps.len() == 0 {
        Seq::empty()
    } else {
        let c = trim(ps.last());
        kept(ps.drop_last()) + if c.len() > 0 {
            seq![c]
        } else {
            Seq::empty()
        }
    }
}

/// Every sentence cut at line breaks, the lines trimmed, the empty ones
/// dropped.
pub open spec fn line_pieces(sents: Seq<Seq<char>>) -> Seq<Seq<char>>
    decreases sents.len(),
{
    if sents.len() == 0 {
        Seq::empty()
    } else {
        line_pieces(sents.drop_last()) + kept(split_on(sents.last(), '\n'))
    }
}

/// The sentences of `text`.
pub open spec fn sentences_spec(text: Seq<char>) -> Seq<Seq<char>> {
    if all_white(text) {
        Seq::empty()
    } else {
        line_pieces(cleaned(raw_segments(protect_from(text, 0), 0, 0)))
    }
}

/// A sentence as the splitter hands it out: not empty, neither beginning
/// nor ending with white space, and within one line.
pub open spec fn sentence_shape(s: Seq<char>) -> bool {
    &&& s.len() > 0
    &&& !is_white(s[0])
    &&& !is_white(s.last())
    &&& forall|i: int| 0 <= i < s.len() ==> #[trigger] s[i] != '\n'
}

proof fn lemma_trim_start_skips(s: Seq<char>) -> (k: int)
    ensures
        0 <= k <= s.len(),
        trim_start(s) == s.skip(k),
        k < s.len() ==> !is_white(s[k]),
    decreases s.len(),
{
    if s.len() > 0 && is_white(s[0]) {
        let k1 = lemma_trim_start_skips(s.drop_first());
        assert(s.drop_first().skip(k1) =~= s.skip(k1 + 1));
        k1 + 1
    } else {
        assert(s.skip(0) =~= s);
        0
    }
}

proof fn lemma_trim_end_takes(s: Seq<char>) -> (k: int)
    ensures
        0 <= k <= s.len(),
        trim_end(s) == s.take(k),
        k > 0 ==> !is_white(s[k - 1]),
    decreases s.len(),
{
    if s.len() > 0 && is_white(s.last()) {
        let k1 = lemma_trim_end_takes(s.drop_last());
        assert(s.drop_last().take(k1) =~= s.take(k1));
        k1
    } else {
        assert(s.take(s.len() as int) =~= s);
        s.len() as int
    }
}

/// A trimmed piece of a line is a sentence when it is not empty.
proof fn lemma_trim_shape(p: Seq<char>)
    requires
        forall|i: int| 0 <= i < p.len() ==> #[trigger] p[i] != '\n',
    ensures
        trim(p).len() > 0 ==> sentence_shape(trim(p)),
{
    let a = lemma_trim_start_skips(p);
    let q = p.skip(a);
    let b = lemma_trim_end_takes(q);
    let t = q.take(b);
    assert(trim(p) == t);
    if t.len() > 0 {
        assert(t[0] == p[a]);
        assert(t.last() == q[b - 1]);
        assert forall|i: int| 0 <= i < t.len() implies #[trigger] t[i] != '\n' by {
            assert(t[i] == p[a + i]);
        }
    }
}

proof fn lemma_split_lines(s: Seq<char>)
    ensures
        forall|k: int, i: int| 0 <= k < split_on(s, '\n').len() && 0 <= i < split_on(s, '\n')[k].len()
            ==> #[trigger] split_on(s, '\n')[k][i] != '\n',
    decreases s.len(),
{
    if s.len() > 0 {
        lemma_split_lines(s.drop_last());
        crate::text::lemma_split_on_nonempty(s.drop_last(), '\n');
        let rest = split_on(s.drop_last(), '\n');
        if s.last() != '\n' {
            let r = rest.update(rest.len() - 1, rest.last().push(s.last()));
            assert forall|k: int, i: int| 0 <= k < r.len() && 0 <= i < r[k].len() implies #[trigger] r[k][i] != '\n' by {
                if k == rest.len() - 1 && i == rest.last().len() {
                } else if k == rest.len() - 1 {
                    assert(r[k][i] == rest[k][i]);
                } else {
                    assert(r[k] == rest[k]);
                }
            }
        }
    }
}

proof fn lemma_kept_shape(ps: Seq<Seq<char>>)
    requires
        forall|k: int, i: int| 0 <= k < ps.len() && 0 <= i < ps[k].len() ==> #[trigger] ps[k][i] != '\n',
    ensures
        forall|k: int| 0 <= k < kept(ps).len() ==> sentence_shape(#[trigger] kept(ps)[k]),
    decreases ps.len(),
{
    if ps.len() > 0 {
        let init = ps.drop_last();
        assert forall|k: int, i: int| 0 <= k < init.len() && 0 <= i < init[k].len() implies #[trigger] init[k][i] != '\n' by {
            assert(init[k] == ps[k]);
        }
        lemma_kept_shape(init);
        let last = ps.last();
        assert forall|i: int| 0 <= i < last.len() implies #[trigger] last[i] != '\n' by {
            assert(ps[ps.len() - 1][i] == last[i]);
        }
        lemma_trim_shape(last);
        let a = kept(init);
        let c = trim(last);
        let b = if c.len() > 0 {
            seq![c]
        } else {
            Seq::<Seq<char>>::empty()
        };
        assert(kept(ps) == a + b);
        assert forall|k: int| 0 <= k < (a + b).len() implies sentence_shape(#[trigger] (a + b)[k]) by {
            if k < a.len() {
                assert((a + b)[k] == a[k]);
            } else {
                assert((a + b)[k] == c);
            }
        }
    }
}

proof fn lemma_line_pieces_shape(sents: Seq<Seq<char>>)
    ensures
        forall|k: int| 0 <= k < line_pieces(sents).len() ==> sentence_shape(#[trigger] line_pieces(sents)[k]),
    decreases sents.len(),
{
    if sents.len() > 0 {
        lemma_line_pieces_shape(sents.drop_last());
        lemma_split_lines(sents.last());
        lemma_kept_shape(split_on(sents.last(), '\n'));
        let a = line_pieces(sents.drop_last());
        let b = kept(split_on(sents.last(), '\n'));
        assert forall|k: int| 0 <= k < (a + b).len() implies sentence_shape(#[trigger] (a + b)[k]) by {
            if k < a.len() {
                assert((a + b)[k] == a[k]);
            } else {
                assert((a + b)[k] == b[k - a.len()]);
            }
        }
    }
}

/// Law: every sentence the splitter hands out is non-empty, has no white
/// space at either end, and contains no line break.
pub proof fn sentences_are_trimmed_lines(text: Seq<char>)
    ensures
        forall|k: int| 0 <= k < sentences_spec(text).len() ==> sentence_shape(#[trigger] sentences_spec(text)[k]),
{
    if !all_white(text) {
        lemma_line_pieces_shape(cleaned(raw_segments(protect_from(text, 0), 0, 0)));
    }
}

// ---------------------------------------------------------------------------
// Implementation
// ---------------------------------------------------------------------------

fn folds(c: char, p: char) -> (res: bool)
    ensures
        res == folds_to(c, p),
{
    if 'a' <= p && p <= 'z' {
        ascii_lower_char(c) == p || (p == 's' && c == '\u{17F}')
    } else {
        c == p
    }
}

fn word_at(s: &[char], p: usize, w: &str) -> (res: bool)
    ensures
        res == word_matches_at(s@, p as int, w@),
{
    let wv = chars_of(w);
    if wv.len() > s.len() || p > s.len() - wv.len() || s.len() - wv.len() - p < 2 {
        return false;
    }
    let mut k: usize = 0;
    while k < wv.len()
        invariant
            k <= wv.len(),
            wv@ == w@,
            p + wv.len() + 2 <= s.len(),
            forall|j: int| 0 <= j < k ==> folds_to(#[trigger] s@[p + j], w@[j]),
        decreases wv.len() - k,
    {
        if !folds(s[p + k], wv[k]) {
            assert(!folds_to(s@[p + k], w@[k as int]));
            return false;
        }
        k += 1;
    }
    s[p + wv.len()] == '.' && is_white_char(s[p + wv.len() + 1])
}

fn abbrev_len(s: &[char], p: usize) -> (res: usize)
    requires
        p < s.len(),
    ensures
        res as int == abbrev_len_at(s@, p as int),
{
    if p > 0 && is_word_character(s[p - 1]) {
        return 0;
    }
    let mut k: usize = 0;
    while k < ABBREVIATION_COUNT
        invariant
            k <= ABBREVIATION_COUNT,
            p < s.len(),
            at_word_start(s@, p as int),
            abbrev_from(s@, p as int, 0) == abbrev_from(s@, p as int, k as int),
        decreases ABBREVIATION_COUNT - k,
    {
        let w = abbrev_word(k);
        if word_at(s, p, w) {
            let n = chars_of(w).len();
            return n + 2;
        }
        k += 1;
    }
    0
}

fn protect(s: &[char]) -> (res: Vec<char>)
    ensures
        res@ == protect_from(s@, 0),
{
    let mut out: Vec<char> = Vec::new();
    let mut i: usize = 0;
    while i < s.len()
        invariant
            i <= s.len(),
            out@ + protect_from(s@, i as int) == protect_from(s@, 0),
        decreases s.len() - i,
    {
        let l = abbrev_len(s, i);
        if l > 0 && l <= s.len() - i {
            let ghost before = out@;
            let mut j: usize = i;
            while j < i + l
                invariant
                    i <= j <= i + l <= s.len(),
                    out@ == before + s@.subrange(i as int, j as int).map_values(
                        |c: char| protect_char(c),
                    ),
                decreases i + l - j,
            {
                let c = if s[j] == '.' {
                    '\0'
                } else {
                    s[j]
                };
                out.push(c);
                assert(s@.subrange(i as int, j + 1).map_values(|c: char| protect_char(c))
                    =~= s@.subrange(i as int, j as int).map_values(|c: char| protect_char(c)).push(c));
                j += 1;
            }
            assert(out@ + protect_from(s@, (i + l) as int) =~= before + protect_from(s@, i as int));
            i += l;
        } else {
            let ghost before = out@;
            out.push(s[i]);
            assert(out@ + protect_from(s@, (i + 1) as int) =~= before + protect_from(s@, i as int));
            i += 1;
        }
    }
    assert(out@ + protect_from(s@, i as int) =~= out@);
    out
}

fn subrange_vec(t: &[char], lo: usize, hi: usize) -> (res: Vec<char>)
    requires
        lo <= hi <= t.len(),
    ensures
        res@ == t@.subrange(lo as int, hi as int),
{
    let mut v: Vec<char> = Vec::new();
    let mut i: usize = lo;
    while i < hi
        invariant
            lo <= i <= hi <= t.len(),
            v@ == t@.subrange(lo as int, i as int),
        decreases hi - i,
    {
        v.push(t[i]);
        assert(t@.subrange(lo as int, i + 1) =~= t@.subrange(lo as int, i as int).push(t@[i as int]));
        i += 1;
    }
    v
}

proof fn lemma_punct_run(t: Seq<char>, i: int, j: int)
    requires
        0 <= i <= j <= t.len(),
        forall|m: int| i <= m < j ==> is_end_punct(#[trigger] t[m]),
    ensures
        punct_run_end(t, i) == punct_run_end(t, j),
    decreases j - i,
{
    if i < j {
        lemma_punct_run(t, i + 1, j);
    }
}

proof fn lemma_white_run(t: Seq<char>, i: int, j: int)
    requires
        0 <= i <= j <= t.len(),
        forall|m: int| i <= m < j ==> is_white(#[trigger] t[m]),
    ensures
        white_run_end(t, i) == white_run_end(t, j),
    decreases j - i,
{
    if i < j {
        lemma_white_run(t, i + 1, j);
    }
}

fn segments(t: &[char]) -> (res: Vec<Vec<char>>)
    ensures
        res@.len() == raw_segments(t@, 0, 0).len(),
        forall|k: int| 0 <= k < res@.len() ==> (#[trigger] res@[k])@ == raw_segments(t@, 0, 0)[k],
{
    let mut out: Vec<Vec<char>> = Vec::new();
    let ghost mut g: Seq<Seq<char>> = Seq::empty();
    let mut last: usize = 0;
    let mut i: usize = 0;
    while i < t.len()
        invariant
            last <= i <= t.len(),
            out@.len() == g.len(),
            forall|k: int| 0 <= k < out@.len() ==> (#[trigger] out@[k])@ == g[k],
            g + raw_segments(t@, last as int, i as int) == raw_segments(t@, 0, 0),
        decreases t.len() - i,
    {
        let c = t[i];
        if c == '.' || c == '!' || c == '?' {
            let mut j: usize = i;
            while j < t.len() && (t[j] == '.' || t[j] == '!' || t[j] == '?')
                invariant
                    i <= j <= t.len(),
                    forall|m: int| i <= m < j ==> is_end_punct(#[trigger] t@[m]),
                decreases t.len() - j,
            {
                j += 1;
            }
            proof {
                lemma_punct_run(t@, i as int, j as int);
            }
            if j < t.len() && is_white_char(t[j]) {
                let mut k: usize = j;
                while k < t.len() && is_white_char(t[k])
                    invariant
                        j <= k <= t.len(),
                        forall|m: int| j <= m < k ==> is_white(#[trigger] t@[m]),
                    decreases t.len() - k,
                {
                    k += 1;
                }
                proof {
                    lemma_white_run(t@, j as int, k as int);
                }
                let seg = subrange_vec(t, last, i + 1);
                proof {
                    let s0 = t@.subrange(last as int, i + 1);
                    assert(g + raw_segments(t@, last as int, i as int) =~= g.push(s0) + raw_segments(
                        t@,
                        (i + 1) as int,
                        k as int,
                    ));
                    g = g.push(s0);
                }
                out.push(seg);
                last = i + 1;
                i = k;
            } else {
                i = j;
            }
        } else {
            i += 1;
        }
    }
    if last < t.len() {
        let seg = subrange_vec(t, last, t.len());
        proof {
            g = g.push(t@.subrange(last as int, t@.len() as int));
        }
        out.push(seg);
    }
    assert(g =~= raw_segments(t@, 0, 0));
    out
}

fn restore(v: &[char]) -> (res: Vec<char>)
    ensures
        res@ == v@.map_values(|c: char| restore_char(c)),
{
    let mut out: Vec<char> = Vec::new();
    let mut i: usize = 0;
    while i < v.len()
        invariant
            i <= v.len(),
            out@ == v@.take(i as int).map_values(|c: char| restore_char(c)),
        decreases v.len() - i,
    {
        let c = if v[i] == '\0' {
            '.'
        } else {
            v[i]
        };
        out.push(c);
        assert(v@.take(i + 1).map_values(|c: char| restore_char(c)) =~= v@.take(i as int).map_values(
            |c: char| restore_char(c),
        ).push(c));
        i += 1;
    }
    assert(v@.take(v.len() as int) =~= v@);
    out
}

/// Splits `text` into sentences: after `.`, `!` or `?` followed by white
/// space (except after a recognised abbreviation), and at line breaks; every
/// sentence trimmed, empty ones dropped.
pub fn split_sentences(text: &str) -> (res: Vec<String>)
    ensures
        res@.len() == sentences_spec(text@).len(),
        forall|k: int| 0 <= k < res@.len() ==> (#[trigger] res@[k])@ == sentences_spec(text@)[k],
{
    let v = chars_of(text);
    if is_all_white(v.as_slice()) {
        return Vec::new();
    }
    let protected = protect(v.as_slice());
    let raw = segments(protected.as_slice());
    let ghost graw = raw_segments(protect_from(text@, 0), 0, 0);
    // Clean every piece.
    let mut sents: Vec<Vec<char>> = Vec::new();
    let ghost mut gs: Seq<Seq<char>> = Seq::empty();
    let mut i: usize = 0;
    while i < raw.len()
        invariant
            i <= raw@.len(),
            raw@.len() == graw.len(),
            forall|k: int| 0 <= k < raw@.len() ==> (#[trigger] raw@[k])@ == graw[k],
            sents@.len() == gs.len(),
            forall|k: int| 0 <= k < sents@.len() ==> (#[trigger] sents@[k])@ == gs[k],
            gs == cleaned(graw.take(i as int)),
        decreases raw@.len() - i,
    {
        assert(graw.take(i + 1).drop_last() =~= graw.take(i as int));
        let r = restore(raw[i].as_slice());
        let c = trim_chars(r.as_slice());
        if c.len() > 0 {
            proof {
                gs = gs.push(c@);
            }
            sents.push(c);
        } else {
            assert(gs + Seq::<Seq<char>>::empty() =~= gs);
        }
        i += 1;
    }
    assert(graw.take(raw@.len() as int) =~= graw);
    // Cut every sentence at line breaks.
    let mut res: Vec<String> = Vec::new();
    let ghost mut gr: Seq<Seq<char>> = Seq::empty();
    let mut j: usize = 0;
    while j < sents.len()
        invariant
            j <= sents@.len(),
            sents@.len() == gs.len(),
            forall|k: int| 0 <= k < sents@.len() ==> (#[trigger] sents@[k])@ == gs[k],
            res@.len() == gr.len(),
            forall|k: int| 0 <= k < res@.len() ==> (#[trigger] res@[k])@ == gr[k],
            gr == line_pieces(gs.take(j as int)),
        decreases sents@.len() - j,
    {
        assert(gs.take(j + 1).drop_last() =~= gs.take(j as int));
        let pieces = split_chars(sents[j].as_slice(), '\n');
        let ghost gp = split_on(gs[j as int], '\n');
        let ghost base = gr;
        let mut m: usize = 0;
        while m < pieces.len()
            invariant
                m <= pieces@.len(),
                pieces@.len() == gp.len(),
                forall|k: int| 0 <= k < pieces@.len() ==> (#[trigger] pieces@[k])@ == gp[k],
                res@.len() == gr.len(),
                forall|k: int| 0 <= k < res@.len() ==> (#[trigger] res@[k])@ == gr[k],
                gr == base + kept(gp.take(m as int)),
            decreases pieces@.len() - m,
        {
            assert(gp.take(m + 1).drop_last() =~= gp.take(m as int));
            let c = trim_chars(pieces[m].as_slice());
            if c.len() > 0 {
                let s = string_from_chars(c.as_slice());
                proof {
                    gr = gr.push(c@);
                    assert(base + kept(gp.take(m + 1)) =~= gr);
                }
                res.push(s);
            } else {
                assert(base + kept(gp.take(m + 1)) =~= gr);
            }
            m += 1;
        }
        assert(gp.take(pieces@.len() as int) =~= gp);
        j += 1;
    }
    assert(gs.take(sents@.len() as int) =~= gs);
    res
}

proof fn lemma_listed_index(w: Seq<char>) -> (k: int)
    requires
        w == "dr"@ || w == "mr"@ || w == "mrs"@ || w == "ms"@ || w == "prof"@ || w == "sr"@ ||
            w == "jr"@ || w == "inc"@ || w == "ltd"@ || w == "corp"@ || w == "vs"@ ||
            w == "etc"@ || w == "approx"@ || w == "dept"@ || w == "univ"@ || w == "assn"@ ||
            w == "no"@ || w == "vol"@ || w == "fig"@ || w == "eq"@ || w == "al"@ || w == "e.g"@ ||
            w == "i.e"@ || w == "a.m"@ || w == "p.m"@,
    ensures
        0 <= k < ABBREVIATION_COUNT,
        abbrev_word_spec(k) == w,
{
    if w == "dr"@ {
        0
    } else if w == "mr"@ {
        1
    } else if w == "mrs"@ {
        2
    } else if w == "ms"@ {
        3
    } else if w == "prof"@ {
        4
    } else if w == "sr"@ {
        5
    } else if w == "jr"@ {
        6
    } else if w == "inc"@ {
        7
    } else if w == "ltd"@ {
        8
    } else if w == "corp"@ {
        9
    } else if w == "vs"@ {
        10
    } else if w == "etc"@ {
        11
    } else if w == "approx"@ {
        12
    } else if w == "dept"@ {
        13
    } else if w == "univ"@ {
        14
    } else if w == "assn"@ {
        15
    } else if w == "no"@ {
        16
    } else if w == "vol"@ {
        17
    } else if w == "fig"@ {
        18
    } else if w == "eq"@ {
        19
    } else if w == "al"@ {
        20
    } else if w == "e.g"@ {
        21
    } else if w == "i.e"@ {
        22
    } else if w == "a.m"@ {
        23
    } else {
        24
    }
}

/// Every abbreviation has at least two characters, each a lower-case ASCII
/// letter or a period, and a period only as its second character.
proof fn lemma_abbrev_shape(k: int)
    requires
        0 <= k < ABBREVIATION_COUNT,
    ensures
        abbrev_word_spec(k).len() >= 2,
        forall|i: int|
            0 <= i < abbrev_word_spec(k).len() ==> is_ascii_lower(#[trigger] abbrev_word_spec(k)[i])
                || (abbrev_word_spec(k)[i] == '.' && i == 1),
{
    reveal_strlit("dr");
    reveal_strlit("mr");
    reveal_strlit("mrs");
    reveal_strlit("ms");
    reveal_strlit("prof");
    reveal_strlit("sr");
    reveal_strlit("jr");
    reveal_strlit("inc");
    reveal_strlit("ltd");
    reveal_strlit("corp");
    reveal_strlit("vs");
    reveal_strlit("etc");
    reveal_strlit("approx");
    reveal_strlit("dept");
    reveal_strlit("univ");
    reveal_strlit("assn");
    reveal_strlit("no");
    reveal_strlit("vol");
    reveal_strlit("fig");
    reveal_strlit("eq");
    reveal_strlit("al");
    reveal_strlit("e.g");
    reveal_strlit("i.e");
    reveal_strlit("a.m");
    reveal_strlit("p.m");
}

proof fn lemma_abbrev_from_finds(s: Seq<char>, p: int, k: int, target: int)
    requires
        0 <= k <= target < ABBREVIATION_COUNT,
        word_matches_at(s, p, abbrev_word_spec(target)),
    ensures
        abbrev_from(s, p, k) matches Some(j) && k <= j <= target && word_matches_at(
            s,
            p,
            abbrev_word_spec(j),
        ),
    decreases target - k,
{
    if !word_matches_at(s, p, abbrev_word_spec(k)) {
        lemma_abbrev_from_finds(s, p, k + 1, target);
    }
}

/// Two abbreviations that both stand at `p` have the same length.
proof fn lemma_matching_abbrevs_same_length(s: Seq<char>, p: int, a: int, b: int)
    requires
        0 <= a < ABBREVIATION_COUNT,
        0 <= b < ABBREVIATION_COUNT,
        word_matches_at(s, p, abbrev_word_spec(a)),
        word_matches_at(s, p, abbrev_word_spec(b)),
    ensures
        abbrev_word_spec(a).len() == abbrev_word_spec(b).len(),
{
    let wa = abbrev_word_spec(a);
    let wb = abbrev_word_spec(b);
    lemma_abbrev_shape(a);
    lemma_abbrev_shape(b);
    if wa.len() < wb.len() {
        let i = wa.len() as int;
        assert(folds_to(s[p + i], wb[i]));
        assert(s[p + i] == '.');
        assert(is_ascii_lower(wb[i]) || (wb[i] == '.' && i == 1));
    } else if wb.len() < wa.len() {
        let i = wb.len() as int;
        assert(folds_to(s[p + i], wa[i]));
        assert(s[p + i] == '.');
        assert(is_ascii_lower(wa[i]) || (wa[i] == '.' && i == 1));
    }
}

/// Law: a period right after one of the common abbreviations (Dr, Mr, Mrs,
/// Ms, Prof, Sr, Jr, Inc, Ltd, Corp, vs, etc, approx, dept, univ, assn, No,
/// Vol, Fig, Eq, al, e.g, i.e, a.m, p.m, in any ASCII case) that begins a
/// word and is followed by white space never ends a sentence: the
/// abbreviation, its period and the white space are recognised together,
/// and the period is hidden from the splitter.
pub proof fn abbreviation_period_is_not_a_sentence_end(s: Seq<char>, p: int, w: Seq<char>)
    requires
        w == "dr"@ || w == "mr"@ || w == "mrs"@ || w == "ms"@ || w == "prof"@ || w == "sr"@ ||
            w == "jr"@ || w == "inc"@ || w == "ltd"@ || w == "corp"@ || w == "vs"@ ||
            w == "etc"@ || w == "approx"@ || w == "dept"@ || w == "univ"@ || w == "assn"@ ||
            w == "no"@ || w == "vol"@ || w == "fig"@ || w == "eq"@ || w == "al"@ || w == "e.g"@ ||
            w == "i.e"@ || w == "a.m"@ || w == "p.m"@,
        at_word_start(s, p),
        word_matches_at(s, p, w),
    ensures
        abbrev_len_at(s, p) == w.len() + 2,
        protect_from(s, p)[w.len() as int] == '\0',
        !is_end_punct(protect_from(s, p)[w.len() as int]),
{
    let k = lemma_listed_index(w);
    lemma_abbrev_from_finds(s, p, 0, k);
    let j = abbrev_from(s, p, 0)->0;
    lemma_matching_abbrevs_same_length(s, p, j, k);
    let l = w.len() + 2;
    assert(p < s.len());
    let head = s.subrange(p, p + l).map_values(|c: char| protect_char(c));
    assert(protect_from(s, p) == head + protect_from(s, p + l));
    assert(head[w.len() as int] == protect_char(s[p + w.len()]));
}

} // verus!
