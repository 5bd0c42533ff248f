//! The translator's engine, apart from the neural models themselves: which
//! languages the loaded models cover, whether it is ready, what a request
//! needs, and how the translated sentences are put together.
use vstd::prelude::*;

use crate::protocol::{ErrorInfo, MAX_TEXT_LENGTH};
use crate::sbd::{sentences_spec, split_sentences};
use crate::text::{chars_of, concat, push_char, push_str, str_eq, string_from_chars, slice_skip};

verus! {

/// Lexicographic order of character sequences (the order of `String`).
pub open spec fn seq_lt(a: Seq<char>, b: Seq<char>) -> bool
    decreases a.len(),
{
    if a.len() == 0 {
        b.len() > 0
    } else if b.len() == 0 {
        false
    } else if a[0] != b[0] {
        a[0] < b[0]
    } else {
        seq_lt(a.drop_first(), b.drop_first())
    }
}

pub proof fn lemma_seq_lt_irreflexive(a: Seq<char>)
    ensures
        !seq_lt(a, a),
    decreases a.len(),
{
    if a.len() > 0 {
        lemma_seq_lt_irreflexive(a.drop_first());
    }
}

pub proof fn lemma_seq_lt_total(a: Seq<char>, b: Seq<char>)
    ensures
        a == b || seq_lt(a, b) || seq_lt(b, a),
    decreases a.len(),
{
    if a.len() > 0 && b.len() > 0 && a[0] == b[0] {
        lemma_seq_lt_total(a.drop_first(), b.drop_first());
        if a.drop_first() == b.drop_first() {
            assert(a =~= seq![a[0]] + a.drop_first());
            assert(b =~= seq![b[0]] + b.drop_first());
        }
    } else if a.len() == 0 && b.len() == 0 {
        assert(a =~= b);
    }
}

pub proof fn lemma_seq_lt_transitive(a: Seq<char>, b: Seq<char>, c: Seq<char>)
    requires
        seq_lt(a, b),
        seq_lt(b, c),
    ensures
        seq_lt(a, c),
    decreases a.len(),
{
    if a.len() > 0 && b.len() > 0 && c.len() > 0 && a[0] == b[0] && b[0] == c[0] {
        lemma_seq_lt_transitive(a.drop_first(), b.drop_first(), c.drop_first());
    }
}

pub proof fn lemma_seq_lt_asymmetric(a: Seq<char>, b: Seq<char>)
    requires
        seq_lt(a, b),
    ensures
        !seq_lt(b, a),
    decreases a.len(),
{
    if a.len() > 0 && b.len() > 0 && a[0] == b[0] {
        lemma_seq_lt_asymmetric(a.drop_first(), b.drop_first());
    }
}

/// `a` comes before `b`.
pub fn str_lt(a: &[char], b: &[char]) -> (res: bool)
    ensures
        res == seq_lt(a@, b@),
{
    let mut i: usize = 0;
    assert(a@.skip(0) =~= a@);
    assert(b@.skip(0) =~= b@);
    while i < a.len() && i < b.len()
        invariant
            i <= a.len(),
            i <= b.len(),
            forall|j: int| 0 <= j < i ==> a@[j] == b@[j],
            seq_lt(a@, b@) == seq_lt(a@.skip(i as int), b@.skip(i as int)),
        decreases a.len() - i,
    {
        if a[i] != b[i] {
            return a[i] < b[i];
        }
        assert(a@.skip(i as int).drop_first() =~= a@.skip(i + 1));
        assert(b@.skip(i as int).drop_first() =~= b@.skip(i + 1));
        i += 1;
    }
    i == a.len() && i < b.len()
}

/// Strictly increasing: sorted, no duplicates.
pub open spec fn strictly_sorted(s: Seq<Seq<char>>) -> bool {
    forall|i: int, j: int| 0 <= i < j < s.len() ==> seq_lt(#[trigger] s[i], #[trigger] s[j])
}

/// The language codes of the model pairs.
pub open spec fn codes_of(pairs: Seq<(Seq<char>, Seq<char>)>) -> Set<Seq<char>> {
    Set::new(|c: Seq<char>| exists|i: int| 0 <= i < pairs.len() && pair_has(#[trigger] pairs[i], c))
}

/// One of the two codes of `p` is `c`.
pub open spec fn pair_has(p: (Seq<char>, Seq<char>), c: Seq<char>) -> bool {
    p.0 == c || p.1 == c
}

pub open spec fn pair_views(pairs: Seq<(String, String)>) -> Seq<(Seq<char>, Seq<char>)> {
    pairs.map_values(|p: (String, String)| (p.0@, p.1@))
}

pub open spec fn string_views(v: Seq<String>) -> Seq<Seq<char>> {
    v.map_values(|s: String| s@)
}

/// Inserts `code` into a strictly sorted list, unless it is already there.
fn insert_sorted(list: &mut Vec<String>, code: &String)
    requires
        strictly_sorted(string_views(old(list)@)),
    ensures
        strictly_sorted(string_views(final(list)@)),
        string_views(final(list)@).to_set() == string_views(old(list)@).to_set().insert(code@),
{
    let c = chars_of(code.as_str());
    let ghost old_v = string_views(list@);
    let mut i: usize = 0;
    while i < list.len()
        invariant
            i <= list@.len(),
            c@ == code@,
            old_v == string_views(list@),
            strictly_sorted(old_v),
            forall|j: int| 0 <= j < i ==> seq_lt(#[trigger] old_v[j], c@),
        ensures
            i <= list@.len(),
            old_v == string_views(list@),
            forall|j: int| 0 <= j < i ==> seq_lt(#[trigger] old_v[j], c@),
            i < list@.len() ==> !seq_lt(old_v[i as int], c@),
        decreases list@.len() - i,
    {
        let e = chars_of(list[i].as_str());
        if !str_lt(e.as_slice(), c.as_slice()) {
            break;
        }
        i += 1;
    }
    if i < list.len() && str_eq(list[i].as_str(), code.as_str()) {
        proof {
            assert(old_v[i as int] == code@);
            assert(old_v.to_set().insert(code@) =~= old_v.to_set()) by {
                assert(old_v.contains(code@));
            }
        }
        return;
    }
    proof {
        if i < list@.len() {
            lemma_seq_lt_total(old_v[i as int], c@);
        }
    }
    list.insert(i, code.clone());
    proof {
        let nv = string_views(list@);
        assert(nv =~= old_v.insert(i as int, c@));
        assert forall|a: int, b: int| 0 <= a < b < nv.len() implies seq_lt(#[trigger] nv[a], #[trigger] nv[b]) by {
            if b < i {
            } else if a < i && b == i {
            } else if a < i && b > i {
                assert(nv[b] == old_v[b - 1]);
                assert(seq_lt(nv[a], c@));
                if (b - 1) as int != i as int {
                    assert(seq_lt(old_v[i as int], old_v[b - 1]));
                    lemma_seq_lt_transitive(c@, old_v[i as int], old_v[b - 1]);
                }
                lemma_seq_lt_transitive(nv[a], c@, nv[b]);
            } else if a == i {
                assert(nv[b] == old_v[b - 1]);
                if (b - 1) as int > i as int {
                    assert(seq_lt(old_v[i as int], old_v[b - 1]));
                    lemma_seq_lt_transitive(c@, old_v[i as int], old_v[b - 1]);
                }
            } else {
                assert(nv[a] == old_v[a - 1]);
                assert(nv[b] == old_v[b - 1]);
            }
        }
        assert(nv.to_set() =~= old_v.to_set().insert(c@)) by {
            assert forall|x: Seq<char>| nv.to_set().contains(x) <==> old_v.to_set().insert(c@).contains(x) by {
                if nv.contains(x) {
                    let k = choose|k: int| 0 <= k < nv.len() && nv[k] == x;
                    if k < i {
                        assert(old_v[k] == x);
                    } else if k > i {
                        assert(old_v[k - 1] == x);
                    }
                }
                if old_v.contains(x) {
                    let k = choose|k: int| 0 <= k < old_v.len() && old_v[k] == x;
                    if k < i {
                        assert(nv[k] == x);
                    } else {
                        assert(nv[k + 1] == x);
                    }
                }
                if x == c@ {
                    assert(nv[i as int] == x);
                }
            }
        }
    }
}

/// The language codes that the model pairs (source, target) cover, sorted
/// and without duplicates.
pub fn collect_languages(pairs: &[(String, String)]) -> (res: Vec<String>)
    ensures
        strictly_sorted(string_views(res@)),
        string_views(res@).to_set() == codes_of(pair_views(pairs@)),
{
    let mut list: Vec<String> = Vec::new();
    let mut i: usize = 0;
    while i < pairs.len()
        invariant
            i <= pairs@.len(),
            strictly_sorted(string_views(list@)),
            string_views(list@).to_set() == codes_of(pair_views(pairs@.take(i as int))),
        decreases pairs@.len() - i,
    {
        insert_sorted(&mut list, &pairs[i].0);
        insert_sorted(&mut list, &pairs[i].1);
        proof {
            let pv = pair_views(pairs@.take(i + 1));
            let pw = pair_views(pairs@.take(i as int));
            assert(codes_of(pv) =~= codes_of(pw).insert(pairs@[i as int].0@).insert(pairs@[i as int].1@)) by {
                assert forall|x: Seq<char>| codes_of(pv).contains(x) <==> codes_of(pw).insert(pairs@[i as int].0@).insert(pairs@[i as int].1@).contains(x) by {
                    if codes_of(pv).contains(x) {
                        let k = choose|k: int| 0 <= k < pv.len() && pair_has(#[trigger] pv[k], x);
                        assert(pv[k] == (pairs@[k].0@, pairs@[k].1@));
                        if k < i {
                            assert(pw[k] == (pairs@[k].0@, pairs@[k].1@));
                            assert(pair_has(pw[k], x));
                            assert(codes_of(pw).contains(x));
                        }
                    }
                    if codes_of(pw).contains(x) {
                        let k = choose|k: int| 0 <= k < pw.len() && pair_has(#[trigger] pw[k], x);
                        assert(pw[k] == (pairs@[k].0@, pairs@[k].1@));
                        assert(pv[k] == (pairs@[k].0@, pairs@[k].1@));
                        assert(pair_has(pv[k], x));
                        assert(codes_of(pv).contains(x));
                    }
                    if x == pairs@[i as int].0@ || x == pairs@[i as int].1@ {
                        assert(pv[i as int] == (pairs@[i as int].0@, pairs@[i as int].1@));
                        assert(pair_has(pv[i as int], x));
                        assert(codes_of(pv).contains(x));
                    }
                }
            }
        }
        i += 1;
    }
    assert(pairs@.take(pairs@.len() as int) =~= pairs@);
    list
}


/// Whether the pair `(a, b)` is in `list`.
fn contains_pair(list: &[(String, String)], a: &str, b: &str) -> (res: bool)
    ensures
        res == pair_views(list@).contains((a@, b@)),
{
    let mut i: usize = 0;
    while i < list.len()
        invariant
            i <= list@.len(),
            forall|j: int| 0 <= j < i ==> #[trigger] pair_views(list@)[j] != (a@, b@),
        decreases list@.len() - i,
    {
        proof {
            assert(pair_views(list@)[i as int] == (list@[i as int].0@, list@[i as int].1@));
        }
        if str_eq(list[i].0.as_str(), a) && str_eq(list[i].1.as_str(), b) {
            return true;
        }
        i += 1;
    }
    false
}

/// The covered codes depend only on which pairs there are.
proof fn lemma_codes_of_same_set(a: Seq<(Seq<char>, Seq<char>)>, b: Seq<(Seq<char>, Seq<char>)>)
    requires
        a.to_set() == b.to_set(),
    ensures
        codes_of(a) == codes_of(b),
{
    assert forall|c: Seq<char>| codes_of(a).contains(c) implies codes_of(b).contains(c) by {
        let i = choose|i: int| 0 <= i < a.len() && pair_has(#[trigger] a[i], c);
        assert(a.to_set().contains(a[i]));
        assert(b.contains(a[i]));
        let j = choose|j: int| 0 <= j < b.len() && b[j] == a[i];
        assert(pair_has(b[j], c));
    }
    assert forall|c: Seq<char>| codes_of(b).contains(c) implies codes_of(a).contains(c) by {
        let i = choose|i: int| 0 <= i < b.len() && pair_has(#[trigger] b[i], c);
        assert(b.to_set().contains(b[i]));
        assert(a.contains(b[i]));
        let j = choose|j: int| 0 <= j < a.len() && a[j] == b[i];
        assert(pair_has(a[j], c));
    }
    assert(codes_of(a) =~= codes_of(b));
}

/// The message when the package directory is missing.
pub open spec fn missing_dir_message(dir: Seq<char>) -> Seq<char> {
    "ARGOS_PACKAGES_DIR does not exist: "@ + dir
}

/// A translated piece without the one space the model may put before it.
pub open spec fn strip_leading_space(t: Seq<char>) -> Seq<char> {
    if t.len() > 0 && t[0] == ' ' {
        t.drop_first()
    } else {
        t
    }
}

/// The translated pieces, each stripped of one leading space, joined by
/// single spaces.
pub open spec fn joined(parts: Seq<Seq<char>>) -> Seq<char>
    decreases parts.len(),
{
    if parts.len() == 0 {
        Seq::empty()
    } else if parts.len() == 1 {
        strip_leading_space(parts[0])
    } else {
        joined(parts.drop_last()) + seq![' '] + strip_leading_space(parts.last())
    }
}

/// The loaded translation models, named by their (source, target) codes,
/// and the languages they cover.
pub struct Engine {
    pairs: Vec<(String, String)>,
    languages: Vec<String>,
}

impl Engine {
    /// The (source, target) codes of the loaded models.
    pub closed spec fn models(&self) -> Seq<(Seq<char>, Seq<char>)> {
        pair_views(self.pairs@)
    }

    /// The covered languages, as listed.
    pub closed spec fn language_list(&self) -> Seq<Seq<char>> {
        string_views(self.languages@)
    }

    #[verifier::type_invariant]
    spec fn wf(&self) -> bool {
        &&& pair_views(self.pairs@).no_duplicates()
        &&& strictly_sorted(string_views(self.languages@))
        &&& string_views(self.languages@).to_set() == codes_of(pair_views(self.pairs@))
    }

    /// A model translates `source` into `target`.
    pub open spec fn has_model_spec(&self, source: Seq<char>, target: Seq<char>) -> bool {
        exists|i: int| 0 <= i < self.models().len() && #[trigger] self.models()[i] == (source, target)
    }

    /// The engine over the models that loaded, given by their codes; a
    /// model named twice is kept once.
    pub fn from_models(pairs: Vec<(String, String)>) -> (res: Self)
        ensures
            res.models().no_duplicates(),
            res.models().to_set() == pair_views(pairs@).to_set(),
            strictly_sorted(res.language_list()),
            res.language_list().to_set() == codes_of(pair_views(pairs@)),
    {
        let mut unique: Vec<(String, String)> = Vec::new();
        let mut i: usize = 0;
        while i < pairs.len()
            invariant
                i <= pairs@.len(),
                pair_views(unique@).no_duplicates(),
                pair_views(unique@).to_set() == pair_views(pairs@.take(i as int)).to_set(),
            decreases pairs@.len() - i,
        {
            let present = contains_pair(unique.as_slice(), pairs[i].0.as_str(), pairs[i].1.as_str());
            let ghost before = pair_views(unique@);
            let ghost x = (pairs@[i as int].0@, pairs@[i as int].1@);
            proof {
                assert(pair_views(pairs@.take(i + 1)) =~= pair_views(pairs@.take(i as int)).push(x));
            }
            if !present {
                let a = pairs[i].0.clone();
                let b = pairs[i].1.clone();
                unique.push((a, b));
                proof {
                    assert(pair_views(unique@) =~= before.push(x));
                    before.lemma_push_to_set_commute(x);
                    pair_views(pairs@.take(i as int)).lemma_push_to_set_commute(x);
                    assert(pair_views(unique@).to_set() =~= before.to_set().insert(x));
                    assert(pair_views(pairs@.take(i + 1)).to_set() =~= pair_views(pairs@.take(i as int)).to_set().insert(x));
                }
            } else {
                proof {
                    pair_views(pairs@.take(i as int)).lemma_push_to_set_commute(x);
                    assert(before.contains(x));
                    assert(before.to_set().contains(x));
                    assert(pair_views(pairs@.take(i + 1)).to_set() =~= pair_views(pairs@.take(i as int)).to_set().insert(x));
                    assert(before.to_set().insert(x) =~= before.to_set());
                }
            }
            i += 1;
        }
        proof {
            assert(pairs@.take(pairs@.len() as int) =~= pairs@);
            lemma_codes_of_same_set(pair_views(unique@), pair_views(pairs@));
        }
        let languages = collect_languages(unique.as_slice());
        Engine { pairs: unique, languages }
    }

    /// Loads the engine from the package directory `packages_dir`: an error
    /// when the directory does not exist or could not be listed (`listing`
    /// holds the listing's error), else the engine over the models that
    /// loaded from it.
    pub fn load(
        packages_dir: &str,
        dir_exists: bool,
        listing: Result<Vec<(String, String)>, String>,
    ) -> (res: Result<Self, String>)
        ensures
            !dir_exists ==> (res matches Err(e) && e@ == missing_dir_message(packages_dir@)),
            dir_exists && listing is Err ==> (res matches Err(e) && e@ == "Failed to read packages dir: "@
                + listing->Err_0@),
            dir_exists && listing is Ok ==> (res matches Ok(engine)
                && engine.models().no_duplicates()
                && engine.models().to_set() == pair_views(listing->Ok_0@).to_set()
                && strictly_sorted(engine.language_list())
                && engine.language_list().to_set() == codes_of(pair_views(listing->Ok_0@))),
    {
        if !dir_exists {
            return Err(concat("ARGOS_PACKAGES_DIR does not exist: ", packages_dir));
        }
        match listing {
            Err(e) => Err(concat("Failed to read packages dir: ", e.as_str())),
            Ok(loaded) => Ok(Self::from_models(loaded)),
        }
    }

    /// The covered languages, sorted, each once.
    pub fn languages(&self) -> (res: &[String])
        ensures
            string_views(res@) == self.language_list(),
            strictly_sorted(string_views(res@)),
            string_views(res@).to_set() == codes_of(self.models()),
    {
        proof {
            use_type_invariant(self);
        }
        self.languages.as_slice()
    }

    /// Whether `code` is among the covered languages.
    fn covers(&self, code: &str) -> (res: bool)
        ensures
            res == self.language_list().contains(code@),
    {
        let mut i: usize = 0;
        while i < self.languages.len()
            invariant
                i <= self.languages@.len(),
                forall|j: int| 0 <= j < i ==> (#[trigger] self.languages@[j])@ != code@,
            decreases self.languages@.len() - i,
        {
            if str_eq(self.languages[i].as_str(), code) {
                proof {
                    assert(self.language_list()[i as int] == code@);
                }
                return true;
            }
            i += 1;
        }
        proof {
            if self.language_list().contains(code@) {
                let k = choose|k: int| 0 <= k < self.language_list().len() && self.language_list()[k] == code@;
                assert((self.languages@[k])@ == code@);
            }
        }
        false
    }

    /// Ready: both English and Russian are covered.
    pub fn is_ready(&self) -> (res: bool)
        ensures
            res == (codes_of(self.models()).contains("en"@) && codes_of(self.models()).contains("ru"@)),
    {
        proof {
            use_type_invariant(self);
        }
        let en = self.covers("en");
        let ru = self.covers("ru");
        en && ru
    }

    /// Whether a model translates `source` into `target`.
    pub fn has_model(&self, source: &str, target: &str) -> (res: bool)
        ensures
            res == self.has_model_spec(source@, target@),
    {
        let mut i: usize = 0;
        while i < self.pairs.len()
            invariant
                i <= self.pairs@.len(),
                forall|j: int| 0 <= j < i ==> #[trigger] self.models()[j] != (source@, target@),
            decreases self.pairs@.len() - i,
        {
            let same = str_eq(self.pairs[i].0.as_str(), source) && str_eq(self.pairs[i].1.as_str(), target);
            proof {
                assert(self.models()[i as int] == (self.pairs@[i as int].0@, self.pairs@[i as int].1@));
            }
            if same {
                return true;
            }
            i += 1;
        }
        false
    }

    /// What a translation of `text` from `source` into `target` hands to the
    /// model: its sentences. Refused when the text has more than
    /// `MAX_TEXT_LENGTH` bytes, then when no model covers the pair.
    pub fn prepare_translation(&self, text: &str, source: &str, target: &str) -> (res: Result<Vec<String>, ErrorInfo>)
        ensures
            text.len() > MAX_TEXT_LENGTH ==> (res matches Err(e)
                && e.is_text_too_long(text.len() as nat)),
            text.len() <= MAX_TEXT_LENGTH && !self.has_model_spec(source@, target@)
                ==> (res matches Err(e) && e.is_model_not_found(source@, target@)),
            text.len() <= MAX_TEXT_LENGTH && self.has_model_spec(source@, target@)
                ==> (res matches Ok(v) && string_views(v@) == sentences_spec(text@)),
    {
        let len = text.len();
        if len > MAX_TEXT_LENGTH {
            return Err(ErrorInfo::text_too_long(len));
        }
        if !self.has_model(source, target) {
            return Err(ErrorInfo::model_not_found(source, target));
        }
        let sentences = split_sentences(text);
        proof {
            assert(string_views(sentences@) =~= sentences_spec(text@));
        }
        Ok(sentences)
    }

    /// The answer for a translation, given what the model gave back for the
    /// sentences: its error message, or the translated pieces joined.
    pub fn finish_translation(outcome: Result<Vec<String>, String>) -> (res: Result<String, ErrorInfo>)
        ensures
            outcome matches Err(m) ==> (res matches Err(e) && e.is_translation_error(m@)),
            outcome matches Ok(parts) ==> (res matches Ok(t) && t@ == joined(string_views(parts@))),
    {
        match outcome {
            Err(m) => Err(ErrorInfo::translation_error(m.as_str())),
            Ok(parts) => Ok(join_translations(parts.as_slice())),
        }
    }
}

/// Joins translated pieces: each loses one leading space, and single spaces
/// go between them.
pub fn join_translations(parts: &[String]) -> (res: String)
    ensures
        res@ == joined(string_views(parts@)),
{
    let mut out = String::new();
    let mut i: usize = 0;
    while i < parts.len()
        invariant
            i <= parts@.len(),
            out@ == joined(string_views(parts@.take(i as int))),
        decreases parts@.len() - i,
    {
        let v = chars_of(parts[i].as_str());
        let piece = if v.len() > 0 && v[0] == ' ' {
            string_from_chars(slice_skip(v.as_slice(), 1).as_slice())
        } else {
            string_from_chars(v.as_slice())
        };
        if i > 0 {
            push_char(&mut out, ' ');
        }
        push_str(&mut out, piece.as_str());
        proof {
            let prev = string_views(parts@.take(i as int));
            let next = string_views(parts@.take(i + 1));
            assert(next.drop_last() =~= prev);
            assert(next.last() == parts@[i as int]@);
            assert(piece@ == strip_leading_space(parts@[i as int]@)) by {
                if v@.len() > 0 && v@[0] == ' ' {
                    assert(v@.skip(1) =~= v@.drop_first());
                }
            }
            if i == 0 {
                assert(prev.len() == 0);
                assert(joined(prev) =~= Seq::<char>::empty());
                assert(out@ =~= joined(next));
            } else {
                assert(out@ =~= joined(prev) + seq![' '] + piece@);
            }
        }
        i += 1;
    }
    assert(parts@.take(parts@.len() as int) =~= parts@);
    out
}

} // verus!
