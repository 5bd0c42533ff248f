//! The list of running programs offered for exceptions: which windows count,
//! the executable name of a process, one entry per executable, sorted.
use vstd::prelude::*;

use crate::engine::{
    lemma_seq_lt_asymmetric, lemma_seq_lt_total, lemma_seq_lt_transitive, seq_lt, str_lt,
};
use crate::text::{chars_of, split_chars, split_on, str_eq, string_from_chars, to_lowercase,
    unicode_lowercase};

verus! {

broadcast use vstd::seq_lib::group_to_multiset_ensures;

/// A running program: its lower-case executable name and the name it gives
/// itself (empty when it gives none).
#[derive(Debug, Clone, PartialEq, Eq)]
pub struct RunningProgram {
    pub exe_name: String,
    pub display_name: String,
}

impl RunningProgram {
    /// A copy of this entry.
    pub fn duplicate(&self) -> (res: RunningProgram)
        ensures
            res == *self,
    {
        RunningProgram { exe_name: self.exe_name.clone(), display_name: self.display_name.clone() }
    }
}

/// A window counts when it is visible, has a title, and belongs to a
/// process other than this one.
pub open spec fn window_listed_spec(visible: bool, title_len: i32, process_id: u32, current_process_id: u32) -> bool {
    visible && title_len != 0 && process_id != 0 && process_id != current_process_id
}

pub fn window_is_listed(visible: bool, title_len: i32, process_id: u32, current_process_id: u32) -> (res: bool)
    ensures
        res == window_listed_spec(visible, title_len, process_id, current_process_id),
{
    visible && title_len != 0 && process_id != 0 && process_id != current_process_id
}

/// The executable name of a full path: what follows its last backslash,
/// lower-cased.
pub open spec fn exe_name_spec(full_path: Seq<char>) -> Seq<char> {
    unicode_lowercase(split_on(full_path, '\\').last())
}

pub fn exe_name_of(full_path: &str) -> (res: String)
    ensures
        res@ == exe_name_spec(full_path@),
{
    let v = chars_of(full_path);
    let parts = split_chars(v.as_slice(), '\\');
    proof {
        crate::text::lemma_split_on_nonempty(v@, '\\');
    }
    let last = string_from_chars(parts[parts.len() - 1].as_slice());
    to_lowercase(last.as_str())
}

/// The programs found so far, by executable name (lower case) and full path;
/// the first path found for a name is kept.
pub struct ProgramSet {
    entries: Vec<(String, String)>,
}

pub open spec fn names_of(entries: Seq<(Seq<char>, Seq<char>)>) -> Seq<Seq<char>> {
    entries.map_values(|e: (Seq<char>, Seq<char>)| e.0)
}

impl ProgramSet {
    /// The (executable name, full path) entries, in the order found.
    pub closed spec fn view(&self) -> Seq<(Seq<char>, Seq<char>)> {
        self.entries@.map_values(|e: (String, String)| (e.0@, e.1@))
    }

    #[verifier::type_invariant]
    spec fn unique_names(&self) -> bool {
        ProgramSet::names_unique(self@)
    }

    /// No executable name occurs twice.
    pub open spec fn names_unique(entries: Seq<(Seq<char>, Seq<char>)>) -> bool {
        forall|i: int, j: int| 0 <= i < j < entries.len() ==> #[trigger] entries[i].0 != #[trigger] entries[j].0
    }

    pub fn new() -> (res: Self)
        ensures
            res@ == Seq::<(Seq<char>, Seq<char>)>::empty(),
    {
        let res = ProgramSet { entries: Vec::new() };
        assert(res@ =~= Seq::<(Seq<char>, Seq<char>)>::empty());
        res
    }

    fn position(&self, exe_name: &str) -> (res: Option<usize>)
        ensures
            match res {
                Some(i) => i < self@.len() && self@[i as int].0 == exe_name@,
                None => forall|i: int| 0 <= i < self@.len() ==> #[trigger] self@[i].0 != exe_name@,
            },
    {
        let mut i: usize = 0;
        while i < self.entries.len()
            invariant
                i <= self.entries@.len(),
                self@.len() == self.entries@.len(),
                forall|j: int| 0 <= j < i ==> #[trigger] self@[j].0 != exe_name@,
            decreases self.entries@.len() - i,
        {
            proof {
                assert(self@[i as int] == (self.entries@[i as int].0@, self.entries@[i as int].1@));
            }
            if str_eq(self.entries[i].0.as_str(), exe_name) {
                return Some(i);
            }
            i += 1;
        }
        None
    }

    /// Adds the process at `full_path`, unless a process with the same
    /// executable name is already there; says whether it was added.
    pub fn add(&mut self, full_path: String) -> (res: bool)
        ensures
            res == (forall|i: int| 0 <= i < old(self)@.len() ==> #[trigger] old(self)@[i].0 != exe_name_spec(full_path@)),
            res ==> final(self)@ == old(self)@.push((exe_name_spec(full_path@), full_path@)),
            !res ==> final(self)@ == old(self)@,
            ProgramSet::names_unique(final(self)@),
    {
        proof {
            use_type_invariant(&*self);
        }
        let exe_name = exe_name_of(full_path.as_str());
        match self.position(exe_name.as_str()) {
            Some(i) => false,
            None => {
                let ghost prev = self@;
                let ghost x = (exe_name_spec(full_path@), full_path@);
                let mut entries: Vec<(String, String)> = Vec::new();
                std::mem::swap(&mut entries, &mut self.entries);
                entries.push((exe_name, full_path));
                proof {
                    let nv = entries@.map_values(|e: (String, String)| (e.0@, e.1@));
                    assert(nv =~= prev.push(x));
                    assert forall|a: int, b: int| 0 <= a < b < nv.len() implies #[trigger] nv[a].0
                        != #[trigger] nv[b].0 by {
                        if b == prev.len() {
                            assert(prev[a].0 != x.0);
                        } else {
                            assert(nv[a] == prev[a] && nv[b] == prev[b]);
                        }
                    }
                }
                self.entries = entries;
                proof {
                    assert(self@ =~= prev.push(x));
                }
                true
            },
        }
    }

    /// The entries, in the order found.
    pub fn entries(&self) -> (res: &Vec<(String, String)>)
        ensures
            res@.map_values(|e: (String, String)| (e.0@, e.1@)) == self@,
            ProgramSet::names_unique(self@),
    {
        proof {
            use_type_invariant(self);
        }
        &self.entries
    }
}

/// Ordered by executable name, ties in any order.
pub open spec fn sorted_by_name(s: Seq<RunningProgram>) -> bool {
    forall|i: int, j: int| 0 <= i < j < s.len() ==> !seq_lt(#[trigger] s[j].exe_name@, #[trigger] s[i].exe_name@)
}

proof fn lemma_not_lt_transitive(x: Seq<char>, y: Seq<char>, z: Seq<char>)
    requires
        !seq_lt(y, x),
        !seq_lt(z, y),
    ensures
        !seq_lt(z, x),
{
    lemma_seq_lt_total(x, y);
    lemma_seq_lt_total(y, z);
    if seq_lt(z, x) {
        if x != y && y != z {
            lemma_seq_lt_transitive(x, y, z);
            lemma_seq_lt_asymmetric(x, z);
        }
    }
}

/// Inserts `p` into `list`, which is sorted by name, keeping it sorted.
fn insert_by_name(list: &mut Vec<RunningProgram>, p: RunningProgram)
    requires
        sorted_by_name(old(list)@),
    ensures
        sorted_by_name(final(list)@),
        final(list)@.to_multiset() == old(list)@.to_multiset().insert(p),
{
    let key = chars_of(p.exe_name.as_str());
    let ghost old_v = list@;
    let mut i: usize = 0;
    while i < list.len()
        invariant
            i <= list@.len(),
            key@ == p.exe_name@,
            old_v == list@,
            sorted_by_name(old_v),
            forall|j: int| 0 <= j < i ==> seq_lt(#[trigger] old_v[j].exe_name@, key@),
        ensures
            i <= list@.len(),
            old_v == list@,
            forall|j: int| 0 <= j < i ==> seq_lt(#[trigger] old_v[j].exe_name@, key@),
            i < list@.len() ==> !seq_lt(old_v[i as int].exe_name@, key@),
        decreases list@.len() - i,
    {
        let e = chars_of(list[i].exe_name.as_str());
        if !str_lt(e.as_slice(), key.as_slice()) {
            break;
        }
        i += 1;
    }
    let ghost gp = p;
    list.insert(i, p);
    proof {
        let nv = list@;
        assert(nv == old_v.insert(i as int, gp));
        assert forall|a: int, b: int| 0 <= a < b < nv.len() implies !seq_lt(#[trigger] nv[b].exe_name@, #[trigger] nv[a].exe_name@) by {
            if b < i {
            } else if a < i && b == i {
                lemma_seq_lt_asymmetric(old_v[a].exe_name@, gp.exe_name@);
            } else if a < i && b > i {
                assert(nv[b] == old_v[b - 1]);
            } else if a == i {
                assert(nv[b] == old_v[b - 1]);
                assert(!seq_lt(old_v[i as int].exe_name@, gp.exe_name@));
                if (b - 1) as int > i as int {
                    assert(!seq_lt(old_v[b - 1].exe_name@, old_v[i as int].exe_name@));
                    lemma_not_lt_transitive(gp.exe_name@, old_v[i as int].exe_name@, old_v[b - 1].exe_name@);
                }
            } else {
                assert(nv[a] == old_v[a - 1]);
                assert(nv[b] == old_v[b - 1]);
            }
        }
    }
}

/// The programs ordered by executable name.
pub fn sort_programs(programs: Vec<RunningProgram>) -> (res: Vec<RunningProgram>)
    ensures
        sorted_by_name(res@),
        res@.to_multiset() == programs@.to_multiset(),
{
    let mut rest = programs;
    let mut out: Vec<RunningProgram> = Vec::new();
    while rest.len() > 0
        invariant
            sorted_by_name(out@),
            out@.to_multiset().add(rest@.to_multiset()) == programs@.to_multiset(),
        decreases rest@.len(),
    {
        let ghost before = rest@;
        let p = rest.pop().unwrap();
        proof {
            assert(before == rest@.push(p));
        }
        let ghost gp = p;
        insert_by_name(&mut out, p);
        proof {
            assert(out@.to_multiset().add(rest@.to_multiset()) =~= programs@.to_multiset());
        }
    }
    proof {
        assert(rest@.to_multiset() =~= vstd::multiset::Multiset::<RunningProgram>::empty());
        assert(out@.to_multiset().add(rest@.to_multiset()) =~= out@.to_multiset());
    }
    out
}

// ---------------------------------------------------------------------------
// Version information of an executable
// ---------------------------------------------------------------------------

/// The version-information fields that name a program, in order of
/// preference.
pub const VERSION_FIELDS: [&'static str; 2] = ["FileDescription", "ProductName"];

/// The block that lists the translations present in the resource.
pub const TRANSLATION_BLOCK: &'static str = "\\VarFileInfo\\Translation\0";

/// The path of `field` in the string table `lang_cp`, NUL-terminated.
pub open spec fn string_block_spec(lang_cp: Seq<char>, field: Seq<char>) -> Seq<char> {
    seq!['\\'] + "StringFileInfo"@ + seq!['\\'] + lang_cp + seq!['\\'] + field + seq!['\0']
}

pub fn string_file_info_block(lang_cp: &str, field: &str) -> (res: String)
    ensures
        res@ == string_block_spec(lang_cp@, field@),
{
    let mut s = String::new();
    crate::text::push_char(&mut s, '\\');
    crate::text::push_str(&mut s, "StringFileInfo");
    crate::text::push_char(&mut s, '\\');
    crate::text::push_str(&mut s, lang_cp);
    crate::text::push_char(&mut s, '\\');
    crate::text::push_str(&mut s, field);
    crate::text::push_char(&mut s, '\0');
    proof {
        assert(s@ =~= string_block_spec(lang_cp@, field@));
    }
    s
}

/// An upper-case hexadecimal digit.
pub open spec fn hex_digit_spec(d: int) -> char {
    if d < 10 {
        (48 + d) as char
    } else {
        (55 + d) as char
    }
}

/// `v` as four upper-case hexadecimal digits (`{:04X}`).
pub open spec fn hex4_spec(v: u16) -> Seq<char> {
    seq![
        hex_digit_spec((v as int / 4096) % 16),
        hex_digit_spec((v as int / 256) % 16),
        hex_digit_spec((v as int / 16) % 16),
        hex_digit_spec(v as int % 16),
    ]
}

fn hex_digit(d: u16) -> (res: char)
    requires
        d < 16,
    ensures
        res == hex_digit_spec(d as int),
{
    if d < 10 {
        char_of_ascii(48 + d as u8)
    } else {
        char_of_ascii(55 + d as u8)
    }
}

fn char_of_ascii(b: u8) -> (res: char)
    requires
        b < 128,
    ensures
        res == b as char,
{
    b as char
}

pub fn hex4(v: u16) -> (res: String)
    ensures
        res@ == hex4_spec(v),
{
    let mut s = String::new();
    crate::text::push_char(&mut s, hex_digit((v / 4096) % 16));
    crate::text::push_char(&mut s, hex_digit((v / 256) % 16));
    crate::text::push_char(&mut s, hex_digit((v / 16) % 16));
    crate::text::push_char(&mut s, hex_digit(v % 16));
    proof {
        assert(s@ =~= hex4_spec(v));
    }
    s
}

/// The path of `field` in the string table of the translation `lang`,
/// `codepage` that the resource lists.
pub fn translation_string_block(lang: u16, codepage: u16, field: &str) -> (res: String)
    ensures
        res@ == string_block_spec(hex4_spec(lang) + hex4_spec(codepage), field@),
{
    let mut lang_cp = hex4(lang);
    crate::text::push_str(&mut lang_cp, hex4(codepage).as_str());
    string_file_info_block(lang_cp.as_str(), field)
}

/// The paths of `field` tried first, in order: in the string tables of US
/// English (Unicode, then Latin-1), Russian (Unicode) and the neutral
/// language (Unicode).
pub fn version_query_blocks(field: &str) -> (res: Vec<String>)
    ensures
        res@.len() == 4,
        res@[0]@ == string_block_spec("040904B0"@, field@),
        res@[1]@ == string_block_spec("040904E4"@, field@),
        res@[2]@ == string_block_spec("041904B0"@, field@),
        res@[3]@ == string_block_spec("000004B0"@, field@),
{
    let mut blocks: Vec<String> = Vec::new();
    blocks.push(string_file_info_block("040904B0", field));
    blocks.push(string_file_info_block("040904E4", field));
    blocks.push(string_file_info_block("041904B0", field));
    blocks.push(string_file_info_block("000004B0", field));
    blocks
}

/// The path of `field` in the first translation that the resource lists,
/// given the list as UTF-16 units (language, code page, ...); none when
/// the list holds no whole translation.
pub fn translation_query_block(translation: &[u16], field: &str) -> (res: Option<String>)
    ensures
        translation@.len() < 2 ==> res is None,
        translation@.len() >= 2 ==> res is Some && res->0@ == string_block_spec(
            hex4_spec(translation@[0]) + hex4_spec(translation@[1]),
            field@,
        ),
{
    if translation.len() < 2 {
        None
    } else {
        Some(translation_string_block(translation[0], translation[1], field))
    }
}

pub open spec fn is_high_surrogate(u: u16) -> bool {
    0xD800 <= u <= 0xDBFF
}

pub open spec fn is_low_surrogate(u: u16) -> bool {
    0xDC00 <= u <= 0xDFFF
}

/// UTF-16 decoded as `String::from_utf16_lossy` documents it: a high
/// surrogate followed by a low one is one character; any other surrogate
/// becomes U+FFFD; every other unit is its own character.
pub open spec fn utf16_lossy(units: Seq<u16>) -> Seq<char>
    decreases units.len(),
{
    if units.len() == 0 {
        Seq::empty()
    } else if units.len() >= 2 && is_high_surrogate(units[0]) && is_low_surrogate(units[1]) {
        seq![(0x10000 + (units[0] - 0xD800) * 0x400 + (units[1] - 0xDC00)) as char] + utf16_lossy(
            units.skip(2),
        )
    } else if is_high_surrogate(units[0]) || is_low_surrogate(units[0]) {
        seq!['\u{FFFD}'] + utf16_lossy(units.skip(1))
    } else {
        seq![units[0] as char] + utf16_lossy(units.skip(1))
    }
}

/// `String::from_utf16_lossy`: UTF-16 decoded, with U+FFFD in place of
/// each unpaired surrogate.
#[verifier::external_body]
fn from_utf16_lossy(units: &[u16]) -> (res: String)
    ensures
        res@ == utf16_lossy(units@),
{
    String::from_utf16_lossy(units)
}

/// `s` without trailing NUL characters.
pub open spec fn without_trailing_nuls(s: Seq<char>) -> Seq<char>
    decreases s.len(),
{
    if s.len() > 0 && s.last() == '\0' {
        without_trailing_nuls(s.drop_last())
    } else {
        s
    }
}

/// The text of a version-information value, read as UTF-16 units: decoded,
/// without trailing NULs; none when nothing is left.
pub fn version_text(units: &[u16]) -> (res: Option<String>)
    ensures
        without_trailing_nuls(utf16_lossy(units@)).len() == 0 ==> res is None,
        without_trailing_nuls(utf16_lossy(units@)).len() > 0 ==> (res is Some
            && res->0@ == without_trailing_nuls(utf16_lossy(units@))),
{
    let decoded = from_utf16_lossy(units);
    let v = chars_of(decoded.as_str());
    let mut k: usize = v.len();
    assert(v@.take(k as int) =~= v@);
    while k > 0 && v[k - 1] == '\0'
        invariant
            k <= v@.len(),
            without_trailing_nuls(v@) == without_trailing_nuls(v@.take(k as int)),
        decreases k,
    {
        assert(v@.take(k as int).drop_last() =~= v@.take(k - 1));
        k -= 1;
    }
    assert(without_trailing_nuls(v@.take(k as int)) == v@.take(k as int));
    if k == 0 {
        None
    } else {
        let mut kept = String::new();
        let mut i: usize = 0;
        while i < k
            invariant
                i <= k <= v@.len(),
                kept@ == v@.take(i as int),
            decreases k - i,
        {
            crate::text::push_char(&mut kept, v[i]);
            assert(v@.take(i + 1) =~= v@.take(i as int).push(v@[i as int]));
            i += 1;
        }
        Some(kept)
    }
}

} // verus!
