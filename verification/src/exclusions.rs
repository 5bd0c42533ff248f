//! Per-program exceptions: whether a module is off for the foreground
//! program, and how a configured program name or path is compared with the
//! running process.
use vstd::prelude::*;

use crate::config::{ExceptionMode, ModuleId, ProgramException};
use crate::text::{
    chars_eq_str, chars_of, is_ascii_alpha, split_chars, split_on, str_eq, string_from_chars,
    to_lowercase, unicode_lowercase,
};

verus! {

/// The exception settings in force.
pub struct ExclusionsConfig {
    pub exception_mode: ExceptionMode,
    pub exceptions: Vec<ProgramException>,
}

impl ProgramException {
    /// `other` holds the same program, display name and module list.
    pub open spec fn same_as(self, other: ProgramException) -> bool {
        &&& self.program == other.program
        &&& self.display_name == other.display_name
        &&& self.modules is Some <==> other.modules is Some
        &&& self.modules is Some ==> self.modules->0@ == other.modules->0@
    }

    /// A copy of this exception.
    pub fn duplicate(&self) -> (res: ProgramException)
        ensures
            res.same_as(*self),
    {
        let modules = match &self.modules {
            Some(m) => {
                let mut v: Vec<ModuleId> = Vec::new();
                let mut i: usize = 0;
                while i < m.len()
                    invariant
                        i <= m.len(),
                        v@ == m@.take(i as int),
                    decreases m.len() - i,
                {
                    v.push(m[i]);
                    assert(m@.take(i + 1) =~= m@.take(i as int).push(m@[i as int]));
                    i += 1;
                }
                assert(m@.take(m.len() as int) =~= m@);
                Some(v)
            },
            None => None,
        };
        let display_name = match &self.display_name {
            Some(d) => Some(d.clone()),
            None => None,
        };
        ProgramException { program: self.program.clone(), display_name, modules }
    }
}

/// The settings in force after `configure(mode, exceptions)`.
pub fn configure(exception_mode: ExceptionMode, exceptions: &[ProgramException]) -> (res:
    ExclusionsConfig)
    ensures
        res.exception_mode == exception_mode,
        res.exceptions@.len() == exceptions@.len(),
        forall|i: int|
            0 <= i < exceptions@.len() ==> (#[trigger] res.exceptions@[i]).same_as(exceptions@[i]),
{
    let mut v: Vec<ProgramException> = Vec::new();
    let mut i: usize = 0;
    while i < exceptions.len()
        invariant
            i <= exceptions.len(),
            v@.len() == i,
            forall|k: int| 0 <= k < i ==> (#[trigger] v@[k]).same_as(exceptions@[k]),
        decreases exceptions.len() - i,
    {
        v.push(exceptions[i].duplicate());
        i += 1;
    }
    ExclusionsConfig { exception_mode, exceptions: v }
}

// ---------------------------------------------------------------------------
// File names of Windows paths
// ---------------------------------------------------------------------------

/// `/` read as `\`.
pub open spec fn unify_separators(s: Seq<char>) -> Seq<char> {
    s.map_values(|c: char| if c == '/' { '\\' } else { c })
}

/// A path separator: `\`, and in a path that is not verbatim also `/`.
pub open spec fn is_separator(c: char, verbatim: bool) -> bool {
    c == '\\' || (!verbatim && c == '/')
}

/// How many characters of `s` come before its first separator.
pub open spec fn component_len(s: Seq<char>, verbatim: bool) -> nat
    decreases s.len(),
{
    if s.len() == 0 || is_separator(s[0], verbatim) {
        0
    } else {
        1 + component_len(s.skip(1), verbatim)
    }
}

/// What follows the first component of `s` and the separator after it.
pub open spec fn after_component(s: Seq<char>, verbatim: bool) -> Seq<char> {
    let n = component_len(s, verbatim);
    if n < s.len() {
        s.skip(n + 1int)
    } else {
        Seq::empty()
    }
}

/// Whether `s` begins with a drive designator such as `C:`.
pub open spec fn has_drive(s: Seq<char>) -> bool {
    s.len() >= 2 && is_ascii_alpha(s[0]) && s[1] == ':'
}

/// A verbatim path: it begins with `\\?\`.
pub open spec fn is_verbatim(s: Seq<char>) -> bool {
    s.len() >= 4 && s[0] == '\\' && s[1] == '\\' && s[2] == '?' && s[3] == '\\'
}

/// A device path: it begins with `\\.\`, either separator allowed.
pub open spec fn is_device(s: Seq<char>) -> bool {
    s.len() >= 4 && is_separator(s[0], false) && is_separator(s[1], false) && s[2] == '.'
        && is_separator(s[3], false)
}

/// The length of the prefix of a verbatim path, after its `\\?\`: `UNC\`
/// with a server and a share, an exact drive `C:`, or one component.
pub open spec fn verbatim_prefix_len(r: Seq<char>) -> nat {
    if r.len() >= 4 && r[0] == 'U' && r[1] == 'N' && r[2] == 'C' && is_separator(r[3], false) {
        let server = component_len(r.skip(4), true);
        let share = component_len(after_component(r.skip(4), true), true);
        8 + server + if share > 0 {
            1 + share
        } else {
            0
        }
    } else if has_drive(r) && (r.len() == 2 || r[2] == '\\') {
        6
    } else {
        4 + component_len(r, true)
    }
}

/// The length of the prefix of a path that begins with two separators and
/// is neither verbatim nor a device: `\\server\share` when both are
/// named, else there is no prefix.
pub open spec fn unc_prefix_len(r: Seq<char>) -> nat {
    let server = component_len(r, false);
    let share = component_len(after_component(r, false), false);
    if server > 0 && share > 0 {
        2 + server + 1 + share
    } else {
        0
    }
}

/// The length of the prefix of a Windows path (`std::path::Prefix`):
/// verbatim (`\\?\..`), device (`\\.\name`), UNC (`\\server\share`) or
/// a drive (`C:`); 0 when it has none.
pub open spec fn prefix_len(s: Seq<char>) -> nat {
    if is_verbatim(s) {
        verbatim_prefix_len(s.skip(4))
    } else if is_device(s) {
        4 + component_len(s.skip(4), false)
    } else if s.len() >= 2 && is_separator(s[0], false) && is_separator(s[1], false) {
        unc_prefix_len(s.skip(2))
    } else if has_drive(s) {
        2
    } else {
        0
    }
}

/// The part of a path after its prefix, with `/` read as `\` unless the
/// path is verbatim.
pub open spec fn path_body(s: Seq<char>) -> Seq<char> {
    if is_verbatim(s) {
        s.skip(prefix_len(s) as int)
    } else {
        unify_separators(s.skip(prefix_len(s) as int))
    }
}

/// The last named component among `segs`: empty components are passed
/// over, and so is `.` unless the path is verbatim, where it names the
/// current directory; a final `..` or current directory names nothing.
pub open spec fn last_named(segs: Seq<Seq<char>>, verbatim: bool) -> Option<Seq<char>>
    decreases segs.len(),
{
    if segs.len() == 0 {
        None
    } else if segs.last().len() == 0 || (!verbatim && segs.last() == "."@) {
        last_named(segs.drop_last(), verbatim)
    } else if segs.last() == ".."@ || segs.last() == "."@ {
        None
    } else {
        Some(segs.last())
    }
}

/// The final component of a Windows path (`Path::file_name`): the prefix
/// (drive, UNC share, device or verbatim prefix) is not a component, and
/// components are separated by `\` or, unless the path is verbatim, `/`.
pub open spec fn file_name_spec(path: Seq<char>) -> Option<Seq<char>> {
    last_named(split_on(path_body(path), '\\'), is_verbatim(path))
}

/// What a configured program is compared by: the lower-cased file name,
/// or the whole text lower-cased when it names no file.
pub open spec fn program_key(configured: Seq<char>) -> Seq<char> {
    match file_name_spec(configured) {
        Some(n) => unicode_lowercase(n),
        None => unicode_lowercase(configured),
    }
}

/// Whether a configured program name or path denotes the process whose
/// lower-cased file name is `actual`.
pub open spec fn program_matches_spec(configured: Seq<char>, actual: Seq<char>) -> bool {
    program_key(configured) == actual
}

/// Whether exception `e` applies to `module`: an exception without a module
/// list applies to all modules.
pub open spec fn applies_to(e: ProgramException, module: ModuleId) -> bool {
    match e.modules {
        Some(m) => m@.contains(module),
        None => true,
    }
}

/// Whether some exception for `module` names the process `actual`.
pub open spec fn listed(exceptions: Seq<ProgramException>, module: ModuleId, actual: Seq<char>) -> bool {
    exists|i: int|
        0 <= i < exceptions.len() && applies_to(#[trigger] exceptions[i], module)
            && program_matches_spec(exceptions[i].program@, actual)
}

/// Whether `module` is off for the foreground process: never when the
/// process is unknown; when listed in blacklist mode; when not listed in
/// whitelist mode.
pub open spec fn module_excluded(
    config: ExclusionsConfig,
    module: ModuleId,
    process_name: Option<Seq<char>>,
) -> bool {
    match process_name {
        None => false,
        Some(p) => match config.exception_mode {
            ExceptionMode::Blacklist => listed(config.exceptions@, module, p),
            ExceptionMode::Whitelist => !listed(config.exceptions@, module, p),
        },
    }
}

proof fn lemma_component_len(s: Seq<char>, i: int, verbatim: bool)
    requires
        0 <= i <= s.len(),
        forall|k: int| 0 <= k < i ==> !is_separator(#[trigger] s[k], verbatim),
        i == s.len() || is_separator(s[i], verbatim),
    ensures
        component_len(s, verbatim) == i,
    decreases i,
{
    if i > 0 {
        let t = s.skip(1);
        assert forall|k: int| 0 <= k < i - 1 implies !is_separator(#[trigger] t[k], verbatim) by {
            assert(t[k] == s[k + 1]);
        }
        if i < s.len() {
            assert(t[i - 1] == s[i]);
        }
        lemma_component_len(t, i - 1, verbatim);
    }
}

fn separator_at(v: &Vec<char>, i: usize, verbatim: bool) -> (res: bool)
    requires
        i < v.len(),
    ensures
        res == is_separator(v@[i as int], verbatim),
{
    v[i] == '\\' || (!verbatim && v[i] == '/')
}

/// Where the component of `v` that starts at `from` ends.
fn component_end(v: &Vec<char>, from: usize, verbatim: bool) -> (res: usize)
    requires
        from <= v.len(),
    ensures
        from <= res <= v.len(),
        res - from == component_len(v@.skip(from as int), verbatim),
        res < v.len() ==> after_component(v@.skip(from as int), verbatim) =~= v@.skip(res + 1),
        res == v.len() ==> after_component(v@.skip(from as int), verbatim) =~= v@.skip(v.len() as int),
{
    let mut i: usize = from;
    while i < v.len() && !separator_at(v, i, verbatim)
        invariant
            from <= i <= v.len(),
            forall|k: int| from <= k < i ==> !is_separator(#[trigger] v@[k], verbatim),
        decreases v.len() - i,
    {
        i += 1;
    }
    proof {
        let t = v@.skip(from as int);
        assert forall|k: int| 0 <= k < i - from implies !is_separator(#[trigger] t[k], verbatim) by {
            assert(t[k] == v@[k + from]);
        }
        if i < v.len() {
            assert(t[i - from] == v@[i as int]);
        }
        lemma_component_len(t, i - from, verbatim);
    }
    i
}

/// Where the component of `v` after the one that ends at `end` starts.
fn next_start(v: &Vec<char>, end: usize) -> (res: usize)
    requires
        end <= v.len(),
    ensures
        res == (if end < v.len() { end + 1 } else { end as int }),
{
    if end < v.len() {
        end + 1
    } else {
        end
    }
}

/// The length of the prefix of the path `v`.
fn path_prefix_len(v: &Vec<char>) -> (res: usize)
    ensures
        res == prefix_len(v@),
        res <= v.len(),
{
    let n = v.len();
    let ghost s = v@;
    if n >= 4 && v[0] == '\\' && v[1] == '\\' && v[2] == '?' && v[3] == '\\' {
        let ghost r = s.skip(4);
        if n >= 8 && v[4] == 'U' && v[5] == 'N' && v[6] == 'C' && (v[7] == '\\' || v[7] == '/') {
            assert(r.skip(4) =~= s.skip(8));
            let server_end = component_end(v, 8, true);
            let share_start = next_start(v, server_end);
            let share_end = component_end(v, share_start, true);
            if share_end > share_start {
                share_end
            } else {
                server_end
            }
        } else if n >= 6 && (('a' <= v[4] && v[4] <= 'z') || ('A' <= v[4] && v[4] <= 'Z')) && v[5] == ':'
            && (n == 6 || v[6] == '\\') {
            6
        } else {
            let e = component_end(v, 4, true);
            e
        }
    } else if n >= 4 && separator_at(v, 0, false) && separator_at(v, 1, false) && v[2] == '.'
        && separator_at(v, 3, false) {
        component_end(v, 4, false)
    } else if n >= 2 && separator_at(v, 0, false) && separator_at(v, 1, false) {
        let server_end = component_end(v, 2, false);
        let share_start = next_start(v, server_end);
        let share_end = component_end(v, share_start, false);
        if server_end > 2 && share_end > share_start {
            share_end
        } else {
            0
        }
    } else if n >= 2 && (('a' <= v[0] && v[0] <= 'z') || ('A' <= v[0] && v[0] <= 'Z')) && v[1] == ':' {
        2
    } else {
        0
    }
}

/// The final component of a Windows path.
pub fn file_name(path: &str) -> (res: Option<String>)
    ensures
        match res {
            Some(n) => file_name_spec(path@) == Some(n@),
            None => file_name_spec(path@) is None,
        },
{
    let v = chars_of(path);
    let plen = path_prefix_len(&v);
    let verbatim = v.len() >= 4 && v[0] == '\\' && v[1] == '\\' && v[2] == '?' && v[3] == '\\';
    let ghost body = path_body(path@);
    assert(body.len() == v.len() - plen);
    let mut unified: Vec<char> = Vec::new();
    let mut i: usize = plen;
    while i < v.len()
        invariant
            plen <= i <= v.len(),
            v@ == path@,
            plen == prefix_len(path@),
            verbatim == is_verbatim(path@),
            body == path_body(path@),
            body.len() == v.len() - plen,
            unified@ == body.take(i - plen),
        decreases v.len() - i,
    {
        let c = if !verbatim && v[i] == '/' {
            '\\'
        } else {
            v[i]
        };
        assert(body[i - plen] == c);
        unified.push(c);
        assert(body.take(i - plen + 1) =~= body.take(i - plen).push(c));
        i += 1;
    }
    assert(body.take(v.len() - plen) =~= body);
    let segs = split_chars(unified.as_slice(), '\\');
    let ghost gsegs = split_on(body, '\\');
    assert(gsegs.take(gsegs.len() as int) =~= gsegs);
    let mut k: usize = segs.len();
    while k > 0
        invariant
            k <= segs@.len(),
            gsegs == split_on(path_body(path@), '\\'),
            verbatim == is_verbatim(path@),
            segs@.len() == gsegs.len(),
            forall|j: int| 0 <= j < segs@.len() ==> (#[trigger] segs@[j])@ == gsegs[j],
            last_named(gsegs.take(k as int), verbatim) == last_named(gsegs, verbatim),
        decreases k,
    {
        let ghost pre = gsegs.take(k as int);
        assert(pre.last() == gsegs[k - 1]);
        assert(pre.drop_last() =~= gsegs.take(k - 1));
        let seg = &segs[k - 1];
        let is_dot = chars_eq_str(seg.as_slice(), ".");
        if seg.len() == 0 || (!verbatim && is_dot) {
            k -= 1;
        } else if chars_eq_str(seg.as_slice(), "..") || is_dot {
            return None;
        } else {
            return Some(string_from_chars(seg.as_slice()));
        }
    }
    assert(gsegs.take(0) =~= Seq::<Seq<char>>::empty());
    None
}

/// The lower-cased file name of a path, if it names a file.
pub fn filename_lower(path: &str) -> (res: Option<String>)
    ensures
        match res {
            Some(n) => file_name_spec(path@) is Some && n@ == unicode_lowercase(
                file_name_spec(path@)->0,
            ),
            None => file_name_spec(path@) is None,
        },
{
    match file_name(path) {
        Some(n) => Some(to_lowercase(n.as_str())),
        None => None,
    }
}

pub fn same_process_name(configured: &str, actual: &str) -> (res: bool)
    ensures
        res == program_matches_spec(configured@, actual@),
{
    let key = match filename_lower(configured) {
        Some(n) => n,
        None => to_lowercase(configured),
    };
    str_eq(key.as_str(), actual)
}

/// Whether a configured program name or path matches the lower-cased file
/// name of the running process.
pub fn program_matches(configured: &str, actual: &str) -> (res: bool)
    ensures
        res == program_matches_spec(configured@, actual@),
{
    same_process_name(configured, actual)
}

#[verifier::loop_isolation(false)]
fn applies(e: &ProgramException, module: ModuleId) -> (res: bool)
    ensures
        res == applies_to(*e, module),
{
    match &e.modules {
        Some(m) => {
            let mut i: usize = 0;
            while i < m.len()
                invariant
                    i <= m.len(),
                    forall|j: int| 0 <= j < i ==> m@[j] != module,
                decreases m.len() - i,
            {
                if m[i] == module {
                    assert(m@[i as int] == module);
                    return true;
                }
                i += 1;
            }
            false
        },
        None => true,
    }
}

/// Whether `module` is off for the foreground process `process_name`
/// (its lower-cased file name).
pub fn is_module_excluded(config: &ExclusionsConfig, module: ModuleId, process_name: Option<&str>) -> (res:
    bool)
    ensures
        res == module_excluded(
            *config,
            module,
            match process_name {
                Some(p) => Some(p@),
                None => None,
            },
        ),
{
    let process_name = match process_name {
        Some(p) => p,
        None => {
            return false;
        },
    };
    let mut in_list = false;
    let mut i: usize = 0;
    while i < config.exceptions.len()
        invariant
            i <= config.exceptions@.len(),
            in_list == exists|j: int|
                0 <= j < i && applies_to(#[trigger] config.exceptions@[j], module)
                    && program_matches_spec(config.exceptions@[j].program@, process_name@),
        decreases config.exceptions@.len() - i,
    {
        let e = &config.exceptions[i];
        if applies(e, module) && same_process_name(e.program.as_str(), process_name) {
            in_list = true;
        }
        i += 1;
    }
    match config.exception_mode {
        ExceptionMode::Blacklist => in_list,
        ExceptionMode::Whitelist => !in_list,
    }
}

/// Law: for a known process, the whitelist mode excludes exactly where the
/// blacklist mode with the same list does not.
pub proof fn whitelist_is_complement_of_blacklist(
    exceptions: Vec<ProgramException>,
    module: ModuleId,
    process_name: Seq<char>,
)
    ensures
        module_excluded(
            ExclusionsConfig { exception_mode: ExceptionMode::Whitelist, exceptions },
            module,
            Some(process_name),
        ) == !module_excluded(
            ExclusionsConfig { exception_mode: ExceptionMode::Blacklist, exceptions },
            module,
            Some(process_name),
        ),
{
}

/// Law: with the settings that `configure(mode, exceptions)` puts in force,
/// a module is off for a known process exactly when, in blacklist mode, an
/// exception for the module names the process, or, in whitelist mode, none
/// does; it is never off for an unknown process.
pub proof fn configured_exclusion(
    config: ExclusionsConfig,
    mode: ExceptionMode,
    exceptions: Seq<ProgramException>,
    module: ModuleId,
    process_name: Option<Seq<char>>,
)
    requires
        config.exception_mode == mode,
        config.exceptions@.len() == exceptions.len(),
        forall|i: int| 0 <= i < exceptions.len() ==> (#[trigger] config.exceptions@[i]).same_as(exceptions[i]),
    ensures
        module_excluded(config, module, process_name) == match process_name {
            None => false,
            Some(p) => (mode == ExceptionMode::Whitelist) != listed(exceptions, module, p),
        },
{
    if let Some(p) = process_name {
        let kept = config.exceptions@;
        if listed(kept, module, p) {
            let i = choose|i: int|
                0 <= i < kept.len() && applies_to(#[trigger] kept[i], module)
                    && program_matches_spec(kept[i].program@, p);
            assert(kept[i].same_as(exceptions[i]));
            assert(applies_to(exceptions[i], module));
        }
        if listed(exceptions, module, p) {
            let i = choose|i: int|
                0 <= i < exceptions.len() && applies_to(#[trigger] exceptions[i], module)
                    && program_matches_spec(exceptions[i].program@, p);
            assert(kept[i].same_as(exceptions[i]));
            assert(applies_to(kept[i], module));
        }
    }
}

/// Law: when the foreground process is unknown, no module is off.
pub proof fn unknown_process_is_never_excluded(config: ExclusionsConfig, module: ModuleId)
    ensures
        !module_excluded(config, module, None),
{
}

impl Default for ExclusionsConfig {
    /// Blacklist mode with no exceptions: nothing is excluded.
    fn default() -> (res: Self)
        ensures
            res.exception_mode == ExceptionMode::Blacklist,
            res.exceptions@.len() == 0,
    {
        ExclusionsConfig { exception_mode: ExceptionMode::Blacklist, exceptions: Vec::new() }
    }
}

} // verus!
