//! Readers for git's machine-readable output: `.gitmodules` path entries,
//! `git --version`, and `git worktree list --porcelain`.
use vstd::prelude::*;

use crate::config::opt_text;
use crate::text::{
    char_is_digit, char_is_space, concat3, is_digit, is_space, lines_of, split_at_char,
    split_lines, split_on, split_once, strip_prefix, strip_suffix, substring, text_split_once,
    text_starts_with, text_strip_prefix, text_strip_suffix, to_chars,
};

verus! {

// ---------------------------------------------------------------------------
// `git config --file .gitmodules --get-regexp 'submodule\..*\.path'`
// ---------------------------------------------------------------------------

/// The `(name, path)` of a line `submodule.<name>.path <path>`, if the line
/// has that shape.
pub open spec fn submodule_entry(line: Seq<char>) -> Option<(Seq<char>, Seq<char>)> {
    match split_once(line, ' ') {
        None => None,
        Some((key, path)) => match strip_prefix(key, "submodule."@) {
            None => None,
            Some(rest) => match strip_suffix(rest, ".path"@) {
                None => None,
                Some(name) => Some((name, path)),
            },
        },
    }
}

/// The entries of the lines that have the shape, in order.
pub open spec fn submodule_entries(lines: Seq<Seq<char>>) -> Seq<(Seq<char>, Seq<char>)>
    decreases lines.len(),
{
    if lines.len() == 0 {
        Seq::empty()
    } else {
        let earlier = submodule_entries(lines.drop_last());
        match submodule_entry(lines.last()) {
            Some(e) => earlier.push(e),
            None => earlier,
        }
    }
}

pub open spec fn pairs_view(v: Seq<(String, String)>) -> Seq<(Seq<char>, Seq<char>)> {
    v.map_values(|e: (String, String)| (e.0@, e.1@))
}

fn parse_submodule_line(line: &str) -> (r: Option<(String, String)>)
    ensures
        match r {
            Some((a, b)) => submodule_entry(line@) == Some((a@, b@)),
            None => submodule_entry(line@) is None,
        },
{
    let (key, path) = match text_split_once(line, ' ') {
        Some(kp) => kp,
        None => return None,
    };
    let rest = match text_strip_prefix(key.as_str(), "submodule.") {
        Some(r) => r,
        None => return None,
    };
    let name = match text_strip_suffix(rest.as_str(), ".path") {
        Some(n) => n,
        None => return None,
    };
    Some((name, path))
}

/// The `(name, path)` pairs of the submodules that `.gitmodules` declares,
/// from the output of `git config --file .gitmodules --get-regexp
/// 'submodule\..*\.path'`; lines of another shape are ignored.
pub fn parse_submodule_entries(output: &str) -> (r: Vec<(String, String)>)
    ensures
        pairs_view(r@) == submodule_entries(lines_of(output@)),
{
    let lines = split_lines(output);
    let ghost lv = lines.deep_view();
    let mut r: Vec<(String, String)> = Vec::new();
    let n = lines.len();
    for i in 0..n
        invariant
            n == lines.len(),
            lv == lines.deep_view(),
            lv == lines_of(output@),
            pairs_view(r@) == submodule_entries(lv.take(i as int)),
    {
        proof {
            assert(lv.take(i + 1).drop_last() =~= lv.take(i as int));
        }
        match parse_submodule_line(lines[i].as_str()) {
            Some(e) => {
                r.push(e);
                proof {
                    assert(pairs_view(r@) =~= submodule_entries(lv.take(i as int)).push(
                        submodule_entry(lv[i as int])->Some_0,
                    ));
                }
            },
            None => {},
        }
    }
    proof {
        assert(lv.take(n as int) =~= lv);
    }
    r
}

// ---------------------------------------------------------------------------
// `git --version`
// ---------------------------------------------------------------------------

/// The whitespace-separated words of `s`, as a left-to-right scan: the words
/// finished so far and the word being read.
pub open spec fn words_scan(s: Seq<char>) -> (Seq<Seq<char>>, Seq<char>)
    decreases s.len(),
{
    if s.len() == 0 {
        (Seq::empty(), Seq::empty())
    } else {
        let (done, cur) = words_scan(s.drop_last());
        if is_space(s.last()) {
            if cur.len() > 0 {
                (done.push(cur), Seq::empty())
            } else {
                (done, cur)
            }
        } else {
            (done, cur.push(s.last()))
        }
    }
}

/// The words of `s`, as `str::split_whitespace` gives them.
pub open spec fn words_of(s: Seq<char>) -> Seq<Seq<char>> {
    let (done, cur) = words_scan(s);
    if cur.len() > 0 {
        done.push(cur)
    } else {
        done
    }
}

/// The first of `words` that begins with an ASCII digit.
pub open spec fn first_numeric(words: Seq<Seq<char>>) -> Option<Seq<char>>
    decreases words.len(),
{
    if words.len() == 0 {
        None
    } else if words[0].len() > 0 && is_digit(words[0][0]) {
        Some(words[0])
    } else {
        first_numeric(words.drop_first())
    }
}

/// The value of a string of ASCII digits.
pub open spec fn digits_value(d: Seq<char>) -> nat
    decreases d.len(),
{
    if d.len() == 0 {
        0
    } else {
        digits_value(d.drop_last()) * 10 + crate::text::digit_value(d.last())
    }
}

/// The digits of an unsigned number: the text after an optional `+`.
pub open spec fn unsigned_digits(s: Seq<char>) -> Seq<char> {
    if s.len() > 0 && s[0] == '+' {
        s.skip(1)
    } else {
        s
    }
}

pub open spec fn all_digits(d: Seq<char>) -> bool {
    forall|i: int| 0 <= i < d.len() ==> is_digit(#[trigger] d[i])
}

/// `u32`'s `FromStr`: an optional `+`, then one or more ASCII digits whose
/// value fits in 32 bits.
pub open spec fn parse_u32(s: Seq<char>) -> Option<u32> {
    let d = unsigned_digits(s);
    if d.len() > 0 && all_digits(d) && digits_value(d) <= u32::MAX {
        Some(digits_value(d) as u32)
    } else {
        None
    }
}

/// The `(major, minor)` version in `git --version` output: the first word
/// that begins with a digit, split at dots; the major number must parse, a
/// missing or malformed minor number counts as 0.
pub open spec fn git_version_of(output: Seq<char>) -> Option<(u32, u32)> {
    match first_numeric(words_of(output)) {
        None => None,
        Some(w) => {
            let parts = split_on(w, '.');
            match parse_u32(parts[0]) {
                None => None,
                Some(major) => {
                    let minor = if parts.len() > 1 {
                        match parse_u32(parts[1]) {
                            Some(m) => m,
                            None => 0,
                        }
                    } else {
                        0
                    };
                    Some((major, minor))
                },
            }
        },
    }
}

/// `u32::from_str`.
pub fn parse_decimal_u32(s: &str) -> (r: Option<u32>)
    ensures
        r == parse_u32(s@),
{
    let v = to_chars(s);
    let start: usize = if v.len() > 0 && v[0] == '+' { 1 } else { 0 };
    let ghost d = unsigned_digits(s@);
    if start >= v.len() {
        proof {
            assert(d.len() == 0);
        }
        return None;
    }
    let mut value: u64 = 0;
    let n = v.len();
    let mut i = start;
    while i < n
        invariant
            n == v@.len(),
            v@ == s@,
            start <= i <= n,
            start == 0 || start == 1,
            d == v@.skip(start as int),
            d == unsigned_digits(s@),
            forall|j: int| 0 <= j < i - start ==> is_digit(#[trigger] d[j]),
            value == digits_value(d.take(i - start)),
            value <= u32::MAX,
        decreases n - i,
    {
        let c = v[i];
        if !char_is_digit(c) {
            proof {
                assert(d[i - start] == c);
                assert(!is_digit(d[i - start]));
                assert(!all_digits(d));
            }
            return None;
        }
        let digit = (c as u32 - '0' as u32) as u64;
        proof {
            assert(d.take(i - start + 1).drop_last() =~= d.take(i - start));
            assert(d.take(i - start + 1).last() == c);
            assert(digit == crate::text::digit_value(c));
        }
        value = value * 10 + digit;
        assert(value == digits_value(d.take(i - start + 1)));
        if value > 4294967295u64 {
            proof {
                lemma_digits_value_monotone(d, i - start + 1);
            }
            return None;
        }
        i = i + 1;
    }
    proof {
        assert(d.take(n - start) =~= d);
    }
    Some(value as u32)
}

/// A longer prefix of digits is worth at least as much.
proof fn lemma_digits_value_monotone(d: Seq<char>, k: int)
    requires
        0 <= k <= d.len(),
    ensures
        digits_value(d.take(k)) <= digits_value(d),
    decreases d.len(),
{
    if k < d.len() {
        assert(d.drop_last().take(k) =~= d.take(k));
        lemma_digits_value_monotone(d.drop_last(), k);
    } else {
        assert(d.take(k) =~= d);
    }
}

/// The words of `s`, as `str::split_whitespace` gives them.
pub fn split_words(s: &str) -> (r: Vec<String>)
    ensures
        r.deep_view() == words_of(s@),
{
    let v = to_chars(s);
    let n = v.len();
    let mut words: Vec<String> = Vec::new();
    let mut start: usize = 0;
    for i in 0..n
        invariant
            n == v@.len(),
            v@ == s@,
            start <= i,
            words.deep_view() == words_scan(s@.take(i as int)).0,
            s@.subrange(start as int, i as int) == words_scan(s@.take(i as int)).1,
    {
        proof {
            assert(s@.take(i + 1).drop_last() =~= s@.take(i as int));
        }
        if char_is_space(v[i]) {
            if start < i {
                let w = substring(s, start, i);
                words.push(w);
                proof {
                    assert(words.deep_view() =~= words_scan(s@.take(i + 1)).0);
                }
            }
            start = i + 1;
            proof {
                assert(s@.subrange(start as int, i + 1) =~= Seq::<char>::empty());
            }
        } else {
            proof {
                assert(s@.subrange(start as int, i + 1) =~= s@.subrange(start as int, i as int).push(v@[i as int]));
            }
        }
    }
    proof {
        assert(s@.take(n as int) =~= s@);
    }
    if start < n {
        let w = substring(s, start, n);
        words.push(w);
        proof {
            assert(words.deep_view() =~= words_of(s@));
        }
    }
    words
}

/// The installed git's `(major, minor)` version, from `git --version` output
/// such as `git version 2.43.0` or `git version 2.39.3 (Apple Git-145)`.
pub fn parse_git_version(output: &str) -> (r: Option<(u32, u32)>)
    ensures
        r == git_version_of(output@),
{
    let words = split_words(output);
    let ghost wv = words.deep_view();
    let n = words.len();
    let mut i: usize = 0;
    proof {
        assert(wv.skip(0) =~= wv);
    }
    while i < n
        invariant
            n == words.len(),
            wv == words.deep_view(),
            wv == words_of(output@),
            i <= n,
            first_numeric(wv) == first_numeric(wv.skip(i as int)),
        decreases n - i,
    {
        let chars = to_chars(words[i].as_str());
        proof {
            assert(wv.skip(i as int)[0] == wv[i as int]);
            assert(wv.skip(i as int).drop_first() =~= wv.skip(i + 1));
        }
        if chars.len() > 0 && char_is_digit(chars[0]) {
            let parts = split_at_char(words[i].as_str(), '.');
            let major = match parse_decimal_u32(parts[0].as_str()) {
                Some(m) => m,
                None => return None,
            };
            let minor = if parts.len() > 1 {
                match parse_decimal_u32(parts[1].as_str()) {
                    Some(m) => m,
                    None => 0,
                }
            } else {
                0
            };
            return Some((major, minor));
        }
        i = i + 1;
    }
    proof {
        assert(wv.skip(n as int) =~= Seq::<Seq<char>>::empty());
    }
    None
}

// ---------------------------------------------------------------------------
// `git worktree list --porcelain`
// ---------------------------------------------------------------------------

/// The number of bytes UTF-8 takes for `c`.
pub open spec fn utf8_width(c: char) -> nat {
    if (c as u32) < 0x80 {
        1
    } else if (c as u32) < 0x800 {
        2
    } else if (c as u32) < 0x10000 {
        3
    } else {
        4
    }
}

/// The leading characters of `s` whose UTF-8 encoding fits in `budget` bytes.
pub open spec fn fitting_chars(s: Seq<char>, budget: nat) -> nat
    decreases s.len(),
{
    if s.len() == 0 || utf8_width(s[0]) > budget {
        0
    } else {
        1 + fitting_chars(s.drop_first(), (budget - utf8_width(s[0])) as nat)
    }
}

/// The abbreviated commit id of a detached worktree: the first 8 bytes of the
/// id (all of it when shorter). Where the 8th byte falls inside a multi-byte
/// character, only the characters that fit are kept.
pub open spec fn short_id(id: Seq<char>) -> Seq<char> {
    id.take(fitting_chars(id, 8) as int)
}

pub fn short_commit_id(id: &str) -> (r: String)
    ensures
        r@ == short_id(id@),
{
    let v = to_chars(id);
    let n = v.len();
    let mut i: usize = 0;
    let mut budget: u32 = 8;
    proof {
        assert(v@.skip(0) =~= v@);
    }
    while i < n
        invariant
            n == v@.len(),
            v@ == id@,
            i <= n,
            budget <= 8,
            fitting_chars(id@, 8) == i + fitting_chars(id@.skip(i as int), budget as nat),
        ensures
            i <= n,
            fitting_chars(id@, 8) == i,
        decreases n - i,
    {
        let c = v[i];
        let cp = c as u32;
        let width: u32 = if cp < 0x80 {
            1
        } else if cp < 0x800 {
            2
        } else if cp < 0x10000 {
            3
        } else {
            4
        };
        proof {
            assert(id@.skip(i as int)[0] == c);
            assert(width == utf8_width(c));
            assert(id@.skip(i as int).drop_first() =~= id@.skip(i + 1));
        }
        if width > budget {
            break;
        }
        assert(fitting_chars(id@.skip(i as int), budget as nat) == 1 + fitting_chars(id@.skip(i + 1), (budget - width) as nat));
        budget = budget - width;
        i = i + 1;
    }
    substring(id, 0, i)
}

/// What has been read of the listing: the worktrees finished so far, the
/// path of the one being read, and its branch.
pub open spec fn worktree_scan(lines: Seq<Seq<char>>) -> (Seq<(Seq<char>, Seq<char>)>, Option<Seq<char>>, Seq<char>)
    decreases lines.len(),
{
    if lines.len() == 0 {
        (Seq::empty(), None, Seq::empty())
    } else {
        worktree_step(worktree_scan(lines.drop_last()), lines.last())
    }
}

/// One line of the listing: `worktree <path>` starts an entry, `branch
/// refs/heads/<b>` names its branch, `HEAD <id>` names a detached commit
/// unless a branch is already known, and a blank line ends the entry.
pub open spec fn worktree_step(
    st: (Seq<(Seq<char>, Seq<char>)>, Option<Seq<char>>, Seq<char>),
    line: Seq<char>,
) -> (Seq<(Seq<char>, Seq<char>)>, Option<Seq<char>>, Seq<char>) {
    let (done, path, branch) = st;
    match strip_prefix(line, "worktree "@) {
        Some(p) => (done, Some(p), Seq::empty()),
        None => match strip_prefix(line, "branch refs/heads/"@) {
            Some(b) => (done, path, b),
            None => if "HEAD "@.is_prefix_of(line) {
                if branch.len() == 0 {
                    (done, path, "(detached "@ + short_id(line.skip(("HEAD "@).len() as int)) + ")"@)
                } else {
                    st
                }
            } else if line.len() == 0 {
                match path {
                    Some(p) => (done.push((p, branch)), None, Seq::empty()),
                    None => st,
                }
            } else {
                st
            },
        },
    }
}

/// The `(path, branch)` of every worktree in the listing.
pub open spec fn worktrees_of(output: Seq<char>) -> Seq<(Seq<char>, Seq<char>)> {
    let (done, path, branch) = worktree_scan(lines_of(output));
    match path {
        Some(p) => done.push((p, branch)),
        None => done,
    }
}

/// The `(path, branch)` of every worktree, from `git worktree list
/// --porcelain` output; a detached worktree's branch reads
/// `(detached <abbreviated id>)`.
pub fn list_worktrees_in(output: &str) -> (r: Vec<(String, String)>)
    ensures
        pairs_view(r@) == worktrees_of(output@),
{
    let lines = split_lines(output);
    let ghost lv = lines.deep_view();
    let mut worktrees: Vec<(String, String)> = Vec::new();
    let mut current_path: Option<String> = None;
    let mut current_branch = String::new();
    let n = lines.len();
    for i in 0..n
        invariant
            n == lines.len(),
            lv == lines.deep_view(),
            lv == lines_of(output@),
            (pairs_view(worktrees@), opt_text(current_path), current_branch@) == worktree_scan(
                lv.take(i as int),
            ),
    {
        proof {
            assert(lv.take(i + 1).drop_last() =~= lv.take(i as int));
        }
        let line = lines[i].as_str();
        if let Some(path) = text_strip_prefix(line, "worktree ") {
            current_path = Some(path);
            current_branch = String::new();
        } else if let Some(branch) = text_strip_prefix(line, "branch refs/heads/") {
            current_branch = branch;
        } else if let Some(id) = text_strip_prefix(line, "HEAD ") {
            if current_branch.unicode_len() == 0 {
                let short = short_commit_id(id.as_str());
                current_branch = concat3("(detached ", short.as_str(), ")");
            }
        } else if line.unicode_len() == 0 {
            if let Some(path) = current_path {
                let ghost before = pairs_view(worktrees@);
                worktrees.push((path, current_branch));
                proof {
                    assert(pairs_view(worktrees@) =~= before.push((path@, current_branch@)));
                }
                current_path = None;
                current_branch = String::new();
            }
        }
        proof {
            assert(current_branch@ == worktree_scan(lv.take(i + 1)).2);
        }
    }
    proof {
        assert(lv.take(n as int) =~= lv);
    }
    if let Some(path) = current_path {
        let ghost before = pairs_view(worktrees@);
        worktrees.push((path, current_branch));
        proof {
            assert(pairs_view(worktrees@) =~= before.push((path@, current_branch@)));
        }
    }
    worktrees
}

/// What has been read for `prunable` entries: those found so far and the
/// path of the worktree being read.
pub open spec fn prunable_scan(lines: Seq<Seq<char>>) -> (Seq<Seq<char>>, Option<Seq<char>>)
    decreases lines.len(),
{
    if lines.len() == 0 {
        (Seq::empty(), None)
    } else {
        let (found, current) = prunable_scan(lines.drop_last());
        let line = lines.last();
        match strip_prefix(line, "worktree "@) {
            Some(p) => (found, Some(p)),
            None => if "prunable"@.is_prefix_of(line) {
                match current {
                    Some(p) => (found.push(p), current),
                    None => (found, current),
                }
            } else {
                (found, current)
            },
        }
    }
}

/// The paths of the worktrees that `git worktree list --porcelain` marks
/// `prunable` (registrations whose checkout is gone).
pub fn prunable_worktrees(output: &str) -> (r: Vec<String>)
    ensures
        r.deep_view() == prunable_scan(lines_of(output@)).0,
{
    let lines = split_lines(output);
    let ghost lv = lines.deep_view();
    let mut found: Vec<String> = Vec::new();
    let mut current: Option<String> = None;
    let n = lines.len();
    for i in 0..n
        invariant
            n == lines.len(),
            lv == lines.deep_view(),
            lv == lines_of(output@),
            (found.deep_view(), opt_text(current)) == prunable_scan(lv.take(i as int)),
    {
        proof {
            assert(lv.take(i + 1).drop_last() =~= lv.take(i as int));
        }
        let line = lines[i].as_str();
        if let Some(path) = text_strip_prefix(line, "worktree ") {
            current = Some(path);
        } else if text_starts_with(line, "prunable") {
            match &current {
                Some(p) => {
                    let ghost before = found.deep_view();
                    found.push(p.clone());
                    proof {
                        assert(found.deep_view() =~= before.push(p@));
                    }
                },
                None => {},
            }
        }
    }
    proof {
        assert(lv.take(n as int) =~= lv);
    }
    found
}

/// A value printed by `git config --get`: the output trimmed, an empty
/// value read as absent.
pub open spec fn config_value_of(output: Seq<char>) -> Option<Seq<char>> {
    let t = crate::text::trimmed(output);
    if t.len() == 0 {
        None
    } else {
        Some(t)
    }
}

pub fn config_value(output: &str) -> (r: Option<String>)
    ensures
        opt_text(r) == config_value_of(output@),
{
    let t = crate::text::trim(output);
    if t.unicode_len() == 0 {
        None
    } else {
        Some(t)
    }
}

/// A configuration value that is read is never empty.
pub proof fn law_read_values_are_nonempty(output: Seq<char>)
    ensures
        config_value_of(output) matches Some(v) ==> v.len() > 0,
{
}

} // verus!
