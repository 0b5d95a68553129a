//! Character-level helpers shared by the parsers and by the code that builds
//! git arguments and messages. Every function here is specified over the
//! `Seq<char>` view of the strings it reads and writes.
use vstd::prelude::*;
use vstd::string::*;

verus! {

/// `parts` joined with `sep` between consecutive elements.
pub open spec fn seq_join(parts: Seq<Seq<char>>, sep: Seq<char>) -> Seq<char>
    decreases parts.len(),
{
    if parts.len() == 0 {
        Seq::empty()
    } else if parts.len() == 1 {
        parts[0]
    } else {
        seq_join(parts.drop_last(), sep) + sep + parts.last()
    }
}

/// The character of a decimal digit.
pub open spec fn digit_char(d: nat) -> char {
    if d == 0 { '0' }
    else if d == 1 { '1' }
    else if d == 2 { '2' }
    else if d == 3 { '3' }
    else if d == 4 { '4' }
    else if d == 5 { '5' }
    else if d == 6 { '6' }
    else if d == 7 { '7' }
    else if d == 8 { '8' }
    else { '9' }
}

/// The decimal representation of `n`, without sign or leading zeros.
pub open spec fn decimal(n: nat) -> Seq<char>
    decreases n,
{
    if n < 10 {
        seq![digit_char(n)]
    } else {
        decimal(n / 10).push(digit_char(n % 10))
    }
}

/// Is `c` an ASCII decimal digit?
pub open spec fn is_digit(c: char) -> bool {
    '0' <= c && c <= '9'
}

/// The value of an ASCII decimal digit.
pub open spec fn digit_value(c: char) -> nat {
    ((c as int) - ('0' as int)) as nat
}

/// Unicode `White_Space`, the property `char::is_whitespace` tests.
pub open spec fn is_space(c: char) -> bool {
    ||| ('\t' <= c && c <= '\r')
    ||| c == ' '
    ||| c == '\u{85}'
    ||| c == '\u{a0}'
    ||| c == '\u{1680}'
    ||| ('\u{2000}' <= c && c <= '\u{200a}')
    ||| c == '\u{2028}'
    ||| c == '\u{2029}'
    ||| c == '\u{202f}'
    ||| c == '\u{205f}'
    ||| c == '\u{3000}'
}

/// Does `s` hold only whitespace (so that trimming it leaves nothing)?
pub open spec fn is_blank(s: Seq<char>) -> bool {
    forall|i: int| 0 <= i < s.len() ==> is_space(#[trigger] s[i])
}

/// Line splitting as `str::lines` does it, written as a left-to-right scan:
/// the lines finished so far and the line being read.
pub open spec fn lines_scan(s: Seq<char>) -> (Seq<Seq<char>>, Seq<char>)
    decreases s.len(),
{
    if s.len() == 0 {
        (Seq::empty(), Seq::empty())
    } else {
        let (done, cur) = lines_scan(s.drop_last());
        if s.last() == '\n' {
            (done.push(strip_cr(cur)), Seq::empty())
        } else {
            (done, cur.push(s.last()))
        }
    }
}

/// A line without the `\r` of a `\r\n` line ending.
pub open spec fn strip_cr(line: Seq<char>) -> Seq<char> {
    if line.len() > 0 && line.last() == '\r' {
        line.drop_last()
    } else {
        line
    }
}

/// The lines of `s`: split at `\n`, a `\r` before the `\n` dropped, and no
/// empty line after a final line ending.
pub open spec fn lines_of(s: Seq<char>) -> Seq<Seq<char>> {
    let (done, cur) = lines_scan(s);
    if cur.len() > 0 {
        done.push(cur)
    } else {
        done
    }
}

/// The pieces of `s` between occurrences of `sep`, as `str::split` with a
/// character pattern gives them: always at least one piece.
pub open spec fn split_scan(s: Seq<char>, sep: char) -> (Seq<Seq<char>>, Seq<char>)
    decreases s.len(),
{
    if s.len() == 0 {
        (Seq::empty(), Seq::empty())
    } else {
        let (done, cur) = split_scan(s.drop_last(), sep);
        if s.last() == sep {
            (done.push(cur), Seq::empty())
        } else {
            (done, cur.push(s.last()))
        }
    }
}

pub open spec fn split_on(s: Seq<char>, sep: char) -> Seq<Seq<char>> {
    let (done, cur) = split_scan(s, sep);
    done.push(cur)
}

/// The characters of a string.
pub fn to_chars(s: &str) -> (v: Vec<char>)
    ensures
        v@ == s@,
{
    let mut v: Vec<char> = Vec::new();
    for c in it: s.chars()
        invariant
            v@ == it.seq().take(it.index() as int),
            it.seq() == s@,
    {
        v.push(c);
    }
    v
}

/// The characters `from..to` of `s`, as a new string.
pub fn substring(s: &str, from: usize, to: usize) -> (r: String)
    requires
        from <= to <= s@.len(),
    ensures
        r@ == s@.subrange(from as int, to as int),
{
    s.substring_char(from, to).to_owned()
}

/// A new string holding `s`.
pub fn owned(s: &str) -> (r: String)
    ensures
        r@ == s@,
{
    s.to_owned()
}

/// `a` followed by `b`.
pub fn concat2(a: &str, b: &str) -> (r: String)
    ensures
        r@ == a@ + b@,
{
    let mut r = a.to_owned();
    r.append(b);
    r
}

/// `a`, `b` and `c` one after the other.
pub fn concat3(a: &str, b: &str, c: &str) -> (r: String)
    ensures
        r@ == a@ + b@ + c@,
{
    let mut r = a.to_owned();
    r.append(b);
    r.append(c);
    r
}

/// Do two strings hold the same characters?
pub fn same_text(a: &str, b: &str) -> (r: bool)
    ensures
        r == (a@ == b@),
{
    let x = a.to_owned();
    let y = b.to_owned();
    x == y
}

/// The parts joined by `sep`, as `[String]::join` does it.
pub fn join(parts: &Vec<String>, sep: &str) -> (r: String)
    ensures
        r@ == seq_join(parts.deep_view(), sep@),
{
    let ghost dv = parts.deep_view();
    let mut r = String::new();
    let n = parts.len();
    for i in 0..n
        invariant
            n == parts.len(),
            dv == parts.deep_view(),
            r@ == seq_join(dv.take(i as int), sep@),
    {
        proof {
            assert(dv.take(i + 1).drop_last() =~= dv.take(i as int));
        }
        if i > 0 {
            r.append(sep);
        }
        r.append(parts[i].as_str());
        proof {
            if i == 0 {
                assert(r@ =~= seq_join(dv.take(1), sep@));
            }
        }
    }
    proof {
        assert(dv.take(n as int) =~= dv);
    }
    r
}

/// The one-character string of a decimal digit.
fn digit_text(d: u64) -> (s: &'static str)
    requires
        d < 10,
    ensures
        s@ == seq![digit_char(d as nat)],
{
    proof {
        reveal_strlit("0");
        reveal_strlit("1");
        reveal_strlit("2");
        reveal_strlit("3");
        reveal_strlit("4");
        reveal_strlit("5");
        reveal_strlit("6");
        reveal_strlit("7");
        reveal_strlit("8");
        reveal_strlit("9");
    }
    let s = if d == 0 { "0" }
    else if d == 1 { "1" }
    else if d == 2 { "2" }
    else if d == 3 { "3" }
    else if d == 4 { "4" }
    else if d == 5 { "5" }
    else if d == 6 { "6" }
    else if d == 7 { "7" }
    else if d == 8 { "8" }
    else { "9" };
    assert(s@ =~= seq![digit_char(d as nat)]);
    s
}

/// `n` written in decimal, as `to_string` writes an unsigned integer.
pub fn decimal_string(n: u64) -> (s: String)
    ensures
        s@ == decimal(n as nat),
    decreases n,
{
    if n < 10 {
        owned(digit_text(n))
    } else {
        let mut s = decimal_string(n / 10);
        s.append(digit_text(n % 10));
        s
    }
}

/// Is the character an ASCII decimal digit?
pub fn char_is_digit(c: char) -> (b: bool)
    ensures
        b == is_digit(c),
{
    '0' <= c && c <= '9'
}

/// Is the character Unicode whitespace, as `char::is_whitespace` decides it?
pub fn char_is_space(c: char) -> (b: bool)
    ensures
        b == is_space(c),
{
    ('\t' <= c && c <= '\r') || c == ' ' || c == '\u{85}' || c == '\u{a0}' || c == '\u{1680}'
        || ('\u{2000}' <= c && c <= '\u{200a}') || c == '\u{2028}' || c == '\u{2029}'
        || c == '\u{202f}' || c == '\u{205f}' || c == '\u{3000}'
}

/// Does `s` hold nothing but whitespace (`s.trim().is_empty()`)?
pub fn text_is_blank(s: &str) -> (b: bool)
    ensures
        b == is_blank(s@),
{
    let v = to_chars(s);
    let n = v.len();
    for i in 0..n
        invariant
            n == v@.len(),
            v@ == s@,
            forall|j: int| 0 <= j < i ==> is_space(#[trigger] v@[j]),
    {
        if !char_is_space(v[i]) {
            return false;
        }
    }
    true
}

/// Does the character sequence `v` begin with `prefix`?
pub fn chars_start_with(v: &Vec<char>, prefix: &Vec<char>) -> (b: bool)
    ensures
        b == prefix@.is_prefix_of(v@),
{
    if prefix.len() > v.len() {
        return false;
    }
    let n = prefix.len();
    for i in 0..n
        invariant
            n == prefix@.len(),
            n <= v@.len(),
            forall|j: int| 0 <= j < i ==> prefix@[j] == v@[j],
    {
        if prefix[i] != v[i] {
            return false;
        }
    }
    proof {
        assert(prefix@ =~= v@.take(n as int));
    }
    true
}

/// Split `s` into lines as `str::lines` does.
pub fn split_lines(s: &str) -> (lines: Vec<String>)
    ensures
        lines.deep_view() == lines_of(s@),
{
    let v = to_chars(s);
    let n = v.len();
    let mut lines: Vec<String> = Vec::new();
    let mut start: usize = 0;
    for i in 0..n
        invariant
            n == v@.len(),
            v@ == s@,
            start <= i,
            lines.deep_view() == lines_scan(s@.take(i as int)).0,
            s@.subrange(start as int, i as int) == lines_scan(s@.take(i as int)).1,
    {
        proof {
            assert(s@.take(i + 1).drop_last() =~= s@.take(i as int));
        }
        if v[i] == '\n' {
            let mut end = i;
            if end > start && v[end - 1] == '\r' {
                end = end - 1;
            }
            let line = substring(s, start, end);
            lines.push(line);
            proof {
                let cur = s@.subrange(start as int, i as int);
                assert(line@ =~= strip_cr(cur));
                assert(lines.deep_view() =~= lines_scan(s@.take(i + 1)).0);
                assert(s@.subrange(i + 1, i + 1) =~= Seq::<char>::empty());
            }
            start = i + 1;
        } else {
            proof {
                assert(s@.subrange(start as int, i + 1) =~= s@.subrange(start as int, i as int).push(v@[i as int]));
            }
        }
    }
    proof {
        assert(s@.take(n as int) =~= s@);
    }
    if start < n {
        let line = substring(s, start, n);
        lines.push(line);
        proof {
            assert(lines.deep_view() =~= lines_of(s@));
        }
    }
    lines
}

/// Split `s` at every occurrence of `sep`, as `str::split` does.
pub fn split_at_char(s: &str, sep: char) -> (pieces: Vec<String>)
    ensures
        pieces.deep_view() == split_on(s@, sep),
        pieces.len() >= 1,
{
    let v = to_chars(s);
    let n = v.len();
    let mut pieces: Vec<String> = Vec::new();
    let mut start: usize = 0;
    for i in 0..n
        invariant
            n == v@.len(),
            v@ == s@,
            start <= i,
            pieces.deep_view() == split_scan(s@.take(i as int), sep).0,
            s@.subrange(start as int, i as int) == split_scan(s@.take(i as int), sep).1,
    {
        proof {
            assert(s@.take(i + 1).drop_last() =~= s@.take(i as int));
        }
        if v[i] == sep {
            let piece = substring(s, start, i);
            pieces.push(piece);
            proof {
                assert(pieces.deep_view() =~= split_scan(s@.take(i + 1), sep).0);
                assert(s@.subrange(i + 1, i + 1) =~= Seq::<char>::empty());
            }
            start = i + 1;
        } else {
            proof {
                assert(s@.subrange(start as int, i + 1) =~= s@.subrange(start as int, i as int).push(v@[i as int]));
            }
        }
    }
    proof {
        assert(s@.take(n as int) =~= s@);
    }
    let last = substring(s, start, n);
    pieces.push(last);
    proof {
        assert(pieces.deep_view() =~= split_on(s@, sep));
    }
    pieces
}

/// Splitting text that lacks the separator gives the text itself.
pub proof fn lemma_split_without_separator(s: Seq<char>, sep: char)
    requires
        !s.contains(sep),
    ensures
        split_on(s, sep) == seq![s],
{
    lemma_split_scan_without_separator(s, sep);
    assert(Seq::<Seq<char>>::empty().push(s) =~= seq![s]);
}

proof fn lemma_split_scan_without_separator(s: Seq<char>, sep: char)
    requires
        !s.contains(sep),
    ensures
        split_scan(s, sep) == (Seq::<Seq<char>>::empty(), s),
    decreases s.len(),
{
    if s.len() > 0 {
        assert(!s.drop_last().contains(sep)) by {
            if s.drop_last().contains(sep) {
                let j = choose|j: int| 0 <= j < s.drop_last().len() && s.drop_last()[j] == sep;
                assert(s[j] == sep);
            }
        }
        lemma_split_scan_without_separator(s.drop_last(), sep);
        assert(s[s.len() - 1] != sep);
        assert(s.drop_last().push(s.last()) =~= s);
    } else {
        assert(s =~= Seq::<char>::empty());
    }
}

/// The position of the first `c` in `s`, if any.
pub open spec fn index_of_char(s: Seq<char>, c: char) -> Option<int>
    decreases s.len(),
{
    if s.len() == 0 {
        None
    } else {
        match index_of_char(s.drop_last(), c) {
            Some(i) => Some(i),
            None => if s.last() == c {
                Some(s.len() - 1)
            } else {
                None
            },
        }
    }
}

/// `s` without the prefix `p`, if it starts with it (`str::strip_prefix`).
pub open spec fn strip_prefix(s: Seq<char>, p: Seq<char>) -> Option<Seq<char>> {
    if p.is_prefix_of(s) {
        Some(s.skip(p.len() as int))
    } else {
        None
    }
}

/// `s` without the suffix `q`, if it ends with it (`str::strip_suffix`).
pub open spec fn strip_suffix(s: Seq<char>, q: Seq<char>) -> Option<Seq<char>> {
    if q.len() <= s.len() && s.skip(s.len() - q.len()) == q {
        Some(s.take(s.len() - q.len()))
    } else {
        None
    }
}

/// The text before and after the first `c` (`str::split_once`).
pub open spec fn split_once(s: Seq<char>, c: char) -> Option<(Seq<char>, Seq<char>)> {
    match index_of_char(s, c) {
        Some(k) => Some((s.take(k), s.skip(k + 1))),
        None => None,
    }
}

/// Does `pat` occur in `v` at position `start`?
pub fn chars_match_at(v: &Vec<char>, pat: &Vec<char>, start: usize) -> (b: bool)
    ensures
        b == (start + pat@.len() <= v@.len() && v@.subrange(start as int, start + pat@.len()) == pat@),
{
    if start > v.len() || pat.len() > v.len() - start {
        return false;
    }
    let n = pat.len();
    for i in 0..n
        invariant
            n == pat@.len(),
            start + n <= v.len(),
            forall|j: int| 0 <= j < i ==> pat@[j] == v@[start + j],
    {
        if pat[i] != v[start + i] {
            assert(v@.subrange(start as int, start + n)[i as int] != pat@[i as int]);
            return false;
        }
    }
    assert(v@.subrange(start as int, start + n) =~= pat@);
    true
}

/// Does `s` start with `p`?
pub fn text_starts_with(s: &str, p: &str) -> (b: bool)
    ensures
        b == p@.is_prefix_of(s@),
{
    let v = to_chars(s);
    let w = to_chars(p);
    let b = chars_match_at(&v, &w, 0);
    proof {
        if b {
            assert(v@.subrange(0, w@.len() as int) =~= v@.take(w@.len() as int));
        } else if p@.is_prefix_of(s@) {
            assert(v@.subrange(0, w@.len() as int) =~= v@.take(w@.len() as int));
        }
    }
    b
}

/// `str::strip_prefix`, on owned text.
pub fn text_strip_prefix(s: &str, p: &str) -> (r: Option<String>)
    ensures
        crate::config::opt_text(r) == strip_prefix(s@, p@),
{
    if text_starts_with(s, p) {
        let n = s.unicode_len();
        let k = p.unicode_len();
        Some(substring(s, k, n))
    } else {
        None
    }
}

/// `str::strip_suffix`, on owned text.
pub fn text_strip_suffix(s: &str, q: &str) -> (r: Option<String>)
    ensures
        crate::config::opt_text(r) == strip_suffix(s@, q@),
{
    let v = to_chars(s);
    let w = to_chars(q);
    if w.len() > v.len() {
        return None;
    }
    let start = v.len() - w.len();
    if chars_match_at(&v, &w, start) {
        proof {
            assert(v@.subrange(start as int, start + w@.len()) =~= v@.skip(start as int));
        }
        Some(substring(s, 0, start))
    } else {
        proof {
            assert(v@.subrange(start as int, start + w@.len()) =~= v@.skip(start as int));
        }
        None
    }
}

/// The position of the first `c` in `v`.
pub fn find_char(v: &Vec<char>, c: char) -> (r: Option<usize>)
    ensures
        match r {
            Some(k) => index_of_char(v@, c) == Some(k as int),
            None => index_of_char(v@, c) is None,
        },
{
    let n = v.len();
    for i in 0..n
        invariant
            n == v@.len(),
            index_of_char(v@.take(i as int), c) is None,
    {
        proof {
            assert(v@.take(i + 1).drop_last() =~= v@.take(i as int));
        }
        if v[i] == c {
            proof {
                lemma_index_of_char_prefix(v@, c, i + 1);
            }
            return Some(i);
        }
    }
    proof {
        assert(v@.take(n as int) =~= v@);
    }
    None
}

/// A first occurrence within a prefix is the first occurrence in the whole.
pub proof fn lemma_index_of_char_prefix(s: Seq<char>, c: char, k: int)
    requires
        0 <= k <= s.len(),
        index_of_char(s.take(k), c) is Some,
    ensures
        index_of_char(s, c) == index_of_char(s.take(k), c),
    decreases s.len(),
{
    if k == s.len() {
        assert(s.take(k) =~= s);
    } else {
        assert(s.drop_last().take(k) =~= s.take(k));
        lemma_index_of_char_prefix(s.drop_last(), c, k);
    }
}

/// The first occurrence of `c` is an occurrence, and nothing before it is `c`.
pub proof fn lemma_index_of_char(s: Seq<char>, c: char)
    ensures
        match index_of_char(s, c) {
            Some(k) => 0 <= k < s.len() && s[k] == c && forall|j: int| 0 <= j < k ==> s[j] != c,
            None => forall|j: int| 0 <= j < s.len() ==> s[j] != c,
        },
    decreases s.len(),
{
    if s.len() > 0 {
        lemma_index_of_char(s.drop_last(), c);
        assert(forall|j: int| 0 <= j < s.len() - 1 ==> s.drop_last()[j] == s[j]);
    }
}

/// `str::split_once` at a character, on owned text.
pub fn text_split_once(s: &str, c: char) -> (r: Option<(String, String)>)
    ensures
        match r {
            Some((a, b)) => split_once(s@, c) == Some((a@, b@)),
            None => split_once(s@, c) is None,
        },
{
    let v = to_chars(s);
    match find_char(&v, c) {
        Some(k) => {
            proof {
                lemma_index_of_char(v@, c);
            }
            assert(k < v.len());
            let a = substring(s, 0, k);
            let b = substring(s, k + 1, v.len());
            proof {
                assert(a@ =~= s@.take(k as int));
                assert(b@ =~= s@.skip(k + 1));
            }
            Some((a, b))
        },
        None => None,
    }
}

/// The number of leading whitespace characters of `s`.
pub open spec fn leading_space(s: Seq<char>) -> nat
    decreases s.len(),
{
    if s.len() > 0 && is_space(s[0]) {
        1 + leading_space(s.drop_first())
    } else {
        0
    }
}

/// The number of trailing whitespace characters of `s`.
pub open spec fn trailing_space(s: Seq<char>) -> nat
    decreases s.len(),
{
    if s.len() > 0 && is_space(s.last()) {
        1 + trailing_space(s.drop_last())
    } else {
        0
    }
}

/// `s` without leading and trailing whitespace (`str::trim`).
pub open spec fn trimmed(s: Seq<char>) -> Seq<char> {
    let front = s.skip(leading_space(s) as int);
    front.take(front.len() - trailing_space(front))
}

proof fn lemma_leading_space_step(s: Seq<char>, i: int)
    requires
        0 <= i < s.len(),
        is_space(s[i]),
    ensures
        leading_space(s.skip(i)) == 1 + leading_space(s.skip(i + 1)),
{
    assert(s.skip(i).drop_first() =~= s.skip(i + 1));
}

proof fn lemma_trailing_space_step(s: Seq<char>, j: int)
    requires
        0 < j <= s.len(),
        is_space(s[j - 1]),
    ensures
        trailing_space(s.take(j)) == 1 + trailing_space(s.take(j - 1)),
{
    assert(s.take(j).drop_last() =~= s.take(j - 1));
}

proof fn lemma_leading_space_bound(s: Seq<char>)
    ensures
        leading_space(s) <= s.len(),
    decreases s.len(),
{
    if s.len() > 0 && is_space(s[0]) {
        lemma_leading_space_bound(s.drop_first());
    }
}

proof fn lemma_trailing_space_bound(s: Seq<char>)
    ensures
        trailing_space(s) <= s.len(),
    decreases s.len(),
{
    if s.len() > 0 && is_space(s.last()) {
        lemma_trailing_space_bound(s.drop_last());
    }
}

/// `str::trim`, on owned text.
pub fn trim(s: &str) -> (r: String)
    ensures
        r@ == trimmed(s@),
{
    let v = to_chars(s);
    let n = v.len();
    let mut i: usize = 0;
    proof {
        assert(s@.skip(0) =~= s@);
    }
    while i < n && char_is_space(v[i])
        invariant
            n == v@.len(),
            v@ == s@,
            i <= n,
            leading_space(s@) == i + leading_space(s@.skip(i as int)),
        decreases n - i,
    {
        proof {
            lemma_leading_space_step(s@, i as int);
        }
        i = i + 1;
    }
    proof {
        if i < n {
            assert(s@.skip(i as int)[0] == v@[i as int]);
        }
        assert(leading_space(s@.skip(i as int)) == 0);
    }
    let ghost front = s@.skip(i as int);
    let mut j: usize = n;
    proof {
        assert(front.take(front.len() as int) =~= front);
    }
    while j > i && char_is_space(v[j - 1])
        invariant
            n == v@.len(),
            v@ == s@,
            i <= j <= n,
            front == s@.skip(i as int),
            trailing_space(front) == (n - j) + trailing_space(front.take(j - i)),
        decreases j,
    {
        proof {
            assert(front[j - i - 1] == v@[j - 1]);
            lemma_trailing_space_step(front, j - i);
        }
        j = j - 1;
    }
    proof {
        if j > i {
            assert(front.take(j - i).last() == v@[j - 1]);
        }
        assert(trailing_space(front.take(j - i)) == 0);
        lemma_trailing_space_bound(front);
        assert(s@.subrange(i as int, j as int) =~= front.take(front.len() - trailing_space(front)));
    }
    substring(s, i, j)
}

/// Joining the pieces of a split with the separator gives the text back.
pub proof fn lemma_join_split(s: Seq<char>, sep: char)
    ensures
        seq_join(split_on(s, sep), seq![sep]) == s,
{
    lemma_join_split_scan(s, sep);
}

proof fn lemma_join_push(parts: Seq<Seq<char>>, x: Seq<char>, sep: Seq<char>)
    ensures
        parts.len() == 0 ==> seq_join(parts.push(x), sep) == x,
        parts.len() > 0 ==> seq_join(parts.push(x), sep) == seq_join(parts, sep) + sep + x,
{
    assert(parts.push(x).drop_last() =~= parts);
    if parts.len() == 0 {
        assert(parts.push(x).len() == 1);
    }
}

proof fn lemma_join_split_scan(s: Seq<char>, sep: char)
    ensures
        seq_join(split_scan(s, sep).0.push(split_scan(s, sep).1), seq![sep]) == s,
    decreases s.len(),
{
    let (done, cur) = split_scan(s, sep);
    if s.len() == 0 {
        lemma_join_push(done, cur, seq![sep]);
        assert(s =~= Seq::<char>::empty());
    } else {
        let t = s.drop_last();
        let c = s.last();
        lemma_join_split_scan(t, sep);
        let (d0, c0) = split_scan(t, sep);
        lemma_join_push(d0, c0, seq![sep]);
        if c == sep {
            lemma_join_push(d0.push(c0), Seq::<char>::empty(), seq![sep]);
            assert(seq_join(d0.push(c0), seq![sep]) + seq![sep] + Seq::<char>::empty() =~= s);
        } else {
            lemma_join_push(d0, c0.push(c), seq![sep]);
            if d0.len() == 0 {
                assert(c0.push(c) =~= t.push(c));
                assert(t.push(c) =~= s);
            } else {
                assert(seq_join(d0, seq![sep]) + seq![sep] + c0.push(c) =~= (seq_join(d0, seq![sep])
                    + seq![sep] + c0).push(c));
                assert(t.push(c) =~= s);
            }
        }
    }
}

} // verus!
