//! Character-sequence helpers shared by the text pipeline: whitespace and
//! lowercase as Unicode defines them, edge trimming, word splitting and joining.

use vstd::prelude::*;
use vstd::slice::slice_subrange;
use vstd::slice::slice_to_vec;

verus! {

broadcast use vstd::string::group_string_axioms;

/// The Unicode `White_Space` property of a character (PropList.txt): the
/// controls U+0009 to U+000D, the space, U+0085, the no-break space, the
/// Ogham space mark, the spaces U+2000 to U+200A, the line and paragraph
/// separators, the narrow no-break space, the medium mathematical space and
/// the ideographic space.
pub open spec fn unicode_white_space(c: char) -> bool {
    let u = c as u32;
    (0x09 <= u <= 0x0d) || u == 0x20 || u == 0x85 || u == 0xa0 || u == 0x1680 || (0x2000 <= u
        <= 0x200a) || u == 0x2028 || u == 0x2029 || u == 0x202f || u == 0x205f || u == 0x3000
}

/// An ASCII upper-case letter mapped to lower case; any other character unchanged.
pub open spec fn ascii_lower_char(c: char) -> char {
    if 'A' <= c <= 'Z' {
        ((c as u32) + 32) as char
    } else {
        c
    }
}


/// The Unicode lowercase mapping of a whole string, as `str::to_lowercase` computes it.
pub uninterp spec fn unicode_lowercase(s: Seq<char>) -> Seq<char>;

/// Whether `c` has the Unicode `White_Space` property, as
/// `char::is_whitespace` answers it.
pub(crate) fn is_whitespace(c: char) -> (r: bool)
    ensures
        r == unicode_white_space(c),
{
    let u = c as u32;
    (0x09 <= u && u <= 0x0d) || u == 0x20 || u == 0x85 || u == 0xa0 || u == 0x1680 || (0x2000 <= u
        && u <= 0x200a) || u == 0x2028 || u == 0x2029 || u == 0x202f || u == 0x205f || u == 0x3000
}

/// `str::to_lowercase`: the lowercase equivalent of the whole string. The
/// result is the Unicode lowercase mapping of the input characters (a function
/// of them alone), which the contract names; of that mapping it states only
/// that ASCII text is lowered letter by letter, `A`-`Z` to `a`-`z`. The rest of
/// the Unicode case tables is left unstated.
#[verifier::external_body]
pub(crate) fn to_lowercase(s: &str) -> (r: String)
    ensures
        r@ == unicode_lowercase(s@),
        vstd::utf8::is_ascii_chars(s@) ==> r@ == s@.map_values(|c: char| ascii_lower_char(c)),
{
    s.to_lowercase()
}

/// `String::push`: appends one character at the end.
#[verifier::external_body]
pub(crate) fn push_char(s: &mut String, c: char)
    ensures
        final(s)@ == old(s)@.push(c),
{
    s.push(c)
}

/// The character classes that the text pipeline trims away at edges.
#[derive(Clone, Copy, Debug, PartialEq, Eq)]
pub enum CharClass {
    /// Unicode white space.
    Space,
    /// What is dropped before a dictated command: `:`, `,`, `-` and white space.
    CommandLead,
    /// What is dropped after a dictated command: `.`, `!`, `?`, `,` and white space.
    CommandTail,
    /// What is dropped around each spoken word: quotes, backticks, punctuation and white space.
    WordEdge,
}

/// Membership of a character in a class.
pub open spec fn in_class(k: CharClass, c: char) -> bool {
    match k {
        CharClass::Space => unicode_white_space(c),
        CharClass::CommandLead => c == ':' || c == ',' || c == '-' || unicode_white_space(c),
        CharClass::CommandTail => c == '.' || c == '!' || c == '?' || c == ','
            || unicode_white_space(c),
        CharClass::WordEdge => unicode_white_space(c) || c == '"' || c == '\'' || c == '`' || c
            == ',' || c == '.' || c == '!' || c == '?' || c == ';',
    }
}

/// Decides `in_class(k, c)`.
pub fn class_contains(k: CharClass, c: char) -> (r: bool)
    ensures
        r == in_class(k, c),
{
    match k {
        CharClass::Space => is_whitespace(c),
        CharClass::CommandLead => c == ':' || c == ',' || c == '-' || is_whitespace(c),
        CharClass::CommandTail => c == '.' || c == '!' || c == '?' || c == ',' || is_whitespace(c),
        CharClass::WordEdge => is_whitespace(c) || c == '"' || c == '\'' || c == '`' || c == ','
            || c == '.' || c == '!' || c == '?' || c == ';',
    }
}

/// `s` without its longest prefix of characters in class `k`.
pub open spec fn strip_start(s: Seq<char>, k: CharClass) -> Seq<char>
    decreases s.len(),
{
    if s.len() > 0 && in_class(k, s[0]) {
        strip_start(s.drop_first(), k)
    } else {
        s
    }
}

/// `s` without its longest suffix of characters in class `k`.
pub open spec fn strip_end(s: Seq<char>, k: CharClass) -> Seq<char>
    decreases s.len(),
{
    if s.len() > 0 && in_class(k, s.last()) {
        strip_end(s.drop_last(), k)
    } else {
        s
    }
}

/// Stripping a class from the start keeps a suffix of `s`, at index `i`,
/// whose first character is outside the class.
pub proof fn lemma_strip_start_suffix(s: Seq<char>, k: CharClass) -> (i: int)
    ensures
        0 <= i <= s.len(),
        strip_start(s, k) == s.subrange(i, s.len() as int),
        strip_start(s, k).len() > 0 ==> !in_class(k, strip_start(s, k)[0]),
    decreases s.len(),
{
    if s.len() > 0 && in_class(k, s[0]) {
        let j = lemma_strip_start_suffix(s.drop_first(), k);
        assert(s.drop_first().subrange(j, s.drop_first().len() as int) =~= s.subrange(
            j + 1,
            s.len() as int,
        ));
        j + 1
    } else {
        assert(s.subrange(0, s.len() as int) =~= s);
        0
    }
}

/// Stripping a class from the end keeps a prefix of `s`, up to index `j`,
/// whose last character is outside the class.
pub proof fn lemma_strip_end_prefix(s: Seq<char>, k: CharClass) -> (j: int)
    ensures
        0 <= j <= s.len(),
        strip_end(s, k) == s.subrange(0, j),
        strip_end(s, k).len() > 0 ==> !in_class(k, strip_end(s, k).last()),
    decreases s.len(),
{
    if s.len() > 0 && in_class(k, s.last()) {
        let j = lemma_strip_end_prefix(s.drop_last(), k);
        assert(s.drop_last().subrange(0, j) =~= s.subrange(0, j));
        j
    } else {
        assert(s.subrange(0, s.len() as int) =~= s);
        s.len() as int
    }
}

/// `s` without leading and trailing characters of class `k`.
pub open spec fn strip_both(s: Seq<char>, k: CharClass) -> Seq<char> {
    strip_end(strip_start(s, k), k)
}

/// `s` without leading and trailing white space (`str::trim`).
pub open spec fn trim_whitespace(s: Seq<char>) -> Seq<char> {
    strip_both(s, CharClass::Space)
}

/// Copies the characters of a string slice into a vector.
pub fn chars_of(s: &str) -> (out: Vec<char>)
    ensures
        out@ == s@,
{
    let mut out: Vec<char> = Vec::new();
    let it = s.chars();
    for c in iter: it
        invariant
            iter.seq() == s@,
            out@ == s@.take(iter.index() as int),
    {
        out.push(c);
    }
    out
}

/// Builds a string from a sequence of characters.
pub fn string_of(v: &[char]) -> (out: String)
    ensures
        out@ == v@,
{
    let mut out = String::new();
    let n = v.len();
    let mut i: usize = 0;
    while i < n
        invariant
            n == v@.len(),
            i <= n,
            out@ == v@.take(i as int),
        decreases n - i,
    {
        push_char(&mut out, v[i]);
        i += 1;
        assert(out@ =~= v@.take(i as int));
    }
    assert(v@.take(n as int) =~= v@);
    out
}

/// Whether the characters of `a` spell exactly the string `s`.
pub fn chars_eq_str(a: &[char], s: &str) -> (r: bool)
    ensures
        r == (a@ == s@),
{
    let n = s.unicode_len();
    if a.len() != n {
        return false;
    }
    let mut i: usize = 0;
    while i < n
        invariant
            n == s@.len(),
            n == a@.len(),
            i <= n,
            forall|j: int| 0 <= j < i ==> a@[j] == s@[j],
        decreases n - i,
    {
        if a[i] != s.get_char(i) {
            return false;
        }
        i += 1;
    }
    assert(a@ =~= s@);
    true
}

/// Index of the first character of `v[lo..hi]` that is not in class `k`
/// (or `hi`): the start of `strip_start` of that range.
pub fn skip_start(v: &[char], lo: usize, hi: usize, k: CharClass) -> (r: usize)
    requires
        lo <= hi <= v@.len(),
    ensures
        lo <= r <= hi,
        v@.subrange(r as int, hi as int) == strip_start(v@.subrange(lo as int, hi as int), k),
{
    let mut i = lo;
    while i < hi && class_contains(k, v[i])
        invariant
            lo <= i <= hi <= v@.len(),
            strip_start(v@.subrange(i as int, hi as int), k) == strip_start(
                v@.subrange(lo as int, hi as int),
                k,
            ),
        decreases hi - i,
    {
        assert(v@.subrange(i as int, hi as int).drop_first() =~= v@.subrange(
            i + 1,
            hi as int,
        ));
        i += 1;
    }
    i
}

/// End of `strip_end` of `v[lo..hi]`: one past its last character not in class `k` (or `lo`).
pub fn skip_end(v: &[char], lo: usize, hi: usize, k: CharClass) -> (r: usize)
    requires
        lo <= hi <= v@.len(),
    ensures
        lo <= r <= hi,
        v@.subrange(lo as int, r as int) == strip_end(v@.subrange(lo as int, hi as int), k),
{
    let mut j = hi;
    while j > lo && class_contains(k, v[j - 1])
        invariant
            lo <= j <= hi <= v@.len(),
            strip_end(v@.subrange(lo as int, j as int), k) == strip_end(
                v@.subrange(lo as int, hi as int),
                k,
            ),
        decreases j - lo,
    {
        assert(v@.subrange(lo as int, j as int).drop_last() =~= v@.subrange(
            lo as int,
            j - 1,
        ));
        j -= 1;
    }
    j
}

/// `strip_both(v, k)` as a new vector (`str::trim_matches` with the class as pattern).
pub fn strip_class(v: &[char], k: CharClass) -> (out: Vec<char>)
    ensures
        out@ == strip_both(v@, k),
{
    let n = v.len();
    let lo = skip_start(v, 0, n, k);
    let hi = skip_end(v, lo, n, k);
    assert(v@.subrange(0, n as int) =~= v@);
    slice_to_vec(slice_subrange(v, lo, hi))
}

/// State of a left-to-right scan that splits at white space: the finished
/// words and the word under construction.
pub open spec fn split_scan(s: Seq<char>) -> (Seq<Seq<char>>, Seq<char>)
    decreases s.len(),
{
    if s.len() == 0 {
        (seq![], seq![])
    } else {
        let (done, cur) = split_scan(s.drop_last());
        let c = s.last();
        if unicode_white_space(c) {
            if cur.len() > 0 {
                (done.push(cur), seq![])
            } else {
                (done, seq![])
            }
        } else {
            (done, cur.push(c))
        }
    }
}

/// The maximal runs of non-white-space characters of `s`, in order
/// (`str::split_whitespace`).
pub open spec fn split_words(s: Seq<char>) -> Seq<Seq<char>> {
    let (done, cur) = split_scan(s);
    if cur.len() > 0 {
        done.push(cur)
    } else {
        done
    }
}

/// Splits `v` into its white-space separated words.
pub fn split_whitespace(v: &[char]) -> (out: Vec<Vec<char>>)
    ensures
        out.deep_view() == split_words(v@),
{
    let n = v.len();
    let mut done: Vec<Vec<char>> = Vec::new();
    let mut cur: Vec<char> = Vec::new();
    let mut i: usize = 0;
    while i < n
        invariant
            n == v@.len(),
            i <= n,
            (done.deep_view(), cur@) == split_scan(v@.take(i as int)),
        decreases n - i,
    {
        let c = v[i];
        assert(v@.take(i + 1).drop_last() =~= v@.take(i as int));
        let ghost old_done = done.deep_view();
        if is_whitespace(c) {
            if cur.len() > 0 {
                let ghost w = cur@;
                let finished = cur;
                assert(finished.deep_view() =~= w);
                cur = Vec::new();
                done.push(finished);
                assert(done.deep_view() =~= old_done.push(w));
            } else {
                cur = Vec::new();
            }
            assert(cur@ =~= Seq::<char>::empty());
        } else {
            cur.push(c);
        }
        i += 1;
    }
    assert(v@.take(n as int) =~= v@);
    if cur.len() > 0 {
        let ghost old_done = done.deep_view();
        let ghost w = cur@;
        assert(cur.deep_view() =~= w);
        done.push(cur);
        assert(done.deep_view() =~= old_done.push(w));
    }
    done
}

/// The words of `ws` separated by single spaces (`[String]::join(" ")`).
pub open spec fn join_words(ws: Seq<Seq<char>>) -> Seq<char>
    decreases ws.len(),
{
    if ws.len() == 0 {
        seq![]
    } else if ws.len() == 1 {
        ws[0]
    } else {
        join_words(ws.drop_last()) + seq![' '] + ws.last()
    }
}

/// Joins `ws` with single spaces into a string.
pub fn join_with_spaces(ws: &Vec<Vec<char>>) -> (out: String)
    ensures
        out@ == join_words(ws.deep_view()),
{
    let ghost words = ws.deep_view();
    let mut acc: Vec<char> = Vec::new();
    let n = ws.len();
    let mut i: usize = 0;
    while i < n
        invariant
            n == ws@.len(),
            words == ws.deep_view(),
            i <= n,
            acc@ == join_words(words.take(i as int)),
        decreases n - i,
    {
        assert(words.take(i + 1).drop_last() =~= words.take(i as int));
        if i > 0 {
            acc.push(' ');
        }
        let w = &ws[i];
        let m = w.len();
        let ghost before = acc@;
        let mut j: usize = 0;
        while j < m
            invariant
                m == w@.len(),
                j <= m,
                acc@ == before + w@.take(j as int),
            decreases m - j,
        {
            acc.push(w[j]);
            j += 1;
            assert(acc@ =~= before + w@.take(j as int));
        }
        assert(w@.take(m as int) =~= w@);
        assert(words[i as int] == w@);
        if i == 0 {
            assert(acc@ =~= join_words(words.take(1)));
        }
        i += 1;
    }
    assert(words.take(n as int) =~= words);
    string_of(&acc)
}

} // verus!
