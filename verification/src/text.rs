//! Transcript post-processing for command dictation.
//!
//! A transcript that asks for a command ("... output the command cargo run dash
//! dash release") or that starts with a known program name is rewritten into
//! the command it spells ("cargo run --release"); any other transcript is only
//! trimmed.

use vstd::prelude::*;
use vstd::slice::slice_subrange;
use vstd::slice::slice_to_vec;
use vstd::utf8::decode_utf8;
use vstd::utf8::encode_utf8;
use vstd::utf8::is_char_boundary;
use vstd::utf8::is_ascii_chars;
use vstd::utf8::is_continuation_byte;

use crate::chars::{
    ascii_lower_char, in_class, lemma_strip_end_prefix, lemma_strip_start_suffix, skip_end, skip_start, split_whitespace, split_words, strip_both, strip_class,
    strip_end, strip_start, to_lowercase, trim_whitespace, unicode_lowercase, CharClass, chars_of,
    chars_eq_str, join_with_spaces, join_words, string_of,
};

verus! {

broadcast use vstd::string::group_string_axioms;

// ---------------------------------------------------------------------------
// Byte-level search in UTF-8 text (`str::rfind`, `str::contains`, `str::strip_prefix`)
// ---------------------------------------------------------------------------

/// `pat` occurs in `hay` starting at byte `i`.
pub open spec fn occurs_at(hay: Seq<u8>, pat: Seq<u8>, i: int) -> bool {
    0 <= i && i + pat.len() <= hay.len() && hay.subrange(i, i + pat.len()) == pat
}

/// `pat` occurs somewhere in `hay`.
pub open spec fn contains_bytes(hay: Seq<u8>, pat: Seq<u8>) -> bool {
    exists|i: int| occurs_at(hay, pat, i)
}

/// `i` is the start of the last occurrence of `pat` in `hay`.
pub open spec fn is_last_occurrence(hay: Seq<u8>, pat: Seq<u8>, i: int) -> bool {
    occurs_at(hay, pat, i) && forall|j: int| occurs_at(hay, pat, j) ==> j <= i
}

/// The byte index of the last occurrence of `pat` in `hay`, if any.
pub open spec fn last_occurrence(hay: Seq<u8>, pat: Seq<u8>) -> Option<int> {
    if exists|i: int| is_last_occurrence(hay, pat, i) {
        Some(choose|i: int| is_last_occurrence(hay, pat, i))
    } else {
        None
    }
}

/// UTF-8 bytes of the marker " the command ".
pub open spec fn the_command_marker() -> Seq<u8> {
    encode_utf8(" the command "@)
}

/// UTF-8 bytes of the marker " command ".
pub open spec fn command_marker() -> Seq<u8> {
    encode_utf8(" command "@)
}

/// UTF-8 bytes of the prefix "command ".
pub open spec fn command_prefix() -> Seq<u8> {
    encode_utf8("command "@)
}

/// The lowered text before a marker asks for something to be produced:
/// it mentions "output", "type", "write", "run" or "execute".
pub open spec fn asks_for_command(before: Seq<u8>) -> bool {
    contains_bytes(before, encode_utf8("output"@)) || contains_bytes(before, encode_utf8("type"@))
        || contains_bytes(before, encode_utf8("write"@)) || contains_bytes(
        before,
        encode_utf8("run"@),
    ) || contains_bytes(before, encode_utf8("execute"@))
}

/// The byte index of `marker` in the lowered text when its last occurrence
/// follows a request word.
pub open spec fn requested_marker(lower: Seq<u8>, marker: Seq<u8>) -> Option<int> {
    match last_occurrence(lower, marker) {
        Some(i) => if asks_for_command(lower.take(i)) {
            Some(i)
        } else {
            None
        },
        None => None,
    }
}

/// Where, in the bytes of the transcript, a dictated command starts.
#[derive(Clone, Copy, Debug, PartialEq, Eq)]
pub enum CommandStart {
    /// The transcript does not announce a command.
    Plain,
    /// The command starts at this byte offset of the transcript.
    At(usize),
    /// The lowered transcript starts with "command " but is longer than the
    /// transcript itself, so no offset in the transcript corresponds to it.
    OutOfRange,
}

/// Where the command starts, given the bytes of the trimmed transcript `text`
/// and of its lowercase form `lower`. A marker found in `lower` at byte `i` puts
/// the command at byte `i + marker length` of `text`; a "command " prefix puts it
/// as many bytes before the end of `text` as follow the prefix in `lower`.
pub open spec fn spec_command_start(text: Seq<u8>, lower: Seq<u8>) -> CommandStart {
    match requested_marker(lower, the_command_marker()) {
        Some(i) => CommandStart::At((i + the_command_marker().len()) as usize),
        None => match requested_marker(lower, command_marker()) {
            Some(i) => CommandStart::At((i + command_marker().len()) as usize),
            None => if lower.len() >= command_prefix().len() && lower.take(
                command_prefix().len() as int,
            ) == command_prefix() {
                let rest = lower.len() - command_prefix().len();
                if rest <= text.len() {
                    CommandStart::At((text.len() - rest) as usize)
                } else {
                    CommandStart::OutOfRange
                }
            } else {
                CommandStart::Plain
            },
        },
    }
}

/// The command start denotes a place where the transcript can be cut.
pub open spec fn command_start_is_valid(text: Seq<u8>, lower: Seq<u8>) -> bool {
    match spec_command_start(text, lower) {
        CommandStart::Plain => true,
        CommandStart::At(n) => is_char_boundary(text, n as int),
        CommandStart::OutOfRange => false,
    }
}

// ---------------------------------------------------------------------------
// Words
// ---------------------------------------------------------------------------

/// A transcript stripped for command extraction: white space, then leading
/// `:`/`,`/`-` and trailing `.`/`!`/`?`/`,` (with white space) removed.
pub open spec fn command_edges_trimmed(s: Seq<char>) -> Seq<char> {
    strip_end(strip_start(trim_whitespace(s), CharClass::CommandLead), CharClass::CommandTail)
}

/// A spoken word without surrounding quotes and punctuation, in lowercase.
pub open spec fn cleaned(w: Seq<char>) -> Seq<char> {
    unicode_lowercase(strip_both(w, CharClass::WordEdge))
}

/// The cleaned words of `ws` that are not empty, in order.
pub open spec fn cleaned_words(ws: Seq<Seq<char>>) -> Seq<Seq<char>>
    decreases ws.len(),
{
    if ws.len() == 0 {
        seq![]
    } else {
        let rest = cleaned_words(ws.drop_last());
        let c = cleaned(ws.last());
        if c.len() > 0 {
            rest.push(c)
        } else {
            rest
        }
    }
}

/// Program names that mark a transcript as a command when it starts with one.
pub open spec fn is_program_name(w: Seq<char>) -> bool {
    w == "bun"@ || w == "cargo"@ || w == "cd"@ || w == "cp"@ || w == "deno"@ || w == "docker"@
        || w == "git"@ || w == "go"@ || w == "kubectl"@ || w == "ls"@ || w == "mkdir"@ || w
        == "mv"@ || w == "node"@ || w == "npm"@ || w == "npx"@ || w == "pnpm"@ || w == "python"@
        || w == "python3"@ || w == "rm"@ || w == "rustc"@ || w == "ssh"@ || w == "uv"@ || w
        == "uvx"@ || w == "yarn"@
}

/// The first word of `s`, cleaned, is a program name.
pub open spec fn starts_with_program(s: Seq<char>) -> bool {
    let ws = split_words(s);
    ws.len() > 0 && is_program_name(cleaned(ws[0]))
}

/// A spoken dash.
pub open spec fn is_dash(w: Seq<char>) -> bool {
    w == "dash"@ || w == "hyphen"@ || w == "minus"@
}

/// A spoken separator symbol.
pub open spec fn is_symbol_word(w: Seq<char>) -> bool {
    w == "dot"@ || w == "period"@ || w == "slash"@ || w == "underscore"@ || w == "colon"@
}

/// The character a spoken separator stands for.
pub open spec fn symbol_of(w: Seq<char>) -> char {
    if w == "slash"@ {
        '/'
    } else if w == "underscore"@ {
        '_'
    } else if w == "colon"@ {
        ':'
    } else {
        '.'
    }
}

/// Number of consecutive spoken dashes in `words` from index `i` on.
pub open spec fn dash_run(words: Seq<Seq<char>>, i: int) -> int
    decreases words.len() - i,
{
    if 0 <= i < words.len() && is_dash(words[i]) {
        1 + dash_run(words, i + 1)
    } else {
        0
    }
}

/// A long flag: `--` followed by the next word when there is one.
pub open spec fn long_flag(next: Option<Seq<char>>) -> Seq<char> {
    match next {
        Some(w) => seq!['-', '-'] + w,
        None => seq!['-', '-'],
    }
}

/// The word at index `i`, if there is one.
pub open spec fn word_at(words: Seq<Seq<char>>, i: int) -> Option<Seq<char>> {
    if 0 <= i < words.len() {
        Some(words[i])
    } else {
        None
    }
}

/// Rewrites spoken words from index `i` on, appending to the tokens `out`
/// produced so far:
/// - "double" then a dash word gives `--next`, consuming the next word too;
/// - a run of two or more dash words gives `--next`;
/// - a single dash word gives `-next` (or `-` at the end);
/// - "dot"/"period"/"slash"/"underscore"/"colon" followed by a word glues
///   the symbol and that word onto the previous token;
/// - any other word is kept.
pub open spec fn rewrite_words(words: Seq<Seq<char>>, i: int, out: Seq<Seq<char>>) -> Seq<
    Seq<char>,
>
    decreases words.len() - i,
{
    if i < 0 || i >= words.len() {
        out
    } else {
        let w = words[i];
        if w == "double"@ && i + 1 < words.len() && is_dash(words[i + 1]) {
            let next = word_at(words, i + 2);
            rewrite_words(
                words,
                if next is Some {
                    i + 3
                } else {
                    i + 2
                },
                out.push(long_flag(next)),
            )
        } else if is_dash(w) {
            let count = dash_run(words, i);
            proof {
                lemma_dash_run_bounds(words, i);
            }
            if count >= 2 {
                let next = word_at(words, i + count);
                rewrite_words(
                    words,
                    if next is Some {
                        i + count + 1
                    } else {
                        i + count
                    },
                    out.push(long_flag(next)),
                )
            } else if i + 1 < words.len() {
                rewrite_words(words, i + 2, out.push(seq!['-'] + words[i + 1]))
            } else {
                rewrite_words(words, i + 1, out.push(seq!['-']))
            }
        } else if is_symbol_word(w) && i + 1 < words.len() {
            let glued = seq![symbol_of(w)] + words[i + 1];
            if out.len() > 0 {
                rewrite_words(words, i + 2, out.drop_last().push(out.last() + glued))
            } else {
                rewrite_words(words, i + 2, out.push(glued))
            }
        } else {
            rewrite_words(words, i + 1, out.push(w))
        }
    }
}

/// The rewritten form of a dictated command.
pub open spec fn normalized_command(s: Seq<char>) -> Seq<char> {
    join_words(
        rewrite_words(cleaned_words(split_words(command_edges_trimmed(s))), 0, seq![]),
    )
}

/// The command that a trimmed transcript `t` announces, and whether it
/// announced one; the cut happens at the byte offset that `spec_command_start`
/// gives, on the bytes of `t`.
pub open spec fn extracted_command(t: Seq<char>) -> (Seq<char>, bool) {
    match spec_command_start(encode_utf8(t), encode_utf8(unicode_lowercase(t))) {
        CommandStart::At(n) => (
            command_edges_trimmed(decode_utf8(encode_utf8(t).skip(n as int))),
            true,
        ),
        _ => (t, false),
    }
}

/// The transcripts that normalisation is defined on: those whose announced
/// command starts at a character boundary of the trimmed transcript.
pub open spec fn transcript_is_normalizable(raw: Seq<char>) -> bool {
    let t = trim_whitespace(raw);
    t.len() == 0 || command_start_is_valid(encode_utf8(t), encode_utf8(unicode_lowercase(t)))
}

/// What a transcript becomes: empty if it is blank; the rewritten command if
/// it announces one or starts with a program name; otherwise the trimmed text.
pub open spec fn normalized_transcript(raw: Seq<char>) -> Seq<char> {
    let t = trim_whitespace(raw);
    if t.len() == 0 {
        seq![]
    } else {
        let (c, announced) = extracted_command(t);
        if announced || starts_with_program(c) {
            normalized_command(c)
        } else {
            t
        }
    }
}

// ---------------------------------------------------------------------------
// Lemmas
// ---------------------------------------------------------------------------

/// A run of dashes fits in the words that remain, and is not empty at a dash.
pub proof fn lemma_dash_run_bounds(words: Seq<Seq<char>>, i: int)
    ensures
        0 <= dash_run(words, i),
        0 <= i <= words.len() ==> dash_run(words, i) <= words.len() - i,
        0 <= i < words.len() && is_dash(words[i]) ==> dash_run(words, i) >= 1,
    decreases words.len() - i,
{
    if 0 <= i < words.len() && is_dash(words[i]) {
        lemma_dash_run_bounds(words, i + 1);
    }
}

/// Trimming the edges of a dictated command keeps a contiguous part of the
/// text that neither starts with `:`, `,`, `-` or white space nor ends with
/// `.`, `!`, `?`, `,` or white space, so trimming it again changes nothing.
pub proof fn lemma_command_edges(s: Seq<char>)
    ensures
        command_edges_trimmed(command_edges_trimmed(s)) == command_edges_trimmed(s),
        exists|i: int, j: int|
            0 <= i <= j <= s.len() && #[trigger] s.subrange(i, j) == command_edges_trimmed(s),
        command_edges_trimmed(s).len() > 0 ==> !in_class(
            CharClass::CommandLead,
            command_edges_trimmed(s)[0],
        ) && !in_class(CharClass::CommandTail, command_edges_trimmed(s).last()),
{
    let a = strip_start(s, CharClass::Space);
    let i1 = lemma_strip_start_suffix(s, CharClass::Space);
    let b = strip_end(a, CharClass::Space);
    let j1 = lemma_strip_end_prefix(a, CharClass::Space);
    let c = strip_start(b, CharClass::CommandLead);
    let i2 = lemma_strip_start_suffix(b, CharClass::CommandLead);
    let r = strip_end(c, CharClass::CommandTail);
    let j2 = lemma_strip_end_prefix(c, CharClass::CommandTail);
    assert(r == command_edges_trimmed(s));
    // r is s[i1 + i2 .. i1 + i2 + j2].
    assert(s.subrange(i1 + i2, i1 + i2 + j2) =~= r);
    if r.len() > 0 {
        assert(r[0] == c[0]);
        // What leads and trails r is outside the larger classes, so outside white space.
        assert(!in_class(CharClass::Space, r[0]));
        assert(!in_class(CharClass::Space, r.last()));
        assert(strip_start(r, CharClass::Space) == r);
        assert(strip_end(r, CharClass::Space) == r);
        assert(trim_whitespace(r) == r);
        assert(strip_start(r, CharClass::CommandLead) == r);
        assert(strip_end(r, CharClass::CommandTail) == r);
    } else {
        assert(trim_whitespace(r) =~= r);
        assert(strip_start(r, CharClass::CommandLead) =~= r);
        assert(strip_end(r, CharClass::CommandTail) =~= r);
    }
}

/// In ASCII text lowered letter by letter, the place where a dictated
/// command starts, if one is announced, is a character boundary.
proof fn lemma_ascii_command_start_valid(t: Seq<char>)
    requires
        is_ascii_chars(t),
        encode_utf8(t).len() <= usize::MAX,
    ensures
        command_start_is_valid(
            encode_utf8(t),
            encode_utf8(t.map_values(|c: char| ascii_lower_char(c))),
        ),
{
    broadcast use vstd::utf8::group_utf8_lib;

    let low = t.map_values(|c: char| ascii_lower_char(c));
    let text = encode_utf8(t);
    let lower = encode_utf8(low);
    assert forall|i: int| 0 <= i < low.len() implies '\0' <= #[trigger] low[i] <= '\u{7f}' by {
        assert(low[i] == ascii_lower_char(t[i]));
    }
    assert(is_ascii_chars(low));
    assert(text.len() == t.len());
    assert(lower.len() == low.len());
    assert(lower.len() == text.len());
    let n: int = match spec_command_start(text, lower) {
        CommandStart::At(k) => k as int,
        _ => 0,
    };
    if let CommandStart::At(k) = spec_command_start(text, lower) {
        match requested_marker(lower, the_command_marker()) {
            Some(i) => {
                assert(is_last_occurrence(lower, the_command_marker(), i));
                assert(k == i + the_command_marker().len());
            },
            None => match requested_marker(lower, command_marker()) {
                Some(i) => {
                    assert(is_last_occurrence(lower, command_marker(), i));
                    assert(k == i + command_marker().len());
                },
                None => {},
            },
        }
        assert(0 <= k <= text.len());
        if k < text.len() {
            assert(text[k as int] == t[k as int] as u8);
            assert(!is_continuation_byte(text[k as int]));
            assert(is_char_boundary(text, k as int));
        } else {
            assert(is_char_boundary(text, text.len() as int));
        }
    }
}

/// Each of the request words "output", "type", "write", "run" and "execute",
/// anywhere in the lowered text before a marker, makes that marker a request
/// for a command. So when the last " the command " of the lowered transcript
/// has one of them before it, the command starts right after that marker.
pub proof fn lemma_request_words(text: Seq<u8>, lower: Seq<u8>, i: int)
    ensures
        contains_bytes(lower.take(i), encode_utf8("output"@)) ==> asks_for_command(lower.take(i)),
        contains_bytes(lower.take(i), encode_utf8("type"@)) ==> asks_for_command(lower.take(i)),
        contains_bytes(lower.take(i), encode_utf8("write"@)) ==> asks_for_command(lower.take(i)),
        contains_bytes(lower.take(i), encode_utf8("run"@)) ==> asks_for_command(lower.take(i)),
        contains_bytes(lower.take(i), encode_utf8("execute"@)) ==> asks_for_command(lower.take(i)),
        is_last_occurrence(lower, the_command_marker(), i) && (contains_bytes(
            lower.take(i),
            encode_utf8("output"@),
        ) || contains_bytes(lower.take(i), encode_utf8("type"@)) || contains_bytes(
            lower.take(i),
            encode_utf8("write"@),
        ) || contains_bytes(lower.take(i), encode_utf8("run"@)) || contains_bytes(
            lower.take(i),
            encode_utf8("execute"@),
        )) ==> spec_command_start(text, lower) == CommandStart::At(
            (i + the_command_marker().len()) as usize,
        ),
{
    let m = the_command_marker();
    if is_last_occurrence(lower, m, i) {
        let j = choose|j: int| is_last_occurrence(lower, m, j);
        assert(is_last_occurrence(lower, m, j));
        assert(j <= i && i <= j);
        assert(last_occurrence(lower, m) == Some(i));
    }
}

/// Where an announced command starts, in terms of the markers themselves:
/// right after the last " the command " when a request word precedes it;
/// otherwise right after the last " command " when a request word precedes
/// that; otherwise, for a lowered text that begins with "command ", as many
/// bytes before the end as follow that prefix; and nowhere else.
pub proof fn lemma_command_markers(text: Seq<u8>, lower: Seq<u8>, i: int)
    ensures
        is_last_occurrence(lower, encode_utf8(" the command "@), i) && asks_for_command(
            lower.take(i),
        ) ==> spec_command_start(text, lower) == CommandStart::At((i + 13) as usize),
        requested_marker(lower, encode_utf8(" the command "@)) is None && is_last_occurrence(
            lower,
            encode_utf8(" command "@),
            i,
        ) && asks_for_command(lower.take(i)) ==> spec_command_start(text, lower)
            == CommandStart::At((i + 9) as usize),
        requested_marker(lower, encode_utf8(" the command "@)) is None && requested_marker(
            lower,
            encode_utf8(" command "@),
        ) is None && lower.len() >= 8 && lower.take(8) == encode_utf8("command "@) && lower.len()
            - 8 <= text.len() ==> spec_command_start(text, lower) == CommandStart::At(
            (text.len() - (lower.len() - 8)) as usize,
        ),
        requested_marker(lower, encode_utf8(" the command "@)) is None && requested_marker(
            lower,
            encode_utf8(" command "@),
        ) is None && !(lower.len() >= 8 && lower.take(8) == encode_utf8("command "@))
            ==> spec_command_start(text, lower) == CommandStart::Plain,
{
    broadcast use vstd::utf8::group_utf8_lib;

    reveal_strlit(" the command ");
    reveal_strlit(" command ");
    reveal_strlit("command ");
    assert(is_ascii_chars(" the command "@));
    assert(is_ascii_chars(" command "@));
    assert(is_ascii_chars("command "@));
    assert(the_command_marker().len() == 13);
    assert(command_marker().len() == 9);
    assert(command_prefix().len() == 8);
    if is_last_occurrence(lower, the_command_marker(), i) {
        let j = choose|j: int| is_last_occurrence(lower, the_command_marker(), j);
        assert(is_last_occurrence(lower, the_command_marker(), j));
        assert(last_occurrence(lower, the_command_marker()) == Some(i));
    }
    if is_last_occurrence(lower, command_marker(), i) {
        let j = choose|j: int| is_last_occurrence(lower, command_marker(), j);
        assert(is_last_occurrence(lower, command_marker(), j));
        assert(last_occurrence(lower, command_marker()) == Some(i));
    }
}

/// A spoken separator between two ordinary words joins them into one token
/// with its symbol: "dot" and "period" give `.`, "slash" `/`, "underscore"
/// `_` and "colon" `:`.
pub proof fn lemma_spoken_separators(a: Seq<char>, b: Seq<char>)
    requires
        a != "double"@,
        a != "dash"@,
        a != "hyphen"@,
        a != "minus"@,
        a != "dot"@,
        a != "period"@,
        a != "slash"@,
        a != "underscore"@,
        a != "colon"@,
    ensures
        rewrite_words(seq![a, "dot"@, b], 0, seq![]) == seq![a + seq!['.'] + b],
        rewrite_words(seq![a, "period"@, b], 0, seq![]) == seq![a + seq!['.'] + b],
        rewrite_words(seq![a, "slash"@, b], 0, seq![]) == seq![a + seq!['/'] + b],
        rewrite_words(seq![a, "underscore"@, b], 0, seq![]) == seq![a + seq!['_'] + b],
        rewrite_words(seq![a, "colon"@, b], 0, seq![]) == seq![a + seq![':'] + b],
{
    reveal_strlit("double");
    reveal_strlit("dash");
    reveal_strlit("hyphen");
    reveal_strlit("minus");
    reveal_strlit("dot");
    reveal_strlit("period");
    reveal_strlit("slash");
    reveal_strlit("underscore");
    reveal_strlit("colon");
    assert("dot"@.len() != "double"@.len());
    assert("period"@[0] != "double"@[0]);
    assert("slash"@.len() != "double"@.len());
    assert("underscore"@.len() != "double"@.len());
    assert("colon"@.len() != "double"@.len());
    assert("slash"@[0] != "minus"@[0]);
    assert("colon"@[0] != "minus"@[0]);
    lemma_separator_glues(a, "dot"@, b);
    lemma_separator_glues(a, "period"@, b);
    lemma_separator_glues(a, "slash"@, b);
    lemma_separator_glues(a, "underscore"@, b);
    lemma_separator_glues(a, "colon"@, b);
}

/// Spoken dashes become flags: "dash", "hyphen" or "minus" before a word
/// gives `-word`; "double dash" or two dashes before a word give `--word`.
pub proof fn lemma_spoken_dashes(a: Seq<char>, b: Seq<char>)
    requires
        a != "double"@,
        a != "dash"@,
        a != "hyphen"@,
        a != "minus"@,
        a != "dot"@,
        a != "period"@,
        a != "slash"@,
        a != "underscore"@,
        a != "colon"@,
        b != "dash"@,
        b != "hyphen"@,
        b != "minus"@,
    ensures
        rewrite_words(seq![a, "dash"@, b], 0, seq![]) == seq![a, seq!['-'] + b],
        rewrite_words(seq![a, "hyphen"@, b], 0, seq![]) == seq![a, seq!['-'] + b],
        rewrite_words(seq![a, "minus"@, b], 0, seq![]) == seq![a, seq!['-'] + b],
        rewrite_words(seq!["double"@, "dash"@, b], 0, seq![]) == seq![seq!['-', '-'] + b],
        rewrite_words(seq!["dash"@, "dash"@, b], 0, seq![]) == seq![seq!['-', '-'] + b],
{
    reveal_strlit("double");
    reveal_strlit("dash");
    reveal_strlit("hyphen");
    reveal_strlit("minus");
    reveal_strlit("dot");
    reveal_strlit("period");
    reveal_strlit("slash");
    reveal_strlit("underscore");
    reveal_strlit("colon");
    assert("dash"@.len() != "double"@.len());
    assert("hyphen"@[0] != "double"@[0]);
    assert("minus"@.len() != "double"@.len());
    lemma_dash_flag(a, "dash"@, b);
    lemma_dash_flag(a, "hyphen"@, b);
    lemma_dash_flag(a, "minus"@, b);
    let w1 = seq!["double"@, "dash"@, b];
    assert(rewrite_words(w1, 3, seq![long_flag(Some(b))]) == seq![long_flag(Some(b))]);
    assert(rewrite_words(w1, 0, seq![]) == rewrite_words(w1, 3, seq![long_flag(Some(b))]));
    let w2 = seq!["dash"@, "dash"@, b];
    assert(dash_run(w2, 2) == 0);
    assert(dash_run(w2, 1) == 1);
    assert(dash_run(w2, 0) == 2);
    assert(rewrite_words(w2, 3, seq![long_flag(Some(b))]) == seq![long_flag(Some(b))]);
    assert(rewrite_words(w2, 0, seq![]) == rewrite_words(w2, 3, seq![long_flag(Some(b))]));
}

/// Rewriting `[a, w, b]` for an ordinary `a`, a dash word `w` and a `b`
/// that is no dash.
proof fn lemma_dash_flag(a: Seq<char>, w: Seq<char>, b: Seq<char>)
    requires
        a != "double"@,
        !is_dash(a),
        !is_symbol_word(a),
        is_dash(w),
        w != "double"@,
        !is_dash(b),
    ensures
        rewrite_words(seq![a, w, b], 0, seq![]) == seq![a, seq!['-'] + b],
{
    let ws = seq![a, w, b];
    assert(dash_run(ws, 2) == 0);
    assert(dash_run(ws, 1) == 1);
    let o2 = seq![a].push(seq!['-'] + b);
    assert(rewrite_words(ws, 3, o2) == o2);
    assert(rewrite_words(ws, 1, seq![a]) == rewrite_words(ws, 3, o2));
    assert(rewrite_words(ws, 0, seq![]) == rewrite_words(ws, 1, seq![a]));
    assert(o2 =~= seq![a, seq!['-'] + b]);
}

/// Rewriting `[a, w, b]` for an ordinary `a` and a separator `w`.
proof fn lemma_separator_glues(a: Seq<char>, w: Seq<char>, b: Seq<char>)
    requires
        a != "double"@,
        !is_dash(a),
        !is_symbol_word(a),
        is_symbol_word(w),
        w != "double"@,
        !is_dash(w),
    ensures
        rewrite_words(seq![a, w, b], 0, seq![]) == seq![a + seq![symbol_of(w)] + b],
{
    let ws = seq![a, w, b];
    let o1 = seq![a];
    let o2 = o1.drop_last().push(o1.last() + (seq![symbol_of(w)] + b));
    assert(rewrite_words(ws, 3, o2) == o2);
    assert(rewrite_words(ws, 1, o1) == rewrite_words(ws, 3, o2));
    assert(rewrite_words(ws, 0, seq![]) == rewrite_words(ws, 1, o1));
    assert(a + (seq![symbol_of(w)] + b) =~= a + seq![symbol_of(w)] + b);
    assert(o2 =~= seq![a + seq![symbol_of(w)] + b]);
}

/// A blank transcript normalises to the empty text.
pub proof fn lemma_blank_is_empty(raw: Seq<char>)
    requires
        trim_whitespace(raw).len() == 0,
    ensures
        transcript_is_normalizable(raw),
        normalized_transcript(raw) == Seq::<char>::empty(),
{
}

/// Dictation that neither announces a command nor starts with a program name
/// comes back as it was said, only without surrounding white space.
pub proof fn lemma_plain_dictation_is_only_trimmed(raw: Seq<char>)
    requires
        trim_whitespace(raw).len() > 0,
        spec_command_start(
            encode_utf8(trim_whitespace(raw)),
            encode_utf8(unicode_lowercase(trim_whitespace(raw))),
        ) == CommandStart::Plain,
        !starts_with_program(trim_whitespace(raw)),
    ensures
        transcript_is_normalizable(raw),
        normalized_transcript(raw) == trim_whitespace(raw),
{
}

// ---------------------------------------------------------------------------
// Executable pipeline
// ---------------------------------------------------------------------------

/// The same word as a vector and as an element of a deep view.
proof fn lemma_word_view(v: &Vec<Vec<char>>, i: int)
    requires
        0 <= i < v@.len(),
    ensures
        v.deep_view()[i] == v@[i]@,
{
    assert(v@[i].deep_view() =~= v@[i]@);
}

/// Appends a word to a list of words.
fn push_word(out: &mut Vec<Vec<char>>, w: Vec<char>)
    ensures
        final(out).deep_view() == old(out).deep_view().push(w@),
{
    let ghost before = out.deep_view();
    let ghost wv = w@;
    assert(w.deep_view() =~= wv);
    out.push(w);
    assert(out.deep_view() =~= before.push(wv));
}

/// Removes and returns the last word of a non-empty list of words.
fn pop_word(out: &mut Vec<Vec<char>>) -> (w: Vec<char>)
    requires
        old(out)@.len() > 0,
    ensures
        w@ == old(out).deep_view().last(),
        final(out).deep_view() == old(out).deep_view().drop_last(),
{
    let ghost before = out.deep_view();
    proof {
        lemma_word_view(out, out@.len() - 1);
    }
    let w = out.pop().unwrap();
    assert(out.deep_view() =~= before.drop_last());
    w
}

/// Appends the characters of `src` to `dst`.
fn append_chars(dst: &mut Vec<char>, src: &[char])
    ensures
        final(dst)@ == old(dst)@ + src@,
{
    let ghost before = dst@;
    let n = src.len();
    let mut i: usize = 0;
    while i < n
        invariant
            n == src@.len(),
            i <= n,
            dst@ == before + src@.take(i as int),
        decreases n - i,
    {
        dst.push(src[i]);
        i += 1;
        assert(dst@ =~= before + src@.take(i as int));
    }
    assert(src@.take(n as int) =~= src@);
}

/// Whether `pat` occurs in `hay` at byte `i`.
fn occurs_at_exec(hay: &[u8], pat: &[u8], i: usize) -> (r: bool)
    ensures
        r == occurs_at(hay@, pat@, i as int),
{
    let m = pat.len();
    if i > hay.len() || m > hay.len() - i {
        return false;
    }
    let mut k: usize = 0;
    while k < m
        invariant
            m == pat@.len(),
            i + m <= hay@.len(),
            hay@.len() == hay.len(),
            k <= m,
            forall|j: int| 0 <= j < k ==> hay@[i + j] == pat@[j],
        decreases m - k,
    {
        if hay[i + k] != pat[k] {
            assert(hay@.subrange(i as int, i + m)[k as int] != pat@[k as int]);
            return false;
        }
        k += 1;
    }
    assert(hay@.subrange(i as int, i + m) =~= pat@);
    true
}

/// Whether `pat` occurs in `hay`.
fn contains_exec(hay: &[u8], pat: &[u8]) -> (r: bool)
    ensures
        r == contains_bytes(hay@, pat@),
{
    let m = pat.len();
    if m == 0 {
        assert(hay@.subrange(0, 0) =~= pat@);
        assert(occurs_at(hay@, pat@, 0));
        return true;
    }
    if m > hay.len() {
        return false;
    }
    let top = hay.len() - m;
    let mut i: usize = 0;
    while i <= top
        invariant
            top + m == hay@.len(),
            hay@.len() == hay.len(),
            m == pat@.len(),
            m >= 1,
            forall|j: int| 0 <= j < i ==> !occurs_at(hay@, pat@, j),
        decreases top + 1 - i,
    {
        if occurs_at_exec(hay, pat, i) {
            return true;
        }
        i += 1;
    }
    false
}

/// The start of the last occurrence of `pat` in `hay` (`str::rfind` on the bytes).
fn last_occurrence_exec(hay: &[u8], pat: &[u8]) -> (r: Option<usize>)
    ensures
        r matches Some(i) ==> last_occurrence(hay@, pat@) == Some(i as int),
        r is None ==> last_occurrence(hay@, pat@) is None,
{
    let m = pat.len();
    if m > hay.len() {
        assert forall|i: int| !is_last_occurrence(hay@, pat@, i) by {}
        return None;
    }
    if m == 0 {
        let i = hay.len();
        proof {
            assert(hay@.subrange(i as int, i as int) =~= pat@);
            assert(is_last_occurrence(hay@, pat@, i as int));
            let c = choose|x: int| is_last_occurrence(hay@, pat@, x);
            assert(c == i);
        }
        return Some(i);
    }
    let mut k: usize = hay.len() - m + 1;
    while k > 0
        invariant
            k + m <= hay@.len() + 1,
            m == pat@.len(),
            forall|j: int| k <= j ==> !occurs_at(hay@, pat@, j),
        decreases k,
    {
        if occurs_at_exec(hay, pat, k - 1) {
            let i = k - 1;
            proof {
                assert(is_last_occurrence(hay@, pat@, i as int));
                let c = choose|x: int| is_last_occurrence(hay@, pat@, x);
                assert(c == i);
            }
            return Some(i);
        }
        k -= 1;
    }
    assert forall|i: int| !is_last_occurrence(hay@, pat@, i) by {}
    None
}

/// Whether the lowered text before a marker holds a request word.
fn asks_for_command_exec(before: &[u8]) -> (r: bool)
    ensures
        r == asks_for_command(before@),
{
    contains_exec(before, "output".as_bytes()) || contains_exec(before, "type".as_bytes())
        || contains_exec(before, "write".as_bytes()) || contains_exec(before, "run".as_bytes())
        || contains_exec(before, "execute".as_bytes())
}

/// The marker's last occurrence in `lower`, when a request word precedes it.
fn requested_marker_exec(lower: &[u8], marker: &[u8]) -> (r: Option<usize>)
    ensures
        r matches Some(i) ==> requested_marker(lower@, marker@) == Some(i as int) && i
            + marker@.len() <= lower.len(),
        r is None ==> requested_marker(lower@, marker@) is None,
{
    match last_occurrence_exec(lower, marker) {
        Some(i) => {
            assert(lower@.subrange(0, i as int) =~= lower@.take(i as int));
            if asks_for_command_exec(slice_subrange(lower, 0, i)) {
                Some(i)
            } else {
                None
            }
        },
        None => None,
    }
}

/// Locates a dictated command in the bytes of a trimmed transcript, given the
/// bytes of its lowercase form.
pub fn command_start(text: &[u8], lower: &[u8]) -> (r: CommandStart)
    ensures
        r == spec_command_start(text@, lower@),
{
    let m1 = " the command ".as_bytes();
    match requested_marker_exec(lower, m1) {
        Some(i) => {
            return CommandStart::At(i + m1.len());
        },
        None => {},
    }
    let m2 = " command ".as_bytes();
    match requested_marker_exec(lower, m2) {
        Some(i) => {
            return CommandStart::At(i + m2.len());
        },
        None => {},
    }
    let p = "command ".as_bytes();
    if lower.len() >= p.len() && occurs_at_exec(lower, p, 0) {
        assert(lower@.subrange(0, p@.len() as int) =~= lower@.take(p@.len() as int));
        let rest = lower.len() - p.len();
        if rest <= text.len() {
            CommandStart::At(text.len() - rest)
        } else {
            CommandStart::OutOfRange
        }
    } else {
        proof {
            if lower@.len() >= p@.len() {
                assert(lower@.subrange(0, p@.len() as int) =~= lower@.take(p@.len() as int));
            }
        }
        CommandStart::Plain
    }
}

/// Strips command edges: white space, then leading `:`/`,`/`-` and trailing
/// `.`/`!`/`?`/`,`.
/// Strips a dictated command's edges: surrounding white space, then leading
/// `:`, `,`, `-` and trailing `.`, `!`, `?`, `,`. What is left is a
/// contiguous part of the input, its edges are clean, and trimming it again
/// changes nothing.
pub fn trim_command_edges(v: &[char]) -> (out: Vec<char>)
    ensures
        out@ == command_edges_trimmed(v@),
        command_edges_trimmed(out@) == out@,
        exists|i: int, j: int| 0 <= i <= j <= v@.len() && #[trigger] v@.subrange(i, j) == out@,
        out@.len() > 0 ==> !in_class(CharClass::CommandLead, out@[0]) && !in_class(
            CharClass::CommandTail,
            out@.last(),
        ),
{
    proof {
        lemma_command_edges(v@);
    }
    let t = strip_class(v, CharClass::Space);
    let n = t.len();
    let lo = skip_start(&t, 0, n, CharClass::CommandLead);
    let hi = skip_end(&t, lo, n, CharClass::CommandTail);
    assert(t@.subrange(0, n as int) =~= t@);
    slice_to_vec(slice_subrange(&t, lo, hi))
}

/// Cuts the dictated command out of a trimmed transcript, or returns the
/// whole transcript when none is announced.
fn extract_command(text: &str) -> (r: (Vec<char>, bool))
    requires
        command_start_is_valid(encode_utf8(text@), encode_utf8(unicode_lowercase(text@))),
    ensures
        (r.0@, r.1) == extracted_command(text@),
{
    let lower = to_lowercase(text);
    match command_start(text.as_bytes(), lower.as_str().as_bytes()) {
        CommandStart::At(n) => {
            let (_, rest) = text.split_at(n);
            proof {
                vstd::utf8::encode_utf8_decode_utf8(rest@);
            }
            let cs = chars_of(rest);
            (trim_command_edges(&cs), true)
        },
        _ => (chars_of(text), false),
    }
}

/// A spoken dash: "dash", "hyphen" or "minus".
fn is_dash_word(w: &[char]) -> (r: bool)
    ensures
        r == is_dash(w@),
{
    chars_eq_str(w, "dash") || chars_eq_str(w, "hyphen") || chars_eq_str(w, "minus")
}

/// A spoken separator: "dot", "period", "slash", "underscore" or "colon".
fn is_symbol_word_exec(w: &[char]) -> (r: bool)
    ensures
        r == is_symbol_word(w@),
{
    chars_eq_str(w, "dot") || chars_eq_str(w, "period") || chars_eq_str(w, "slash")
        || chars_eq_str(w, "underscore") || chars_eq_str(w, "colon")
}

/// The character that a spoken separator stands for.
fn symbol_of_exec(w: &[char]) -> (r: char)
    ensures
        r == symbol_of(w@),
{
    if chars_eq_str(w, "slash") {
        '/'
    } else if chars_eq_str(w, "underscore") {
        '_'
    } else if chars_eq_str(w, "colon") {
        ':'
    } else {
        '.'
    }
}

/// Whether a cleaned word names one of the known command-line programs.
fn is_program_name_exec(w: &[char]) -> (r: bool)
    ensures
        r == is_program_name(w@),
{
    chars_eq_str(w, "bun") || chars_eq_str(w, "cargo") || chars_eq_str(w, "cd") || chars_eq_str(
        w,
        "cp",
    ) || chars_eq_str(w, "deno") || chars_eq_str(w, "docker") || chars_eq_str(w, "git")
        || chars_eq_str(w, "go") || chars_eq_str(w, "kubectl") || chars_eq_str(w, "ls")
        || chars_eq_str(w, "mkdir") || chars_eq_str(w, "mv") || chars_eq_str(w, "node")
        || chars_eq_str(w, "npm") || chars_eq_str(w, "npx") || chars_eq_str(w, "pnpm")
        || chars_eq_str(w, "python") || chars_eq_str(w, "python3") || chars_eq_str(w, "rm")
        || chars_eq_str(w, "rustc") || chars_eq_str(w, "ssh") || chars_eq_str(w, "uv")
        || chars_eq_str(w, "uvx") || chars_eq_str(w, "yarn")
}

/// A spoken word without surrounding quotes and punctuation, in lowercase.
fn clean_word(w: &[char]) -> (out: Vec<char>)
    ensures
        out@ == cleaned(w@),
{
    let stripped = strip_class(w, CharClass::WordEdge);
    let s = string_of(&stripped);
    let lowered = to_lowercase(s.as_str());
    chars_of(lowered.as_str())
}

/// Whether the first word of `v`, cleaned, is a known program name.
fn looks_like_command(v: &[char]) -> (r: bool)
    ensures
        r == starts_with_program(v@),
{
    let words = split_whitespace(v);
    if words.len() == 0 {
        return false;
    }
    proof {
        lemma_word_view(&words, 0);
    }
    let first = clean_word(&words[0]);
    is_program_name_exec(&first)
}

/// The non-empty cleaned words of `words`, in order.
fn clean_all(words: &Vec<Vec<char>>) -> (out: Vec<Vec<char>>)
    ensures
        out.deep_view() == cleaned_words(words.deep_view()),
{
    let ghost ws = words.deep_view();
    let mut out: Vec<Vec<char>> = Vec::new();
    let n = words.len();
    let mut i: usize = 0;
    while i < n
        invariant
            n == words@.len(),
            ws == words.deep_view(),
            i <= n,
            out.deep_view() == cleaned_words(ws.take(i as int)),
        decreases n - i,
    {
        proof {
            lemma_word_view(words, i as int);
        }
        assert(ws.take(i + 1).drop_last() =~= ws.take(i as int));
        let c = clean_word(&words[i]);
        if c.len() > 0 {
            push_word(&mut out, c);
        }
        i += 1;
    }
    assert(ws.take(n as int) =~= ws);
    out
}

/// Appends `--next` (or `--` at the end of the words) to the tokens.
fn push_double_dash(out: &mut Vec<Vec<char>>, next: Option<&Vec<char>>)
    ensures
        final(out).deep_view() == old(out).deep_view().push(
            long_flag(
                match next {
                    Some(w) => Some(w@),
                    None => None,
                },
            ),
        ),
{
    let mut flag: Vec<char> = Vec::new();
    flag.push('-');
    flag.push('-');
    match next {
        Some(w) => append_chars(&mut flag, w),
        None => {},
    }
    assert(flag@ =~= long_flag(
        match next {
            Some(w) => Some(w@),
            None => None,
        },
    ));
    push_word(out, flag);
}

/// Rewrites cleaned spoken words into command tokens (`rewrite_words`).
pub fn normalize_words(words: &Vec<Vec<char>>) -> (out: Vec<Vec<char>>)
    ensures
        out.deep_view() == rewrite_words(words.deep_view(), 0, seq![]),
{
    let ghost ws = words.deep_view();
    let n = words.len();
    let mut out: Vec<Vec<char>> = Vec::new();
    let mut i: usize = 0;
    assert(out.deep_view() =~= Seq::<Seq<char>>::empty());
    while i < n
        invariant
            n == words@.len(),
            n == ws.len(),
            ws == words.deep_view(),
            i <= n,
            rewrite_words(ws, 0, seq![]) == rewrite_words(ws, i as int, out.deep_view()),
        decreases n - i,
    {
        proof {
            lemma_word_view(words, i as int);
            if i + 1 < n {
                lemma_word_view(words, i + 1);
            }
            if i + 2 < n {
                lemma_word_view(words, i + 2);
            }
        }
        let w = &words[i];
        if chars_eq_str(w, "double") && i + 1 < n && is_dash_word(&words[i + 1]) {
            if i + 2 < n {
                push_double_dash(&mut out, Some(&words[i + 2]));
                i = i + 3;
            } else {
                push_double_dash(&mut out, None);
                i = i + 2;
            }
        } else if is_dash_word(w) {
            let mut count: usize = 1;
            proof {
                lemma_dash_run_bounds(ws, i + 1);
            }
            while i + count < n && is_dash_word(&words[i + count])
                invariant
                    n == words@.len(),
                    n == ws.len(),
                    ws == words.deep_view(),
                    i < n,
                    1 <= count,
                    i + count <= n,
                    dash_run(ws, i as int) == count + dash_run(ws, i + count),
                decreases n - i - count,
            {
                proof {
                    lemma_word_view(words, i + count);
                }
                count += 1;
            }
            proof {
                if i + count < n {
                    lemma_word_view(words, i + count);
                }
            }
            if count >= 2 {
                if i + count < n {
                    push_double_dash(&mut out, Some(&words[i + count]));
                    i = i + count + 1;
                } else {
                    push_double_dash(&mut out, None);
                    i = i + count;
                }
            } else if i + 1 < n {
                let mut flag: Vec<char> = Vec::new();
                flag.push('-');
                append_chars(&mut flag, &words[i + 1]);
                push_word(&mut out, flag);
                i = i + 2;
            } else {
                let mut flag: Vec<char> = Vec::new();
                flag.push('-');
                push_word(&mut out, flag);
                i = i + 1;
            }
        } else if is_symbol_word_exec(w) && i + 1 < n {
            let mut glued: Vec<char> = Vec::new();
            glued.push(symbol_of_exec(w));
            append_chars(&mut glued, &words[i + 1]);
            if out.len() > 0 {
                let mut prev = pop_word(&mut out);
                append_chars(&mut prev, &glued);
                push_word(&mut out, prev);
            } else {
                push_word(&mut out, glued);
            }
            i = i + 2;
        } else {
            let kept = slice_to_vec(w.as_slice());
            push_word(&mut out, kept);
            i = i + 1;
        }
    }
    out
}

/// Rewrites a dictated command ("cargo run dash dash release") into the
/// command it spells ("cargo run --release").
fn normalize_command(v: &[char]) -> (out: String)
    ensures
        out@ == normalized_command(v@),
{
    let t = trim_command_edges(v);
    let words = split_whitespace(&t);
    let cleaned_ws = clean_all(&words);
    let tokens = normalize_words(&cleaned_ws);
    join_with_spaces(&tokens)
}

/// Normalises a raw transcript: blank input gives an empty string; a
/// transcript that announces a command ("... output the command ...") or
/// starts with a known program name becomes that command with spoken
/// symbols rewritten; any other transcript is returned trimmed.
pub fn normalize_transcript(raw: &str) -> (out: String)
    requires
        transcript_is_normalizable(raw@),
    ensures
        out@ == normalized_transcript(raw@),
{
    let cs = chars_of(raw);
    let t = strip_class(&cs, CharClass::Space);
    if t.len() == 0 {
        return String::new();
    }
    let text = string_of(&t);
    let (command, announced) = extract_command(text.as_str());
    if announced || looks_like_command(&command) {
        normalize_command(&command)
    } else {
        text
    }
}

/// Normalises a raw transcript when `normalize_transcript` is defined on it,
/// and gives `None` on the transcripts whose announced command would start
/// inside a character of the transcript. An ASCII transcript is always
/// normalised.
pub fn try_normalize_transcript(raw: &str) -> (out: Option<String>)
    ensures
        out is Some <==> transcript_is_normalizable(raw@),
        out matches Some(s) ==> s@ == normalized_transcript(raw@),
        is_ascii_chars(raw@) ==> out is Some,
{
    let cs = chars_of(raw);
    let t = strip_class(&cs, CharClass::Space);
    if t.len() == 0 {
        return Some(normalize_transcript(raw));
    }
    let text = string_of(&t);
    let lower = to_lowercase(text.as_str());
    let text_bytes = text.as_str().as_bytes();
    let text_len = text_bytes.len();
    proof {
        if is_ascii_chars(raw@) {
            let a = strip_start(raw@, CharClass::Space);
            let i = lemma_strip_start_suffix(raw@, CharClass::Space);
            let j = lemma_strip_end_prefix(a, CharClass::Space);
            assert forall|k: int| 0 <= k < text@.len() implies '\0' <= #[trigger] text@[k] <= '\u{7f}' by {
                assert(text@[k] == raw@[i + k]);
            }
            assert(text_bytes@.len() == text_len);
            lemma_ascii_command_start_valid(text@);
        }
    }
    let valid = match command_start(text_bytes, lower.as_str().as_bytes()) {
        CommandStart::Plain => true,
        CommandStart::At(n) => text.as_str().is_char_boundary(n),
        CommandStart::OutOfRange => false,
    };
    if valid {
        Some(normalize_transcript(raw))
    } else {
        None
    }
}

} // verus!
