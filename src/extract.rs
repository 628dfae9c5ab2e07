use vstd::prelude::*;

use vstd::utf8::encode_utf8;

use crate::digest::{base64url, base64url_of, sha256, sha256_of};
use crate::markdown::{
    count_bytes, events_view, markdown_events, occurrences, parse_markdown,
    MdEvent, MdEventView, ParsedEvent,
};
use crate::text::{
    ascii_lower, chars_eq, chars_of, chars_start_with, char_is_alphanumeric, char_is_whitespace,
    is_ascii_alnum, is_ascii_alphanumeric, push_char, push_chars, push_str_chars, string_of, to_ascii_lower,
    unicode_alphanumeric, unicode_whitespace,
};

verus! {

// ---------------------------------------------------------------------------
// Section names
// ---------------------------------------------------------------------------

/// Scans `s` from the left: the sanitized text so far, and whether a
/// separator is owed before the next kept character.
pub open spec fn sanitize_state(s: Seq<char>) -> (Seq<char>, bool)
    decreases s.len(),
{
    if s.len() == 0 {
        (Seq::empty(), false)
    } else {
        let prev = sanitize_state(s.drop_last());
        let c = s.last();
        if is_ascii_alnum(c) {
            let out = if prev.1 { prev.0.push('_') } else { prev.0 };
            (out.push(ascii_lower(c)), false)
        } else {
            (prev.0, prev.0.len() > 0)
        }
    }
}

/// The ASCII letters and digits of `s` in lower case, each run of other
/// characters between two of them replaced by one `_`, and runs at the ends
/// dropped.
pub open spec fn sanitized(s: Seq<char>) -> Seq<char> {
    sanitize_state(s).0
}

/// Turns a heading into a name part: lower-case ASCII letters and digits,
/// with `_` for each run of anything else, and no `_` at either end.
pub fn sanitize_test_name(s: &str) -> (r: String)
    ensures
        r@ == sanitized(s@),
{
    let cs = chars_of(s);
    let mut out: Vec<char> = Vec::new();
    let mut pending = false;
    let mut i: usize = 0;
    while i < cs.len()
        invariant
            i <= cs@.len(),
            cs@ == s@,
            sanitize_state(cs@.take(i as int)) == (out@, pending),
        decreases cs@.len() - i,
    {
        let c = cs[i];
        assert(cs@.take(i + 1).drop_last() == cs@.take(i as int));
        if is_ascii_alphanumeric(c) {
            if pending {
                out.push('_');
            }
            out.push(to_ascii_lower(c));
            pending = false;
        } else {
            pending = out.len() > 0;
        }
        i = i + 1;
    }
    assert(cs@.take(cs@.len() as int) == cs@);
    string_of(out.as_slice())
}

// ---------------------------------------------------------------------------
// Info strings of fenced code blocks
// ---------------------------------------------------------------------------

/// Characters that belong to a token of an info string.
pub open spec fn is_token_char(c: char) -> bool {
    c == '_' || c == '-' || unicode_alphanumeric(c)
}

/// The pieces of `s` between delimiters, empty ones included, in order.
pub open spec fn split_tokens(s: Seq<char>) -> Seq<Seq<char>>
    decreases s.len(),
{
    if s.len() == 0 {
        seq![Seq::empty()]
    } else {
        let t = split_tokens(s.drop_last());
        if is_token_char(s.last()) {
            t.update(t.len() - 1, t.last().push(s.last()))
        } else {
            t.push(Seq::empty())
        }
    }
}

pub open spec fn has_prefix(t: Seq<char>, p: Seq<char>) -> bool {
    p.len() <= t.len() && t.take(p.len() as int) == p
}

/// Tokens that the harness understands.
pub open spec fn is_known_tag(t: Seq<char>) -> bool {
    t == "rust"@ || t == "should_panic"@ || t == "ignore"@ || t == "compile_fail"@
        || t == "no_run"@ || t == "skeptic-template"@ || has_prefix(t, "skt-"@)
}

pub open spec fn has_known_tag(toks: Seq<Seq<char>>) -> bool {
    exists|k: int| 0 <= k < toks.len() && is_known_tag(#[trigger] toks[k])
}

pub open spec fn has_other_tag(toks: Seq<Seq<char>>) -> bool {
    exists|k: int| 0 <= k < toks.len() && (#[trigger] toks[k]).len() > 0 && !is_known_tag(toks[k])
}

/// The name after the last `skt-` token, if any.
pub open spec fn template_of(toks: Seq<Seq<char>>) -> Option<Seq<char>>
    decreases toks.len(),
{
    if toks.len() == 0 {
        None
    } else if has_prefix(toks.last(), "skt-"@) {
        Some(toks.last().skip(4))
    } else {
        template_of(toks.drop_last())
    }
}

pub open spec fn opt_view(o: Option<String>) -> Option<Seq<char>> {
    match o {
        Some(s) => Some(s@),
        None => None,
    }
}

/// What the info string of a fenced code block says about it.
#[derive(Debug, Clone)]
pub struct CodeBlockInfo {
    pub is_rust: bool,
    pub should_panic: bool,
    pub ignore: bool,
    pub compile_fail: bool,
    pub no_run: bool,
    pub is_old_template: bool,
    pub template: Option<String>,
}

/// Whether a block with these tokens holds source code: it carries `rust`, and
/// a recognized tag outweighs unrecognized ones.
pub open spec fn tagged_rust(toks: Seq<Seq<char>>) -> bool {
    toks.contains("rust"@) && (!has_other_tag(toks) || has_known_tag(toks))
}

/// The meaning of an info string given as its list of tokens.
pub open spec fn info_matches(r: CodeBlockInfo, toks: Seq<Seq<char>>) -> bool {
    &&& r.is_rust == tagged_rust(toks)
    &&& r.should_panic == toks.contains("should_panic"@)
    &&& r.ignore == toks.contains("ignore"@)
    &&& r.compile_fail == toks.contains("compile_fail"@)
    &&& r.no_run == toks.contains("no_run"@)
    &&& r.is_old_template == toks.contains("skeptic-template"@)
    &&& opt_view(r.template) == template_of(toks)
}

proof fn lemma_push_contains(done: Seq<Seq<char>>, tok: Seq<char>, w: Seq<char>)
    ensures
        done.push(tok).contains(w) == (done.contains(w) || tok == w),
{
    let all = done.push(tok);
    assert(all[done.len() as int] == tok);
    if done.contains(w) {
        let k = choose|k: int| 0 <= k < done.len() && done[k] == w;
        assert(all[k] == w);
    }
    if all.contains(w) && tok != w {
        let k = choose|k: int| 0 <= k < all.len() && all[k] == w;
        assert(done[k] == w);
    }
}

/// Whether the token is the given word.
fn token_is(tok: &[char], w: &str) -> (r: bool)
    ensures
        r == (tok@ == w@),
{
    let wc = chars_of(w);
    chars_eq(tok, wc.as_slice())
}

/// Takes one more token of an info string into account.
fn take_token(
    info: &mut CodeBlockInfo,
    seen_known: &mut bool,
    seen_other: &mut bool,
    tok: &[char],
    Ghost(done): Ghost<Seq<Seq<char>>>,
)
    requires
        info_matches(*old(info), done),
        *old(seen_known) == has_known_tag(done),
        *old(seen_other) == has_other_tag(done),
        !old(info).is_rust || *old(seen_known),
    ensures
        info_matches(*final(info), done.push(tok@)),
        *final(seen_known) == has_known_tag(done.push(tok@)),
        *final(seen_other) == has_other_tag(done.push(tok@)),
        !final(info).is_rust || *final(seen_known),
{
    let ghost all = done.push(tok@);
    assert(all[done.len() as int] == tok@);
    proof {
        lemma_push_contains(done, tok@, "rust"@);
        lemma_push_contains(done, tok@, "should_panic"@);
        lemma_push_contains(done, tok@, "ignore"@);
        lemma_push_contains(done, tok@, "compile_fail"@);
        lemma_push_contains(done, tok@, "no_run"@);
        lemma_push_contains(done, tok@, "skeptic-template"@);
    }
    assert(has_known_tag(all) == (has_known_tag(done) || is_known_tag(tok@))) by {
        if has_known_tag(done) {
            let k = choose|k: int| 0 <= k < done.len() && is_known_tag(done[k]);
            assert(all[k] == done[k]);
        }
        if has_known_tag(all) && !is_known_tag(tok@) {
            let k = choose|k: int| 0 <= k < all.len() && is_known_tag(all[k]);
            assert(done[k] == all[k]);
        }
    }
    assert(has_other_tag(all) == (has_other_tag(done) || (tok@.len() > 0 && !is_known_tag(tok@))))
        by {
        if has_other_tag(done) {
            let k = choose|k: int| 0 <= k < done.len() && done[k].len() > 0 && !is_known_tag(done[k]);
            assert(all[k] == done[k]);
        }
        if has_other_tag(all) && !(tok@.len() > 0 && !is_known_tag(tok@)) {
            let k = choose|k: int| 0 <= k < all.len() && all[k].len() > 0 && !is_known_tag(all[k]);
            assert(done[k] == all[k]);
        }
    }
    assert(all.drop_last() == done);
    let skt = chars_of("skt-");
    proof {
        reveal_strlit("skt-");
        reveal_strlit("rust");
        reveal_strlit("should_panic");
        reveal_strlit("ignore");
        reveal_strlit("compile_fail");
        reveal_strlit("no_run");
        reveal_strlit("skeptic-template");
        assert("should_panic"@[0] != "compile_fail"@[0]);
        assert("ignore"@[0] != "no_run"@[0]);
        assert("skeptic-template"@.take(4)[2] != "skt-"@[2]);
        assert("should_panic"@.take(4)[1] != "skt-"@[1]);
        assert("compile_fail"@.take(4)[0] != "skt-"@[0]);
        assert("ignore"@.take(4)[0] != "skt-"@[0]);
        assert("no_run"@.take(4)[0] != "skt-"@[0]);
        assert("rust"@.take(4)[0] != "skt-"@[0]);
    }
    if tok.len() == 0 {
    } else if token_is(tok, "rust") {
        info.is_rust = true;
        *seen_known = true;
    } else if token_is(tok, "should_panic") {
        info.should_panic = true;
        *seen_known = true;
    } else if token_is(tok, "ignore") {
        info.ignore = true;
        *seen_known = true;
    } else if token_is(tok, "compile_fail") {
        info.compile_fail = true;
        *seen_known = true;
    } else if token_is(tok, "no_run") {
        info.no_run = true;
        *seen_known = true;
    } else if token_is(tok, "skeptic-template") {
        info.is_old_template = true;
        *seen_known = true;
    } else if chars_start_with(tok, skt.as_slice()) {
        let rest = vstd::slice::slice_subrange(tok, 4, tok.len());
        info.template = Some(string_of(rest));
        *seen_known = true;
    } else {
        *seen_other = true;
    }
    proof {
        if all.contains("rust"@) {
            let k = choose|k: int| 0 <= k < all.len() && all[k] == "rust"@;
            assert(is_known_tag(all[k]));
        }
        if done.contains("rust"@) {
            let k = choose|k: int| 0 <= k < done.len() && done[k] == "rust"@;
            assert(is_known_tag(done[k]));
        }
    }
}

/// Reads the info string of a fenced code block: the tokens are the pieces
/// between characters other than letters, digits, `_` and `-`.
pub fn parse_code_block_info(info: &str) -> (r: CodeBlockInfo)
    ensures
        info_matches(r, split_tokens(info@)),
{
    let cs = chars_of(info);
    let mut r = CodeBlockInfo {
        is_rust: false,
        should_panic: false,
        ignore: false,
        compile_fail: false,
        no_run: false,
        is_old_template: false,
        template: None,
    };
    let mut seen_known = false;
    let mut seen_other = false;
    let mut cur: Vec<char> = Vec::new();
    let ghost mut done: Seq<Seq<char>> = Seq::empty();
    let mut i: usize = 0;
    while i < cs.len()
        invariant
            i <= cs@.len(),
            cs@ == info@,
            split_tokens(cs@.take(i as int)) == done.push(cur@),
            info_matches(r, done),
            seen_known == has_known_tag(done),
            seen_other == has_other_tag(done),
            !r.is_rust || seen_known,
        decreases cs@.len() - i,
    {
        let c = cs[i];
        assert(cs@.take(i + 1).drop_last() == cs@.take(i as int));
        let is_tok = c == '_' || c == '-' || char_is_alphanumeric(c);
        if is_tok {
            cur.push(c);
        } else {
            take_token(&mut r, &mut seen_known, &mut seen_other, cur.as_slice(), Ghost(done));
            proof {
                done = done.push(cur@);
            }
            cur = Vec::new();
        }
        i = i + 1;
    }
    assert(cs@.take(cs@.len() as int) == cs@);
    take_token(&mut r, &mut seen_known, &mut seen_other, cur.as_slice(), Ghost(done));
    proof {
        done = done.push(cur@);
    }
    r.is_rust = r.is_rust && (!seen_other || seen_known);
    r
}

} // verus!

verus! {

// ---------------------------------------------------------------------------
// Hidden lines
// ---------------------------------------------------------------------------

/// The number of whitespace characters at the start of `s`.
pub open spec fn indent_len(s: Seq<char>) -> int
    decreases s.len(),
{
    if s.len() == 0 {
        0
    } else if unicode_whitespace(s[0]) {
        1 + indent_len(s.drop_first())
    } else {
        0
    }
}

proof fn lemma_indent_len(s: Seq<char>, k: int)
    requires
        0 <= k <= s.len(),
        forall|j: int| 0 <= j < k ==> unicode_whitespace(#[trigger] s[j]),
        k == s.len() || !unicode_whitespace(s[k]),
    ensures
        indent_len(s) == k,
    decreases s.len(),
{
    if s.len() > 0 && k > 0 {
        let t = s.drop_first();
        assert forall|j: int| 0 <= j < k - 1 implies unicode_whitespace(#[trigger] t[j]) by {
            assert(t[j] == s[j + 1]);
        }
        if k < s.len() {
            assert(t[k - 1] == s[k]);
        }
        lemma_indent_len(t, k - 1);
    }
}

pub open spec fn all_space(s: Seq<char>) -> bool {
    forall|j: int| 0 <= j < s.len() ==> unicode_whitespace(#[trigger] s[j])
}

/// A source line as it is compiled: `# ` after the indentation hides the rest
/// of the line from readers and is dropped, and so is a `#` that stands alone
/// on its line.
pub open spec fn cleaned_line(s: Seq<char>) -> Seq<char> {
    let t = s.skip(indent_len(s));
    if t.len() >= 2 && t[0] == '#' && t[1] == ' ' {
        t.skip(2)
    } else if t.len() >= 1 && t[0] == '#' && all_space(t.skip(1)) {
        t.skip(1)
    } else {
        s
    }
}

/// The compiled form of one source line: a leading `# ` (after any
/// indentation) is removed, and a line holding only `#` loses the `#`.
pub fn clean_omitted_line(line: &str) -> (r: String)
    ensures
        r@ == cleaned_line(line@),
{
    let cs = chars_of(line);
    let mut k: usize = 0;
    while k < cs.len() && char_is_whitespace(cs[k])
        invariant
            k <= cs@.len(),
            cs@ == line@,
            forall|j: int| 0 <= j < k ==> unicode_whitespace(#[trigger] cs@[j]),
        decreases cs@.len() - k,
    {
        k = k + 1;
    }
    proof {
        lemma_indent_len(cs@, k as int);
    }
    let t = vstd::slice::slice_subrange(cs.as_slice(), k, cs.len());
    assert(t@ == cs@.skip(k as int));
    if t.len() >= 2 && t[0] == '#' && t[1] == ' ' {
        let rest = vstd::slice::slice_subrange(t, 2, t.len());
        assert(rest@ == t@.skip(2));
        return string_of(rest);
    }
    if t.len() >= 1 && t[0] == '#' {
        let mut j: usize = 1;
        while j < t.len() && char_is_whitespace(t[j])
            invariant
                1 <= j <= t@.len(),
                forall|m: int| 1 <= m < j ==> unicode_whitespace(#[trigger] t@[m]),
            decreases t@.len() - j,
        {
            j = j + 1;
        }
        if j == t.len() {
            let rest = vstd::slice::slice_subrange(t, 1, t.len());
            assert(rest@ == t@.skip(1));
            assert forall|m: int| 0 <= m < rest@.len() implies unicode_whitespace(#[trigger] rest@[m]) by {
                assert(rest@[m] == t@[m + 1]);
            }
            return string_of(rest);
        } else {
            assert(!unicode_whitespace(t@.skip(1)[j - 1]));
        }
    }
    string_of(cs.as_slice())
}

pub open spec fn string_views(v: Seq<String>) -> Seq<Seq<char>> {
    v.map_values(|l: String| l@)
}

/// The lines, each cleaned, written one after the other.
pub open spec fn cleaned_text(lines: Seq<Seq<char>>) -> Seq<char>
    decreases lines.len(),
{
    if lines.len() == 0 {
        Seq::empty()
    } else {
        cleaned_text(lines.drop_last()) + cleaned_line(lines.last())
    }
}

/// The program text of a test: its lines, each with hidden-line markers
/// removed, concatenated.
pub fn create_test_input(lines: &[String]) -> (r: String)
    ensures
        r@ == cleaned_text(string_views(lines@)),
{
    let mut r = String::new();
    let mut i: usize = 0;
    while i < lines.len()
        invariant
            i <= lines@.len(),
            r@ == cleaned_text(string_views(lines@.take(i as int))),
        decreases lines@.len() - i,
    {
        let c = clean_omitted_line(lines[i].as_str());
        let cc = chars_of(c.as_str());
        push_chars(&mut r, cc.as_slice());
        assert(string_views(lines@.take(i + 1)).drop_last() == string_views(lines@.take(i as int)));
        i = i + 1;
    }
    assert(lines@.take(lines@.len() as int) == lines@);
    r
}

} // verus!

verus! {

// ---------------------------------------------------------------------------
// Lines, names and hashes
// ---------------------------------------------------------------------------

/// The pieces of `t` between line feeds, empty ones included, in order.
pub open spec fn split_newlines(t: Seq<char>) -> Seq<Seq<char>>
    decreases t.len(),
{
    if t.len() == 0 {
        seq![Seq::empty()]
    } else {
        let p = split_newlines(t.drop_last());
        if t.last() == '\n' {
            p.push(Seq::empty())
        } else {
            p.update(p.len() - 1, p.last().push(t.last()))
        }
    }
}

proof fn lemma_split_newlines_nonempty(t: Seq<char>)
    ensures
        split_newlines(t).len() >= 1,
    decreases t.len(),
{
    if t.len() > 0 {
        lemma_split_newlines_nonempty(t.drop_last());
    }
}

pub open spec fn strip_cr(l: Seq<char>) -> Seq<char> {
    if l.len() > 0 && l.last() == '\r' {
        l.drop_last()
    } else {
        l
    }
}

pub open spec fn ended_lines(p: Seq<Seq<char>>) -> Seq<Seq<char>> {
    p.map_values(|l: Seq<char>| strip_cr(l).push('\n'))
}

/// The lines of `t` in the sense of `str::lines` (a line ends at `\n`, a `\r`
/// before it is dropped, a last empty line does not count), each followed by
/// `\n`.
pub open spec fn code_lines(t: Seq<char>) -> Seq<Seq<char>> {
    let p = split_newlines(t);
    if p.last().len() == 0 {
        ended_lines(p.drop_last())
    } else {
        ended_lines(p.drop_last()).push(p.last().push('\n'))
    }
}

/// Splits a text into its lines, each ended by `\n`.
pub fn split_code_lines(t: &str) -> (r: Vec<String>)
    ensures
        string_views(r@) == code_lines(t@),
{
    let cs = chars_of(t);
    let mut out: Vec<String> = Vec::new();
    let mut cur: Vec<char> = Vec::new();
    let ghost mut done: Seq<Seq<char>> = Seq::empty();
    let mut i: usize = 0;
    while i < cs.len()
        invariant
            i <= cs@.len(),
            cs@ == t@,
            split_newlines(cs@.take(i as int)) == done.push(cur@),
            string_views(out@) == ended_lines(done),
        decreases cs@.len() - i,
    {
        let c = cs[i];
        assert(cs@.take(i + 1).drop_last() == cs@.take(i as int));
        proof {
            lemma_split_newlines_nonempty(cs@.take(i as int));
        }
        if c == '\n' {
            let n = if cur.len() > 0 && cur[cur.len() - 1] == '\r' {
                cur.len() - 1
            } else {
                cur.len()
            };
            let mut line = string_of(vstd::slice::slice_subrange(cur.as_slice(), 0, n));
            push_char(&mut line, '\n');
            assert(line@ == strip_cr(cur@).push('\n'));
            out.push(line);
            proof {
                assert(ended_lines(done.push(cur@)) == ended_lines(done).push(strip_cr(cur@).push('\n')));
                done = done.push(cur@);
            }
            cur = Vec::new();
        } else {
            cur.push(c);
        }
        i = i + 1;
    }
    assert(cs@.take(cs@.len() as int) == cs@);
    assert(done.push(cur@).drop_last() == done);
    if cur.len() > 0 {
        let mut line = string_of(cur.as_slice());
        push_char(&mut line, '\n');
        out.push(line);
    }
    out
}

/// The lines with `\n` between each two of them.
pub open spec fn joined(ls: Seq<Seq<char>>) -> Seq<char>
    decreases ls.len(),
{
    if ls.len() == 0 {
        Seq::empty()
    } else if ls.len() == 1 {
        ls[0]
    } else {
        joined(ls.drop_last()).push('\n') + ls.last()
    }
}

fn join_lines(lines: &[String]) -> (r: String)
    ensures
        r@ == joined(string_views(lines@)),
{
    let mut r = String::new();
    let mut i: usize = 0;
    while i < lines.len()
        invariant
            i <= lines@.len(),
            r@ == joined(string_views(lines@.take(i as int))),
        decreases lines@.len() - i,
    {
        assert(string_views(lines@.take(i + 1)).drop_last() == string_views(lines@.take(i as int)));
        if i > 0 {
            push_char(&mut r, '\n');
        }
        push_str_chars(&mut r, lines[i].as_str());
        i = i + 1;
    }
    assert(lines@.take(lines@.len() as int) == lines@);
    r
}

/// The lines written one after the other.
pub open spec fn concatenated(ls: Seq<Seq<char>>) -> Seq<char>
    decreases ls.len(),
{
    if ls.len() == 0 {
        Seq::empty()
    } else {
        concatenated(ls.drop_last()) + ls.last()
    }
}

fn concat_lines(lines: &[String]) -> (r: String)
    ensures
        r@ == concatenated(string_views(lines@)),
{
    let mut r = String::new();
    let mut i: usize = 0;
    while i < lines.len()
        invariant
            i <= lines@.len(),
            r@ == concatenated(string_views(lines@.take(i as int))),
        decreases lines@.len() - i,
    {
        assert(string_views(lines@.take(i + 1)).drop_last() == string_views(lines@.take(i as int)));
        push_str_chars(&mut r, lines[i].as_str());
        i = i + 1;
    }
    assert(lines@.take(lines@.len() as int) == lines@);
    r
}

pub open spec fn digit_char(d: nat) -> char {
    (d + 48) as u8 as char
}

/// The decimal digits of `n`.
pub open spec fn decimal(n: nat) -> Seq<char>
    decreases n,
{
    if n < 10 {
        seq![digit_char(n)]
    } else {
        decimal(n / 10).push(digit_char(n % 10))
    }
}

fn decimal_chars(n: usize) -> (r: Vec<char>)
    ensures
        r@ == decimal(n as nat),
    decreases n,
{
    if n < 10 {
        let mut v: Vec<char> = Vec::new();
        v.push(((n as u8) + 48) as char);
        assert(v@ == seq![digit_char(n as nat)]);
        v
    } else {
        let mut v = decimal_chars(n / 10);
        v.push((((n % 10) as u8) + 48) as char);
        v
    }
}

/// The content identity of a test: URL-safe base64 of the SHA-256 digest of
/// the UTF-8 bytes of its text.
pub open spec fn content_hash(text: Seq<char>) -> Seq<char> {
    base64url_of(sha256_of(encode_utf8(text)))
}

/// Digests a test's text into its content identity.
pub fn get_hash(contents: &str) -> (r: String)
    ensures
        r@ == content_hash(contents@),
{
    let digest = sha256(contents.as_bytes());
    base64url(digest.as_slice())
}

/// The identity of the lines of a test.
pub open spec fn lines_hash(lines: Seq<Seq<char>>) -> Seq<char> {
    content_hash(joined(lines))
}

/// The reported name of a test: page stem, section if any, first line.
pub open spec fn test_name(stem: Seq<char>, section: Option<Seq<char>>, line: nat) -> Seq<char> {
    match section {
        Some(sect) => stem + "_sect_"@ + sect + "_line_"@ + decimal(line),
        None => stem + "_line_"@ + decimal(line),
    }
}

fn make_test_name(stem: &str, section: &Option<String>, line: usize) -> (r: String)
    ensures
        r@ == test_name(stem@, opt_view(*section), line as nat),
{
    let mut r = String::new();
    push_str_chars(&mut r, stem);
    match section {
        Some(sect) => {
            push_str_chars(&mut r, "_sect_");
            push_str_chars(&mut r, sect.as_str());
        },
        None => {},
    }
    push_str_chars(&mut r, "_line_");
    let d = decimal_chars(line);
    push_chars(&mut r, d.as_slice());
    r
}

} // verus!

verus! {

// ---------------------------------------------------------------------------
// Tests and the extraction pass
// ---------------------------------------------------------------------------

/// One code example of a page, with what is expected of it.
#[derive(Debug, Clone, PartialEq, Eq, Hash)]
pub struct Test {
    pub name: String,
    pub text: Vec<String>,
    pub ignore: bool,
    pub compile_fail: bool,
    pub no_run: bool,
    pub should_panic: bool,
    pub template: Option<String>,
    pub hash: String,
}

pub struct TestView {
    pub name: Seq<char>,
    pub text: Seq<Seq<char>>,
    pub ignore: bool,
    pub compile_fail: bool,
    pub no_run: bool,
    pub should_panic: bool,
    pub template: Option<Seq<char>>,
    pub hash: Seq<char>,
}

impl View for Test {
    type V = TestView;

    open spec fn view(&self) -> TestView {
        TestView {
            name: self.name@,
            text: string_views(self.text@),
            ignore: self.ignore,
            compile_fail: self.compile_fail,
            no_run: self.no_run,
            should_panic: self.should_panic,
            template: opt_view(self.template),
            hash: self.hash@,
        }
    }
}

pub open spec fn tests_view(v: Seq<Test>) -> Seq<TestView> {
    v.map_values(|t: Test| t@)
}

/// What the extractor is collecting at a given moment.
#[derive(Debug)]
pub enum Buffer {
    Empty,
    Code(Vec<String>),
    Heading(String),
}

pub enum BufferView {
    Empty,
    Code(Seq<Seq<char>>),
    Heading(Seq<char>),
}

impl View for Buffer {
    type V = BufferView;

    open spec fn view(&self) -> BufferView {
        match self {
            Buffer::Empty => BufferView::Empty,
            Buffer::Code(v) => BufferView::Code(string_views(v@)),
            Buffer::Heading(h) => BufferView::Heading(h@),
        }
    }
}

/// The state that the extractor threads through the events of one page.
pub struct ExtractState {
    pub tests: Seq<TestView>,
    pub buffer: BufferView,
    pub section: Option<Seq<char>>,
    pub code_block_start: nat,
    pub old_template: Option<Seq<char>>,
}

pub open spec fn initial_state() -> ExtractState {
    ExtractState {
        tests: Seq::empty(),
        buffer: BufferView::Empty,
        section: None,
        code_block_start: 0,
        old_template: None,
    }
}

/// The line (counted from 0) on which the byte at `offset` stands.
pub open spec fn line_at(doc: Seq<u8>, offset: nat) -> nat {
    occurrences(doc.take(if offset <= doc.len() { offset as int } else { doc.len() as int }), 10u8)
}

/// Headings of levels 1 and 2 name the sections of a page.
pub open spec fn is_section_level(level: nat) -> bool {
    level < 3
}

/// The test that a finished code block yields.
pub open spec fn test_of_block(
    toks: Seq<Seq<char>>,
    stem: Seq<char>,
    section: Option<Seq<char>>,
    line: nat,
    lines: Seq<Seq<char>>,
) -> TestView {
    TestView {
        name: test_name(stem, section, line),
        text: lines,
        ignore: toks.contains("ignore"@),
        compile_fail: toks.contains("compile_fail"@),
        no_run: toks.contains("no_run"@),
        should_panic: toks.contains("should_panic"@),
        template: template_of(toks),
        hash: lines_hash(lines),
    }
}

/// One step of the extractor: the state after `ev`, which starts on `line`.
pub open spec fn extract_step(st: ExtractState, ev: MdEventView, line: nat, stem: Seq<char>) -> ExtractState {
    match ev {
        MdEventView::HeadingStart(level) => if is_section_level(level) {
            ExtractState { buffer: BufferView::Heading(Seq::empty()), ..st }
        } else {
            st
        },
        MdEventView::HeadingEnd(level) => if is_section_level(level) {
            match st.buffer {
                BufferView::Heading(h) => ExtractState {
                    buffer: BufferView::Empty,
                    section: Some(sanitized(h)),
                    ..st
                },
                _ => ExtractState { buffer: BufferView::Empty, ..st },
            }
        } else {
            st
        },
        MdEventView::FenceStart(info) => if tagged_rust(split_tokens(info)) {
            ExtractState { buffer: BufferView::Code(Seq::empty()), ..st }
        } else {
            st
        },
        MdEventView::Text(t) => match st.buffer {
            BufferView::Code(b) => ExtractState {
                buffer: BufferView::Code(b + code_lines(t)),
                code_block_start: if b.len() == 0 { line } else { st.code_block_start },
                ..st
            },
            BufferView::Heading(h) => ExtractState { buffer: BufferView::Heading(h + t), ..st },
            BufferView::Empty => st,
        },
        MdEventView::FenceEnd(info) => {
            let toks = split_tokens(info);
            match st.buffer {
                BufferView::Code(b) => if toks.contains("skeptic-template"@) {
                    ExtractState {
                        buffer: BufferView::Empty,
                        old_template: Some(concatenated(b)),
                        ..st
                    }
                } else {
                    ExtractState {
                        buffer: BufferView::Empty,
                        tests: st.tests.push(
                            test_of_block(toks, stem, st.section, st.code_block_start, b),
                        ),
                        ..st
                    }
                },
                _ => ExtractState { buffer: BufferView::Empty, ..st },
            }
        },
        MdEventView::Other => st,
    }
}

/// The state after all of `evs`, on the document whose bytes are `doc`.
pub open spec fn extract_run(evs: Seq<(MdEventView, nat)>, doc: Seq<u8>, stem: Seq<char>) -> ExtractState
    decreases evs.len(),
{
    if evs.len() == 0 {
        initial_state()
    } else {
        extract_step(
            extract_run(evs.drop_last(), doc, stem),
            evs.last().0,
            line_at(doc, evs.last().1),
            stem,
        )
    }
}

/// The tests of a page whose markdown events are `evs`.
pub open spec fn extracted(evs: Seq<(MdEventView, nat)>, doc: Seq<u8>, stem: Seq<char>) -> Seq<TestView> {
    extract_run(evs, doc, stem).tests
}

/// The extractor's accumulator.
pub struct Extraction {
    pub tests: Vec<Test>,
    pub buffer: Buffer,
    pub section: Option<String>,
    pub code_block_start: usize,
    pub old_template: Option<String>,
}

impl View for Extraction {
    type V = ExtractState;

    open spec fn view(&self) -> ExtractState {
        ExtractState {
            tests: tests_view(self.tests@),
            buffer: self.buffer@,
            section: opt_view(self.section),
            code_block_start: self.code_block_start as nat,
            old_template: opt_view(self.old_template),
        }
    }
}

impl Extraction {
    pub fn new() -> (r: Extraction)
        ensures
            r@ == initial_state(),
    {
        let r = Extraction {
            tests: Vec::new(),
            buffer: Buffer::Empty,
            section: None,
            code_block_start: 0,
            old_template: None,
        };
        assert(tests_view(r.tests@) =~= Seq::empty());
        r
    }

    /// Takes one event, which starts on `line`, into account.
    pub fn step(&mut self, ev: &MdEvent, line: usize, stem: &str)
        ensures
            final(self)@ == extract_step(old(self)@, ev@, line as nat, stem@),
    {
        let ghost st = self@;
        match ev {
            MdEvent::HeadingStart(level) => {
                if *level < 3 {
                    self.buffer = Buffer::Heading(String::new());
                }
            },
            MdEvent::HeadingEnd(level) => {
                if *level < 3 {
                    let mut cur = Buffer::Empty;
                    std::mem::swap(&mut self.buffer, &mut cur);
                    match cur {
                        Buffer::Heading(h) => {
                            self.section = Some(sanitize_test_name(h.as_str()));
                        },
                        _ => {},
                    }
                }
            },
            MdEvent::FenceStart(info) => {
                let ci = parse_code_block_info(info.as_str());
                if ci.is_rust {
                    self.buffer = Buffer::Code(Vec::new());
                    assert(string_views(Seq::<String>::empty()) =~= Seq::empty());
                }
            },
            MdEvent::Text(t) => {
                let mut cur = Buffer::Empty;
                std::mem::swap(&mut self.buffer, &mut cur);
                match cur {
                    Buffer::Code(buf) => {
                        let mut buf = buf;
                        if buf.len() == 0 {
                            self.code_block_start = line;
                        }
                        let ghost before = buf@;
                        let mut more = split_code_lines(t.as_str());
                        let ghost added = more@;
                        buf.append(&mut more);
                        assert(string_views(before + added) =~= string_views(before) + string_views(added));
                        self.buffer = Buffer::Code(buf);
                    },
                    Buffer::Heading(h) => {
                        let mut h = h;
                        push_str_chars(&mut h, t.as_str());
                        self.buffer = Buffer::Heading(h);
                    },
                    Buffer::Empty => {},
                }
            },
            MdEvent::FenceEnd(info) => {
                let ci = parse_code_block_info(info.as_str());
                let mut cur = Buffer::Empty;
                std::mem::swap(&mut self.buffer, &mut cur);
                match cur {
                    Buffer::Code(buf) => {
                        if ci.is_old_template {
                            self.old_template = Some(concat_lines(buf.as_slice()));
                        } else {
                            let name = make_test_name(stem, &self.section, self.code_block_start);
                            let joined_text = join_lines(buf.as_slice());
                            let hash = get_hash(joined_text.as_str());
                            let test = Test {
                                name,
                                text: buf,
                                ignore: ci.ignore,
                                compile_fail: ci.compile_fail,
                                no_run: ci.no_run,
                                should_panic: ci.should_panic,
                                template: ci.template,
                                hash,
                            };
                            let ghost old_tests = self.tests@;
                            self.tests.push(test);
                            assert(tests_view(old_tests.push(test)) =~= tests_view(old_tests).push(test@));
                        }
                    },
                    _ => {},
                }
            },
            MdEvent::Other => {},
        }
    }
}

/// Collects the tests of one page from its markdown events; `doc` is the
/// page's text, from which line numbers are counted.
pub fn extract_tests_from_events(events: &[ParsedEvent], doc: &str, file_stem: &str) -> (r: (
    Vec<Test>,
    Option<String>,
))
    ensures
        tests_view(r.0@) == extracted(events_view(events@), encode_utf8(doc@), file_stem@),
        opt_view(r.1) == extract_run(events_view(events@), encode_utf8(doc@), file_stem@).old_template,
{
    let bytes = doc.as_bytes();
    let mut ex = Extraction::new();
    let mut i: usize = 0;
    while i < events.len()
        invariant
            i <= events@.len(),
            bytes@ == encode_utf8(doc@),
            ex@ == extract_run(events_view(events@.take(i as int)), encode_utf8(doc@), file_stem@),
        decreases events@.len() - i,
    {
        let ev = &events[i];
        let end = if ev.offset <= bytes.len() {
            ev.offset
        } else {
            bytes.len()
        };
        let line = count_bytes(vstd::slice::slice_subrange(bytes, 0, end), 10u8);
        ex.step(&ev.event, line, file_stem);
        assert(events_view(events@.take(i + 1)).drop_last() == events_view(events@.take(i as int)));
        assert(events_view(events@.take(i + 1)).last() == events@[i as int]@);
        i = i + 1;
    }
    assert(events@.take(events@.len() as int) == events@);
    (ex.tests, ex.old_template)
}

/// Collects the tests of one page: each fenced block tagged as source code
/// becomes a test named after `file_stem`, the current section and its first
/// line; a template block is returned apart.
pub fn extract_tests_from_string(s: &str, file_stem: &str) -> (r: (Vec<Test>, Option<String>))
    ensures
        tests_view(r.0@) == extracted(markdown_events(s@), encode_utf8(s@), file_stem@),
        opt_view(r.1) == extract_run(markdown_events(s@), encode_utf8(s@), file_stem@).old_template,
        hashes_follow_lines(tests_view(r.0@)),
{
    let events = parse_markdown(s);
    proof {
        lemma_run_hashes(markdown_events(s@), encode_utf8(s@), file_stem@);
    }
    extract_tests_from_events(events.as_slice(), s, file_stem)
}

} // verus!

verus! {

// ---------------------------------------------------------------------------
// Laws of extraction
// ---------------------------------------------------------------------------

/// Every test's hash is the hash of its own lines.
pub open spec fn hashes_follow_lines(ts: Seq<TestView>) -> bool {
    forall|i: int| 0 <= i < ts.len() ==> (#[trigger] ts[i]).hash == lines_hash(ts[i].text)
}

pub proof fn lemma_run_hashes(evs: Seq<(MdEventView, nat)>, doc: Seq<u8>, stem: Seq<char>)
    ensures
        hashes_follow_lines(extract_run(evs, doc, stem).tests),
    decreases evs.len(),
{
    if evs.len() > 0 {
        lemma_run_hashes(evs.drop_last(), doc, stem);
        let prev = extract_run(evs.drop_last(), doc, stem);
        let next = extract_run(evs, doc, stem);
        assert forall|i: int| 0 <= i < next.tests.len() implies (#[trigger] next.tests[i]).hash == lines_hash(
            next.tests[i].text,
        ) by {
            if i < prev.tests.len() {
                assert(next.tests[i] == prev.tests[i]);
            }
        }
    }
}

/// Extraction is a function of the page's text and stem, and a test's hash is
/// a function of its lines alone: two tests with the same lines, from any two
/// pages and sections, have the same hash.
pub proof fn lemma_extraction_deterministic(
    s1: Seq<char>,
    stem1: Seq<char>,
    s2: Seq<char>,
    stem2: Seq<char>,
    i: int,
    j: int,
)
    requires
        0 <= i < extracted(markdown_events(s1), encode_utf8(s1), stem1).len(),
        0 <= j < extracted(markdown_events(s2), encode_utf8(s2), stem2).len(),
        extracted(markdown_events(s1), encode_utf8(s1), stem1)[i].text == extracted(
            markdown_events(s2),
            encode_utf8(s2),
            stem2,
        )[j].text,
    ensures
        s1 == s2 && stem1 == stem2 ==> extracted(markdown_events(s1), encode_utf8(s1), stem1)
            == extracted(markdown_events(s2), encode_utf8(s2), stem2),
        extracted(markdown_events(s1), encode_utf8(s1), stem1)[i].hash == extracted(
            markdown_events(s2),
            encode_utf8(s2),
            stem2,
        )[j].hash,
{
    lemma_run_hashes(markdown_events(s1), encode_utf8(s1), stem1);
    lemma_run_hashes(markdown_events(s2), encode_utf8(s2), stem2);
}

} // verus!
