//! Command template substitution.
//!
//! A template holds `%`-prefixed placeholders (`%c` columns, `%l` lines,
//! `%i` subject path, `%m` MIME type).  A placeholder counts only when
//! its `%` is not preceded by another `%`, so `%%x` is an escape for a
//! literal `%x`; at the start of the template nothing precedes the `%`,
//! so a placeholder there counts.  For each letter in turn, one pass
//! replaces the placeholder and a second pass unescapes `%%x` to `%x`;
//! the result is trimmed of surrounding white space.

use vstd::prelude::*;
use crate::error::HandlerError;
use crate::text::chars_to_string;
use crate::text::dec_chars;
use crate::text::str_to_chars;
use crate::text::u16_chars;

verus! {

/// White space, as `str::trim` sees it (the Unicode `White_Space` set).
pub open spec fn is_space_char(c: char) -> bool {
    ||| c == ' '
    ||| c == '\t'
    ||| c == '\n'
    ||| c == '\u{B}'
    ||| c == '\u{C}'
    ||| c == '\r'
    ||| c == '\u{85}'
    ||| c == '\u{A0}'
    ||| c == '\u{1680}'
    ||| ('\u{2000}' as u32 <= c as u32 && c as u32 <= '\u{200A}' as u32)
    ||| c == '\u{2028}'
    ||| c == '\u{2029}'
    ||| c == '\u{202F}'
    ||| c == '\u{205F}'
    ||| c == '\u{3000}'
}

fn is_space(c: char) -> (r: bool)
    ensures
        r == is_space_char(c),
{
    let u = c as u32;
    (u == 0x20 || u == 0x9 || u == 0xA || u == 0xB || u == 0xC || u == 0xD || u == 0x85
        || u == 0xA0 || u == 0x1680 || (0x2000 <= u && u <= 0x200A) || u == 0x2028 || u == 0x2029
        || u == 0x202F || u == 0x205F || u == 0x3000)
}

/// The un-escaped `%letter` occurrences in the suffix `s` of a template,
/// scanned left to right without overlap.  `prev_percent` says whether
/// the character just before `s` was a `%`: a `%letter` whose `%` is
/// preceded by another `%` is escaped and does not count, while at the
/// very start of a template nothing precedes it, so it counts there.  A
/// counted placeholder ends in the letter, so the flag clears after it.
pub open spec fn count_pattern_from(s: Seq<char>, letter: char, prev_percent: bool) -> nat
    decreases s.len(),
{
    if s.len() >= 2 && s[0] == '%' && s[1] == letter && !prev_percent {
        1 + count_pattern_from(s.skip(2), letter, false)
    } else if s.len() > 0 {
        count_pattern_from(s.skip(1), letter, s[0] == '%')
    } else {
        0
    }
}

/// The number of un-escaped `%letter` occurrences in a template.
pub open spec fn count_pattern_spec(s: Seq<char>, letter: char) -> nat {
    count_pattern_from(s, letter, false)
}

/// Count un-escaped `%letter` placeholders in a command template.
pub fn count_pattern(command: &str, pattern: char) -> (r: usize)
    ensures
        r as nat == count_pattern_spec(command@, pattern),
{
    let s = str_to_chars(command);
    let n = s.len();
    let mut i: usize = 0;
    let mut r: usize = 0;
    let mut prev_percent = false;
    proof {
        assert(command@.skip(0) =~= command@);
    }
    while i < n
        invariant
            i <= n,
            r <= i,
            n == s@.len(),
            s@ == command@,
            count_pattern_spec(command@, pattern) == r + count_pattern_from(
                command@.skip(i as int),
                pattern,
                prev_percent,
            ),
        decreases n - i,
    {
        let ghost suf = command@.skip(i as int);
        proof {
            assert(suf.len() == n - i);
            assert(suf[0] == command@[i as int]);
            if suf.len() >= 2 {
                assert(suf[1] == command@[i + 1 as int]);
            }
        }
        if n - i >= 2 && s[i] == '%' && s[i + 1] == pattern && !prev_percent {
            proof {
                assert(suf.skip(2) =~= command@.skip(i + 2 as int));
            }
            r = r + 1;
            prev_percent = false;
            i = i + 2;
        } else {
            proof {
                assert(suf.skip(1) =~= command@.skip(i + 1 as int));
            }
            prev_percent = s[i] == '%';
            i = i + 1;
        }
    }
    proof {
        assert(command@.skip(n as int).len() == 0);
    }
    r
}

/// One substitution pass over the suffix `s`: each un-escaped `%letter`
/// (scanned left to right, without overlap; un-escaped as in
/// `count_pattern_from`, with `prev_percent` carrying the character
/// before the suffix) becomes `val`.
pub open spec fn subst_pass_from(
    s: Seq<char>,
    letter: char,
    val: Seq<char>,
    prev_percent: bool,
) -> Seq<char>
    decreases s.len(),
{
    if s.len() >= 2 && s[0] == '%' && s[1] == letter && !prev_percent {
        val + subst_pass_from(s.skip(2), letter, val, false)
    } else if s.len() > 0 {
        seq![s[0]] + subst_pass_from(s.skip(1), letter, val, s[0] == '%')
    } else {
        Seq::<char>::empty()
    }
}

/// One substitution pass over a whole template.
pub open spec fn subst_pass(s: Seq<char>, letter: char, val: Seq<char>) -> Seq<char> {
    subst_pass_from(s, letter, val, false)
}

/// One unescape pass: each `%%letter` (scanned left to right, without
/// overlap) becomes `%letter`.
pub open spec fn unescape_pass(s: Seq<char>, letter: char) -> Seq<char>
    decreases s.len(),
{
    if s.len() >= 3 && s[0] == '%' && s[1] == '%' && s[2] == letter {
        seq!['%', letter] + unescape_pass(s.skip(3), letter)
    } else if s.len() > 0 {
        seq![s[0]] + unescape_pass(s.skip(1), letter)
    } else {
        Seq::<char>::empty()
    }
}

/// Substitution then unescaping, for one placeholder letter.
pub open spec fn apply_pattern(s: Seq<char>, letter: char, val: Seq<char>) -> Seq<char> {
    unescape_pass(subst_pass(s, letter, val), letter)
}

fn push_all(dst: &mut Vec<char>, src: &Vec<char>)
    ensures
        final(dst)@ == old(dst)@ + src@,
{
    let n = src.len();
    let mut j: usize = 0;
    while j < n
        invariant
            j <= n,
            n == src@.len(),
            dst@ == old(dst)@ + src@.take(j as int),
        decreases n - j,
    {
        dst.push(src[j]);
        proof {
            assert(old(dst)@ + src@.take(j as int) + seq![src@[j as int]] =~= old(dst)@
                + src@.take(j + 1 as int));
        }
        j = j + 1;
    }
    proof {
        assert(old(dst)@ + src@.take(n as int) =~= old(dst)@ + src@);
    }
}

fn subst_pass_exec(s: &Vec<char>, letter: char, val: &Vec<char>) -> (r: Vec<char>)
    ensures
        r@ == subst_pass(s@, letter, val@),
{
    let n = s.len();
    let mut out: Vec<char> = Vec::new();
    let mut i: usize = 0;
    let mut prev_percent = false;
    proof {
        assert(s@.skip(0) =~= s@);
        assert(Seq::<char>::empty() + subst_pass(s@, letter, val@) =~= subst_pass(
            s@,
            letter,
            val@,
        ));
    }
    while i < n
        invariant
            i <= n,
            n == s@.len(),
            subst_pass(s@, letter, val@) == out@ + subst_pass_from(
                s@.skip(i as int),
                letter,
                val@,
                prev_percent,
            ),
        decreases n - i,
    {
        let ghost suf = s@.skip(i as int);
        proof {
            assert(suf.len() == n - i);
            assert(suf[0] == s@[i as int]);
            if suf.len() >= 2 {
                assert(suf[1] == s@[i + 1 as int]);
            }
        }
        if n - i >= 2 && s[i] == '%' && s[i + 1] == letter && !prev_percent {
            proof {
                assert(suf.skip(2) =~= s@.skip(i + 2 as int));
            }
            let ghost out_old = out@;
            push_all(&mut out, val);
            proof {
                assert(subst_pass_from(suf, letter, val@, prev_percent) == val@ + subst_pass_from(
                    s@.skip(i + 2 as int),
                    letter,
                    val@,
                    false,
                ));
                assert(out@ =~= out_old + val@);
                assert(out@ + subst_pass_from(s@.skip(i + 2 as int), letter, val@, false)
                    =~= out_old + subst_pass_from(suf, letter, val@, prev_percent));
            }
            prev_percent = false;
            i = i + 2;
        } else {
            proof {
                assert(suf.skip(1) =~= s@.skip(i + 1 as int));
                assert(subst_pass_from(suf, letter, val@, prev_percent) == seq![s@[i as int]]
                    + subst_pass_from(s@.skip(i + 1 as int), letter, val@, s@[i as int] == '%'));
            }
            let ghost out_old = out@;
            out.push(s[i]);
            proof {
                assert(out@ =~= out_old + seq![s@[i as int]]);
                assert(out@ + subst_pass_from(
                    s@.skip(i + 1 as int),
                    letter,
                    val@,
                    s@[i as int] == '%',
                ) =~= out_old + subst_pass_from(suf, letter, val@, prev_percent));
            }
            prev_percent = s[i] == '%';
            i = i + 1;
        }
    }
    proof {
        assert(s@.skip(n as int).len() == 0);
        assert(out@ + subst_pass_from(s@.skip(n as int), letter, val@, prev_percent) =~= out@);
    }
    out
}

fn unescape_pass_exec(s: &Vec<char>, letter: char) -> (r: Vec<char>)
    ensures
        r@ == unescape_pass(s@, letter),
{
    let n = s.len();
    let mut out: Vec<char> = Vec::new();
    let mut i: usize = 0;
    proof {
        assert(s@.skip(0) =~= s@);
        assert(Seq::<char>::empty() + unescape_pass(s@, letter) =~= unescape_pass(s@, letter));
    }
    while i < n
        invariant
            i <= n,
            n == s@.len(),
            unescape_pass(s@, letter) == out@ + unescape_pass(s@.skip(i as int), letter),
        decreases n - i,
    {
        let ghost suf = s@.skip(i as int);
        proof {
            assert(suf.len() == n - i);
        }
        if n - i >= 3 && s[i] == '%' && s[i + 1] == '%' && s[i + 2] == letter {
            proof {
                assert(suf[0] == s@[i as int]);
                assert(suf[1] == s@[i + 1 as int]);
                assert(suf[2] == s@[i + 2 as int]);
                assert(suf.skip(3) =~= s@.skip(i + 3 as int));
                assert(unescape_pass(suf, letter) == seq!['%', letter] + unescape_pass(
                    s@.skip(i + 3 as int),
                    letter,
                ));
            }
            let ghost out_old = out@;
            out.push('%');
            out.push(letter);
            proof {
                assert(out@ =~= out_old + seq!['%', letter]);
                assert(out@ + unescape_pass(s@.skip(i + 3 as int), letter) =~= out_old
                    + unescape_pass(suf, letter));
            }
            i = i + 3;
        } else {
            proof {
                if suf.len() > 0 {
                    assert(suf[0] == s@[i as int]);
                    if suf.len() >= 3 {
                        assert(suf[1] == s@[i + 1 as int]);
                        assert(suf[2] == s@[i + 2 as int]);
                    }
                    assert(suf.skip(1) =~= s@.skip(i + 1 as int));
                    assert(unescape_pass(suf, letter) == seq![s@[i as int]] + unescape_pass(
                        s@.skip(i + 1 as int),
                        letter,
                    ));
                }
            }
            let ghost out_old = out@;
            out.push(s[i]);
            proof {
                assert(out@ =~= out_old + seq![s@[i as int]]);
                assert(out@ + unescape_pass(s@.skip(i + 1 as int), letter) =~= out_old
                    + unescape_pass(suf, letter));
            }
            i = i + 1;
        }
    }
    proof {
        assert(s@.skip(n as int).len() == 0);
        assert(out@ + unescape_pass(s@.skip(n as int), letter) =~= out@);
    }
    out
}

fn apply_pattern_exec(s: &Vec<char>, letter: char, val: &Vec<char>) -> (r: Vec<char>)
    ensures
        r@ == apply_pattern(s@, letter, val@),
{
    let substituted = subst_pass_exec(s, letter, val);
    unescape_pass_exec(&substituted, letter)
}

/// The input without leading white space.
pub open spec fn trim_start_spec(s: Seq<char>) -> Seq<char>
    decreases s.len(),
{
    if s.len() > 0 && is_space_char(s[0]) {
        trim_start_spec(s.skip(1))
    } else {
        s
    }
}

/// The input without trailing white space.
pub open spec fn trim_end_spec(s: Seq<char>) -> Seq<char>
    decreases s.len(),
{
    if s.len() > 0 && is_space_char(s.last()) {
        trim_end_spec(s.drop_last())
    } else {
        s
    }
}

/// The input without surrounding white space, as `str::trim` returns it.
pub open spec fn trim_spec(s: Seq<char>) -> Seq<char> {
    trim_end_spec(trim_start_spec(s))
}

fn trim_exec(s: &Vec<char>) -> (r: Vec<char>)
    ensures
        r@ == trim_spec(s@),
{
    let n = s.len();
    let mut start: usize = 0;
    proof {
        assert(s@.skip(0) =~= s@);
    }
    while start < n && is_space(s[start])
        invariant
            start <= n,
            n == s@.len(),
            trim_start_spec(s@) == trim_start_spec(s@.skip(start as int)),
        decreases n - start,
    {
        proof {
            assert(s@.skip(start as int)[0] == s@[start as int]);
            assert(s@.skip(start as int).skip(1) =~= s@.skip(start + 1 as int));
        }
        start = start + 1;
    }
    let ghost t = s@.skip(start as int);
    proof {
        if start < n {
            assert(t[0] == s@[start as int]);
        }
        assert(trim_start_spec(s@) == t);
    }
    let mut end: usize = n;
    proof {
        assert(t.take(n - start) =~= t);
    }
    while end > start && is_space(s[end - 1])
        invariant
            start <= end <= n,
            n == s@.len(),
            t == s@.skip(start as int),
            trim_end_spec(t) == trim_end_spec(t.take(end - start)),
        decreases end,
    {
        proof {
            let k = end - start;
            assert(t.take(k)[k - 1] == s@[end - 1 as int]);
            assert(t.take(k).last() == s@[end - 1 as int]);
            assert(t.take(k).drop_last() =~= t.take(k - 1));
        }
        end = end - 1;
    }
    proof {
        let k = end - start;
        if end > start {
            assert(t.take(k).last() == t[k - 1]);
            assert(t[k - 1] == s@[end - 1 as int]);
            assert(!is_space_char(t.take(k).last()));
        }
        assert(trim_end_spec(t.take(k)) == t.take(k));
        assert(trim_spec(s@) == t.take(k));
        assert(t.take(k) =~= s@.subrange(start as int, end as int));
    }
    let mut out: Vec<char> = Vec::new();
    let mut i: usize = start;
    while i < end
        invariant
            start <= i <= end <= n,
            n == s@.len(),
            out@ == s@.subrange(start as int, i as int),
        decreases end - i,
    {
        out.push(s[i]);
        proof {
            assert(s@.subrange(start as int, i as int).push(s@[i as int]) =~= s@.subrange(
                start as int,
                i + 1 as int,
            ));
        }
        i = i + 1;
    }
    out
}

/// Whether the sequence holds a nul character.
pub open spec fn has_nul(s: Seq<char>) -> bool {
    exists|i: int| 0 <= i < s.len() && s[i] == '\0'
}

/// What `shlex::try_quote` returns for an input without nul bytes: a
/// shell-safe quoting of the input, determined by the input alone.
pub uninterp spec fn quote_of(s: Seq<char>) -> Seq<char>;

/// Relies on `shlex::try_quote`: quoting succeeds exactly when the input
/// has no nul byte, and the result is the function `quote_of` of the
/// input.
#[verifier::external_body]
fn shell_quote(s: &str) -> (r: Option<String>)
    ensures
        r is Some <==> !has_nul(s@),
        r is Some ==> r->0@ == quote_of(s@),
{
    match shlex::try_quote(s) {
        Ok(q) => Some(q.into_owned()),
        Err(_) => None,
    }
}

/// What `shlex::split` returns: the POSIX-shell word split of the input,
/// or `None` for input the shell grammar rejects; determined by the input
/// alone.
pub uninterp spec fn shell_split_of(s: Seq<char>) -> Option<Seq<Seq<char>>>;

/// Relies on `shlex::split`: the split succeeds or fails as the function
/// `shell_split_of` of the input says, and returns exactly its words.
#[verifier::external_body]
fn shell_split(s: &str) -> (r: Option<Vec<String>>)
    ensures
        r is Some <==> shell_split_of(s@) is Some,
        r is Some ==> r->0.deep_view() == shell_split_of(s@)->0,
{
    shlex::split(s)
}

/// The path argument as it enters the template: shell-quoted unless it is
/// empty.
pub open spec fn quoted_path(p: Seq<char>) -> Seq<char> {
    if p.len() == 0 {
        p
    } else {
        quote_of(p)
    }
}

/// The view of an optional string argument.
pub open spec fn opt_view(m: Option<&str>) -> Option<Seq<char>> {
    match m {
        Some(x) => Some(x@),
        None => None,
    }
}

/// The substituted command: `%c` and `%l` become the terminal size, `%i`
/// the (quoted) path argument, `%m` the MIME type when one is given; each
/// after its own unescape pass; the result is trimmed.
pub open spec fn substitute_spec(
    s: Seq<char>,
    path_arg: Seq<char>,
    mime: Option<Seq<char>>,
    cols: u16,
    rows: u16,
) -> Seq<char> {
    let r1 = apply_pattern(s, 'c', dec_chars(cols as int));
    let r2 = apply_pattern(r1, 'l', dec_chars(rows as int));
    let r3 = apply_pattern(r2, 'i', path_arg);
    let r4 = match mime {
        Some(m) => apply_pattern(r3, 'm', m),
        None => r3,
    };
    trim_spec(r4)
}

/// Substitute placeholders in the template `s` for the path `path` (quoted
/// when non-empty), the optional MIME type and the terminal size.
///
/// Fails exactly when a non-empty path cannot be shell-quoted, that is,
/// when it holds a nul character.
pub fn substitute(s: &str, path: &str, mime: Option<&str>, term_size: (u16, u16)) -> (r: Result<
    String,
    HandlerError,
>)
    ensures
        r is Ok <==> !(path@.len() > 0 && has_nul(path@)),
        r is Ok ==> r->Ok_0@ == substitute_spec(
            s@,
            quoted_path(path@),
            opt_view(mime),
            term_size.0,
            term_size.1,
        ),
        r is Err ==> r->Err_0 is Other,
{
    let sv = str_to_chars(s);
    let path_arg: Vec<char>;
    if path.unicode_len() == 0 {
        path_arg = Vec::new();
        proof {
            assert(path_arg@ =~= quoted_path(path@));
        }
    } else {
        match shell_quote(path) {
            Some(q) => {
                path_arg = str_to_chars(q.as_str());
            },
            None => {
                return Err(HandlerError::other("failed to quote path for command"));
            },
        }
    }
    let cols = u16_chars(term_size.0);
    let rows = u16_chars(term_size.1);
    let r1 = apply_pattern_exec(&sv, 'c', &cols);
    let r2 = apply_pattern_exec(&r1, 'l', &rows);
    let r3 = apply_pattern_exec(&r2, 'i', &path_arg);
    let r4 = match mime {
        Some(m) => {
            let mv = str_to_chars(m);
            apply_pattern_exec(&r3, 'm', &mv)
        },
        None => r3,
    };
    let t = trim_exec(&r4);
    Ok(chars_to_string(&t))
}

/// The argument vector for a substituted command: `sh -c` wrapping when
/// the processor asks for a shell, else the shell word split.
pub open spec fn build_cmd_spec(cmd: Seq<char>, shell: bool) -> Option<Seq<Seq<char>>> {
    if shell {
        Some(seq!["sh"@, "-c"@, cmd])
    } else {
        shell_split_of(cmd)
    }
}

/// Build the argument vector for a substituted command.
///
/// Fails exactly when the command is not shell-wrapped and the shell word
/// grammar rejects it.
pub fn build_cmd(cmd: &str, shell: bool) -> (r: Result<Vec<String>, HandlerError>)
    ensures
        r is Ok <==> build_cmd_spec(cmd@, shell) is Some,
        r is Ok ==> r->Ok_0.deep_view() == build_cmd_spec(cmd@, shell)->0,
        r is Err ==> r->Err_0 is Other,
{
    if shell {
        let mut args: Vec<String> = Vec::new();
        let sh = str_to_chars("sh");
        args.push(chars_to_string(&sh));
        let dash_c = str_to_chars("-c");
        args.push(chars_to_string(&dash_c));
        let cv = str_to_chars(cmd);
        args.push(chars_to_string(&cv));
        proof {
            assert(args.deep_view() =~= seq!["sh"@, "-c"@, cmd@]);
        }
        Ok(args)
    } else {
        match shell_split(cmd) {
            Some(args) => Ok(args),
            None => Err(HandlerError::other("invalid command")),
        }
    }
}

/// No character of the sequence is the placeholder marker `%`.
pub open spec fn no_placeholder_chars(s: Seq<char>) -> bool {
    forall|i: int| 0 <= i < s.len() ==> #[trigger] s[i] != '%'
}

proof fn lemma_subst_pass_no_percent(s: Seq<char>, letter: char, val: Seq<char>, prev_percent: bool)
    requires
        no_placeholder_chars(s),
    ensures
        subst_pass_from(s, letter, val, prev_percent) == s,
    decreases s.len(),
{
    if s.len() > 0 {
        assert(s[0] != '%');
        assert(no_placeholder_chars(s.skip(1))) by {
            assert(forall|i: int|
                0 <= i < s.skip(1).len() ==> #[trigger] s.skip(1)[i] == s[i + 1]);
        };
        lemma_subst_pass_no_percent(s.skip(1), letter, val, false);
        assert(seq![s[0]] + s.skip(1) =~= s);
    }
}

proof fn lemma_unescape_pass_no_percent(s: Seq<char>, letter: char)
    requires
        no_placeholder_chars(s),
    ensures
        unescape_pass(s, letter) == s,
    decreases s.len(),
{
    if s.len() > 0 {
        assert(s[0] != '%');
        assert(no_placeholder_chars(s.skip(1))) by {
            assert(forall|i: int|
                0 <= i < s.skip(1).len() ==> #[trigger] s.skip(1)[i] == s[i + 1]);
        };
        lemma_unescape_pass_no_percent(s.skip(1), letter);
        assert(seq![s[0]] + s.skip(1) =~= s);
    }
}

proof fn lemma_trim_start_props(s: Seq<char>)
    ensures
        trim_start_spec(s).len() <= s.len(),
        trim_start_spec(s) == s.skip(s.len() - trim_start_spec(s).len()),
        trim_start_spec(s).len() > 0 ==> !is_space_char(trim_start_spec(s)[0]),
    decreases s.len(),
{
    if s.len() > 0 && is_space_char(s[0]) {
        lemma_trim_start_props(s.skip(1));
        let t = trim_start_spec(s);
        assert(s.skip(1).skip(s.len() - 1 - t.len()) =~= s.skip(s.len() - t.len()));
    } else {
        assert(s.skip(0) =~= s);
    }
}

proof fn lemma_trim_end_props(s: Seq<char>)
    ensures
        trim_end_spec(s).len() <= s.len(),
        trim_end_spec(s) == s.take(trim_end_spec(s).len() as int),
        trim_end_spec(s).len() > 0 ==> !is_space_char(trim_end_spec(s).last()),
    decreases s.len(),
{
    if s.len() > 0 && is_space_char(s.last()) {
        lemma_trim_end_props(s.drop_last());
        let t = trim_end_spec(s);
        assert(s.drop_last() =~= s.take(s.len() - 1));
        assert(s.take(s.len() - 1).take(t.len() as int) =~= s.take(t.len() as int));
    } else {
        assert(s.take(s.len() as int) =~= s);
    }
}

proof fn lemma_trim_fixpoint(s: Seq<char>)
    requires
        s.len() > 0 ==> !is_space_char(s[0]),
        s.len() > 0 ==> !is_space_char(s.last()),
    ensures
        trim_spec(s) == s,
{
    assert(trim_start_spec(s) == s);
    assert(trim_end_spec(s) == s);
}

/// Trimming is idempotent.
proof fn lemma_trim_idempotent(s: Seq<char>)
    ensures
        trim_spec(trim_spec(s)) == trim_spec(s),
{
    let t1 = trim_start_spec(s);
    let t = trim_end_spec(t1);
    lemma_trim_start_props(s);
    lemma_trim_end_props(t1);
    if t.len() > 0 {
        assert(t[0] == t1.take(t.len() as int)[0]);
        assert(t[0] == t1[0]);
        assert(!is_space_char(t[0]));
        assert(!is_space_char(t.last()));
    }
    lemma_trim_fixpoint(t);
}

proof fn lemma_trim_no_percent(s: Seq<char>)
    requires
        no_placeholder_chars(s),
    ensures
        no_placeholder_chars(trim_spec(s)),
{
    let t1 = trim_start_spec(s);
    let t = trim_end_spec(t1);
    lemma_trim_start_props(s);
    lemma_trim_end_props(t1);
    let k = s.len() - t1.len();
    assert forall|i: int| 0 <= i < t.len() implies #[trigger] t[i] != '%' by {
        assert(t[i] == t1.take(t.len() as int)[i]);
        assert(t[i] == t1[i]);
        assert(t1[i] == s.skip(k)[i]);
        assert(t1[i] == s[i + k]);
    };
}

proof fn lemma_substitute_spec_no_percent(
    s: Seq<char>,
    path_arg: Seq<char>,
    mime: Option<Seq<char>>,
    cols: u16,
    rows: u16,
)
    requires
        no_placeholder_chars(s),
    ensures
        substitute_spec(s, path_arg, mime, cols, rows) == trim_spec(s),
{
    lemma_subst_pass_no_percent(s, 'c', dec_chars(cols as int), false);
    lemma_unescape_pass_no_percent(s, 'c');
    lemma_subst_pass_no_percent(s, 'l', dec_chars(rows as int), false);
    lemma_unescape_pass_no_percent(s, 'l');
    lemma_subst_pass_no_percent(s, 'i', path_arg, false);
    lemma_unescape_pass_no_percent(s, 'i');
    if mime is Some {
        lemma_subst_pass_no_percent(s, 'm', mime->0, false);
        lemma_unescape_pass_no_percent(s, 'm');
    }
}

/// Substitution is idempotent on templates that hold no placeholder
/// character: substituting a second time, with the same arguments, leaves
/// the first result unchanged.
pub proof fn lemma_substitute_idempotent(
    s: Seq<char>,
    path_arg: Seq<char>,
    mime: Option<Seq<char>>,
    cols: u16,
    rows: u16,
)
    requires
        no_placeholder_chars(s),
    ensures
        substitute_spec(
            substitute_spec(s, path_arg, mime, cols, rows),
            path_arg,
            mime,
            cols,
            rows,
        ) == substitute_spec(s, path_arg, mime, cols, rows),
{
    lemma_substitute_spec_no_percent(s, path_arg, mime, cols, rows);
    lemma_trim_no_percent(s);
    lemma_substitute_spec_no_percent(trim_spec(s), path_arg, mime, cols, rows);
    lemma_trim_idempotent(s);
}

/// The terminal size chosen when no live probe answered: the first
/// parsable of the preview-columns and columns values, the first parsable
/// of the preview-lines and lines values, or 80 by 24 when either is
/// missing.
pub open spec fn term_size_fallback_spec(
    fzf_cols: Option<Seq<char>>,
    cols: Option<Seq<char>>,
    fzf_rows: Option<Seq<char>>,
    rows: Option<Seq<char>>,
) -> (u16, u16) {
    let c = first_parsed(fzf_cols, cols);
    let l = first_parsed(fzf_rows, rows);
    if c is Some && l is Some {
        (c->0, l->0)
    } else {
        (80, 24)
    }
}

/// The first of two optional strings that parses as a `u16`.
pub open spec fn first_parsed(a: Option<Seq<char>>, b: Option<Seq<char>>) -> Option<u16> {
    let pa = match a {
        Some(s) => crate::text::parse_u16_spec(s),
        None => None,
    };
    match pa {
        Some(v) => Some(v),
        None => match b {
            Some(s) => crate::text::parse_u16_spec(s),
            None => None,
        },
    }
}

fn first_parsed_exec(a: Option<&str>, b: Option<&str>) -> (r: Option<u16>)
    ensures
        r == first_parsed(opt_view(a), opt_view(b)),
{
    if let Some(s) = a {
        if let Some(v) = crate::text::parse_u16(s) {
            return Some(v);
        }
    }
    match b {
        Some(s) => crate::text::parse_u16(s),
        None => None,
    }
}

/// The terminal size to use when no live probe answered, from the
/// `FZF_PREVIEW_COLUMNS` / `COLUMNS` / `FZF_PREVIEW_LINES` / `LINES`
/// environment values handed in by the caller.
pub fn term_size_fallback(
    fzf_cols: Option<&str>,
    cols: Option<&str>,
    fzf_rows: Option<&str>,
    rows: Option<&str>,
) -> (r: (u16, u16))
    ensures
        r == term_size_fallback_spec(
            opt_view(fzf_cols),
            opt_view(cols),
            opt_view(fzf_rows),
            opt_view(rows),
        ),
{
    let c = first_parsed_exec(fzf_cols, cols);
    let l = first_parsed_exec(fzf_rows, rows);
    if let (Some(cv), Some(lv)) = (c, l) {
        (cv, lv)
    } else {
        (80, 24)
    }
}

} // verus!
