//! The runtime mode and how it is chosen from the environment value and
//! the binary name that the caller read.

use vstd::prelude::*;
use crate::error::HandlerError;
use crate::text::chars_eq_str;
use crate::text::chars_to_string;
use crate::text::str_eq;
use crate::text::str_to_chars;

verus! {

/// What one invocation is asked to do.
#[derive(Clone, Copy, Debug, PartialEq, Eq, Structural)]
pub enum RsopMode {
    Preview,
    Open,
    XdgOpen,
    Edit,
    Identify,
}

impl Default for RsopMode {
    /// The mode used when nothing selects one.
    fn default() -> (r: Self)
        ensures
            r == RsopMode::Open,
    {
        RsopMode::Open
    }
}

/// ASCII lower-casing of one character.
pub open spec fn lower_ascii_char(c: char) -> char {
    if 'A' as u32 <= c as u32 && c as u32 <= 'Z' as u32 {
        (c as u32 + 32) as char
    } else {
        c
    }
}

/// ASCII lower-casing of a character sequence.
pub open spec fn lower_ascii(s: Seq<char>) -> Seq<char> {
    s.map_values(|c: char| lower_ascii_char(c))
}

/// The mode a name selects, compared ASCII-case-insensitively against the
/// kebab-case mode names.
pub open spec fn mode_of_name(s: Seq<char>) -> Option<RsopMode> {
    let l = lower_ascii(s);
    if l == "preview"@ {
        Some(RsopMode::Preview)
    } else if l == "open"@ {
        Some(RsopMode::Open)
    } else if l == "xdg-open"@ {
        Some(RsopMode::XdgOpen)
    } else if l == "edit"@ {
        Some(RsopMode::Edit)
    } else if l == "identify"@ {
        Some(RsopMode::Identify)
    } else {
        None
    }
}

/// The mode bound to an invoked binary name, if any.
pub open spec fn mode_of_bin_name(s: Seq<char>) -> Option<RsopMode> {
    if s == "rsp"@ {
        Some(RsopMode::Preview)
    } else if s == "rso"@ {
        Some(RsopMode::Open)
    } else if s == "xdg-open"@ {
        Some(RsopMode::XdgOpen)
    } else if s == "rse"@ {
        Some(RsopMode::Edit)
    } else if s == "rsi"@ {
        Some(RsopMode::Identify)
    } else {
        None
    }
}

fn lower_ascii_exec(c: char) -> (r: char)
    ensures
        r == lower_ascii_char(c),
{
    let u = c as u32;
    if 65 <= u && u <= 90 {
        proof {
            assert(('A' as u32) == 65 && ('Z' as u32) == 90);
        }
        ((u + 32) as u8) as char
    } else {
        proof {
            assert(('A' as u32) == 65 && ('Z' as u32) == 90);
        }
        c
    }
}

/// Parse a mode name, ASCII-case-insensitively.
pub fn mode_from_str(s: &str) -> (r: Option<RsopMode>)
    ensures
        r == mode_of_name(s@),
{
    let cs = str_to_chars(s);
    let mut l: Vec<char> = Vec::new();
    let n = cs.len();
    let mut i: usize = 0;
    while i < n
        invariant
            i <= n,
            n == cs@.len(),
            cs@ == s@,
            l@ =~= lower_ascii(s@).take(i as int),
        decreases n - i,
    {
        l.push(lower_ascii_exec(cs[i]));
        proof {
            assert(lower_ascii(s@)[i as int] == lower_ascii_char(s@[i as int]));
            assert(l@ =~= lower_ascii(s@).take(i + 1 as int));
        }
        i = i + 1;
    }
    proof {
        assert(lower_ascii(s@).take(n as int) =~= lower_ascii(s@));
    }
    if chars_eq_str(&l, "preview") {
        Some(RsopMode::Preview)
    } else if chars_eq_str(&l, "open") {
        Some(RsopMode::Open)
    } else if chars_eq_str(&l, "xdg-open") {
        Some(RsopMode::XdgOpen)
    } else if chars_eq_str(&l, "edit") {
        Some(RsopMode::Edit)
    } else if chars_eq_str(&l, "identify") {
        Some(RsopMode::Identify)
    } else {
        None
    }
}

/// The mode bound to an invoked binary name, if any.
pub fn mode_from_bin_name(s: &str) -> (r: Option<RsopMode>)
    ensures
        r == mode_of_bin_name(s@),
{
    if str_eq(s, "rsp") {
        Some(RsopMode::Preview)
    } else if str_eq(s, "rso") {
        Some(RsopMode::Open)
    } else if str_eq(s, "xdg-open") {
        Some(RsopMode::XdgOpen)
    } else if str_eq(s, "rse") {
        Some(RsopMode::Edit)
    } else if str_eq(s, "rsi") {
        Some(RsopMode::Identify)
    } else {
        None
    }
}

/// The kebab-case name of the mode.
pub fn mode_name(mode: &RsopMode) -> (r: String)
    ensures
        match mode {
            RsopMode::Preview => r@ == "preview"@,
            RsopMode::Open => r@ == "open"@,
            RsopMode::XdgOpen => r@ == "xdg-open"@,
            RsopMode::Edit => r@ == "edit"@,
            RsopMode::Identify => r@ == "identify"@,
        },
{
    let v = match mode {
        RsopMode::Preview => str_to_chars("preview"),
        RsopMode::Open => str_to_chars("open"),
        RsopMode::XdgOpen => str_to_chars("xdg-open"),
        RsopMode::Edit => str_to_chars("edit"),
        RsopMode::Identify => str_to_chars("identify"),
    };
    chars_to_string(&v)
}

/// Decide the runtime mode from the `RSOP_MODE` environment value and the
/// invoked binary name, both handed in by the caller.
///
/// An environment value that names no mode is an error; an unknown or
/// missing binary name falls back to the default mode.
pub fn runtime_mode(env_mode: Option<&str>, bin_name: Option<&str>) -> (r: Result<
    RsopMode,
    HandlerError,
>)
    ensures
        match env_mode {
            Some(e) => {
                &&& (r is Ok <==> mode_of_name(e@) is Some)
                &&& (r is Ok ==> r->Ok_0 == mode_of_name(e@)->0)
                &&& (r is Err ==> r->Err_0 is Other)
            },
            None => {
                &&& r is Ok
                &&& r->Ok_0 == (match bin_name {
                    Some(b) => if mode_of_bin_name(b@) is Some {
                        mode_of_bin_name(b@)->0
                    } else {
                        RsopMode::Open
                    },
                    None => RsopMode::Open,
                })
            },
        },
{
    match env_mode {
        Some(e) => match mode_from_str(e) {
            Some(m) => Ok(m),
            None => Err(HandlerError::other("unexpected value for RSOP_MODE")),
        },
        None => {
            if let Some(b) = bin_name {
                if let Some(m) = mode_from_bin_name(b) {
                    return Ok(m);
                }
            }
            Ok(RsopMode::Open)
        },
    }
}

} // verus!
