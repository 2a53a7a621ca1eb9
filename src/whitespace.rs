use vstd::prelude::*;
use vstd::slice::slice_subrange;
use crate::chars::{in_class, is_in, run_end, scan, Class};
use crate::text::{res_view, rest_of, Error, Res};

verus! {

/// Folding white space: optional blanks, then either a line break followed by
/// at least one blank, or nothing more when some blank was seen.
pub open spec fn spec_fws(s: Seq<u8>) -> Option<Seq<u8>> {
    let n = run_end(s, Class::Wsp, 0);
    if n + 2 < s.len() && s[n] == 13 && s[n + 1] == 10 && in_class(Class::Wsp, s[n + 2]) {
        Some(s.skip(run_end(s, Class::Wsp, n + 2)))
    } else if n > 0 {
        Some(s.skip(n))
    } else {
        None
    }
}

pub fn fws(input: &[u8]) -> (r: Res<()>)
    ensures
        rest_of(r) == spec_fws(input@),
{
    let n = scan(input, Class::Wsp, 0);
    if n < input.len() && input.len() - n > 2 && input[n] == 13 && input[n + 1] == 10 && is_in(Class::Wsp, input[n + 2]) {
        let e = scan(input, Class::Wsp, n + 2);
        Ok((slice_subrange(input, e, input.len()), ()))
    } else if n > 0 {
        Ok((slice_subrange(input, n, input.len()), ()))
    } else {
        Err(Error::Whitespace)
    }
}

/// A backslash followed by a visible character or a blank; yields that character.
pub open spec fn spec_quoted_pair(s: Seq<u8>) -> Option<(Seq<u8>, u8)> {
    if s.len() >= 2 && s[0] == 92 && (in_class(Class::Vchar, s[1]) || in_class(Class::Wsp, s[1])) {
        Some((s.skip(2), s[1]))
    } else {
        None
    }
}

pub fn quoted_pair(input: &[u8]) -> (r: Res<u8>)
    ensures
        res_view(r, |v: u8| v) == spec_quoted_pair(input@),
{
    if input.len() >= 2 && input[0] == 92 && (is_in(Class::Vchar, input[1]) || is_in(Class::Wsp, input[1])) {
        Ok((slice_subrange(input, 2, input.len()), input[1]))
    } else {
        Err(Error::Whitespace)
    }
}

/// A parenthesised comment, which may nest.
pub open spec fn spec_comment(s: Seq<u8>) -> Option<Seq<u8>>
    decreases s.len(), 0int,
{
    if s.len() > 0 && s[0] == 40 {
        spec_comment_rest(s.skip(1))
    } else {
        None
    }
}

/// One piece of a comment's content: folding white space, a comment
/// character, a quoted pair, or a nested comment.
pub open spec fn spec_comment_item(s: Seq<u8>) -> Option<Seq<u8>>
    decreases s.len(), 1int,
{
    if spec_fws(s) is Some {
        spec_fws(s)
    } else if s.len() > 0 && in_class(Class::Ctext, s[0]) {
        Some(s.skip(1))
    } else {
        match spec_quoted_pair(s) {
            Some((r, _)) => Some(r),
            None => spec_comment(s),
        }
    }
}

/// The content of a comment up to and including its closing parenthesis.
pub open spec fn spec_comment_rest(s: Seq<u8>) -> Option<Seq<u8>>
    decreases s.len(), 2int,
{
    if s.len() == 0 {
        None
    } else if s[0] == 41 {
        Some(s.skip(1))
    } else {
        match spec_comment_item(s) {
            Some(r) => if r.len() < s.len() {
                spec_comment_rest(r)
            } else {
                None
            },
            None => None,
        }
    }
}

pub fn comment(input: &[u8]) -> (r: Res<()>)
    ensures
        rest_of(r) == spec_comment(input@),
    decreases input@.len(), 0int,
{
    if input.len() > 0 && input[0] == 40 {
        comment_rest(slice_subrange(input, 1, input.len()))
    } else {
        Err(Error::Whitespace)
    }
}

fn comment_item(input: &[u8]) -> (r: Res<()>)
    ensures
        rest_of(r) == spec_comment_item(input@),
    decreases input@.len(), 1int,
{
    if let Ok(x) = fws(input) {
        Ok(x)
    } else if input.len() > 0 && is_in(Class::Ctext, input[0]) {
        Ok((slice_subrange(input, 1, input.len()), ()))
    } else if let Ok((rest, _)) = quoted_pair(input) {
        Ok((rest, ()))
    } else {
        comment(input)
    }
}

fn comment_rest(input: &[u8]) -> (r: Res<()>)
    ensures
        rest_of(r) == spec_comment_rest(input@),
    decreases input@.len(), 2int,
{
    let mut cur = input;
    loop
        invariant
            cur@.len() <= input@.len(),
            spec_comment_rest(input@) == spec_comment_rest(cur@),
        decreases cur@.len(),
    {
        if cur.len() == 0 {
            return Err(Error::Whitespace);
        }
        if cur[0] == 41 {
            return Ok((slice_subrange(cur, 1, cur.len()), ()));
        }
        match comment_item(cur) {
            Ok((rest, _)) => {
                if rest.len() < cur.len() {
                    cur = rest;
                } else {
                    return Err(Error::Whitespace);
                }
            },
            Err(e) => {
                return Err(e);
            },
        }
    }
}

/// One piece of CFWS: folding white space or a comment.
pub open spec fn spec_cfws_item(s: Seq<u8>) -> Option<Seq<u8>> {
    if spec_fws(s) is Some {
        spec_fws(s)
    } else {
        spec_comment(s)
    }
}

/// As many CFWS pieces as follow.
pub open spec fn spec_cfws_more(s: Seq<u8>) -> Seq<u8>
    decreases s.len(),
{
    match spec_cfws_item(s) {
        Some(r) => if r.len() < s.len() {
            spec_cfws_more(r)
        } else {
            s
        },
        None => s,
    }
}

/// Comments and folding white space: at least one piece.
pub open spec fn spec_cfws(s: Seq<u8>) -> Option<Seq<u8>> {
    match spec_cfws_item(s) {
        Some(r) => Some(spec_cfws_more(r)),
        None => None,
    }
}

/// Optional CFWS: the input unchanged when none is there.
pub open spec fn spec_opt_cfws(s: Seq<u8>) -> Seq<u8> {
    match spec_cfws(s) {
        Some(r) => r,
        None => s,
    }
}

fn cfws_item(input: &[u8]) -> (r: Res<()>)
    ensures
        rest_of(r) == spec_cfws_item(input@),
{
    if let Ok(x) = fws(input) {
        Ok(x)
    } else {
        comment(input)
    }
}

pub fn cfws(input: &[u8]) -> (r: Res<()>)
    ensures
        rest_of(r) == spec_cfws(input@),
{
    let (mut cur, _) = cfws_item(input)?;
    loop
        invariant
            spec_cfws(input@) == Some(spec_cfws_more(cur@)),
        decreases cur@.len(),
    {
        match cfws_item(cur) {
            Ok((rest, _)) => {
                if rest.len() < cur.len() {
                    cur = rest;
                } else {
                    return Ok((cur, ()));
                }
            },
            Err(_) => {
                return Ok((cur, ()));
            },
        }
    }
}

pub fn opt_cfws(input: &[u8]) -> (r: &[u8])
    ensures
        r@ == spec_opt_cfws(input@),
{
    match cfws(input) {
        Ok((rest, _)) => rest,
        Err(_) => input,
    }
}

} // verus!
