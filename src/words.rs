use vstd::prelude::*;
use vstd::slice::slice_subrange;
use crate::chars::{in_class, is_in, lemma_run_end_bounds, run_end, scan, Class};
use crate::text::{append_bytes, res_view, Error, Res, Text};
use crate::whitespace::{fws, opt_cfws, quoted_pair, spec_fws, spec_opt_cfws, spec_quoted_pair};

verus! {

/// Models of a sequence of texts.
pub open spec fn texts<'a>(v: Seq<Text<'a>>) -> Seq<Seq<u8>> {
    v.map_values(|t: Text<'a>| t@)
}

/// At least one byte of class `c`: the run and what follows it.
pub open spec fn spec_take_while1(s: Seq<u8>, c: Class) -> Option<(Seq<u8>, Seq<u8>)> {
    let n = run_end(s, c, 0);
    if n > 0 {
        Some((s.skip(n), s.take(n)))
    } else {
        None
    }
}

pub fn take_while1<'a>(input: &'a [u8], c: Class) -> (r: Res<'a, Text<'a>>)
    ensures
        res_view(r, |t: Text<'a>| t@) == spec_take_while1(input@, c),
{
    let n = scan(input, c, 0);
    if n > 0 {
        Ok((slice_subrange(input, n, input.len()), Text::Borrowed(slice_subrange(input, 0, n))))
    } else {
        Err(Error::Word)
    }
}

/// Atom: optional CFWS, a run of atom characters, optional CFWS; yields the run.
pub open spec fn spec_atom(s: Seq<u8>) -> Option<(Seq<u8>, Seq<u8>)> {
    match spec_take_while1(spec_opt_cfws(s), Class::Atext) {
        Some((r, v)) => Some((spec_opt_cfws(r), v)),
        None => None,
    }
}

pub fn atom<'a>(input: &'a [u8]) -> (r: Res<'a, Text<'a>>)
    ensures
        res_view(r, |t: Text<'a>| t@) == spec_atom(input@),
{
    let input = opt_cfws(input);
    let (input, v) = take_while1(input, Class::Atext)?;
    Ok((opt_cfws(input), v))
}

/// End of a dot-atom text whose last atom run ends at `i`: each further
/// dot must be followed by a non-empty run.
pub open spec fn dot_atom_end(s: Seq<u8>, i: int) -> int
    decreases s.len() - i,
{
    if 0 <= i && i + 1 < s.len() && s[i] == 46 && i + 1 < run_end(s, Class::Atext, i + 1) <= s.len() {
        dot_atom_end(s, run_end(s, Class::Atext, i + 1))
    } else {
        i
    }
}

/// Dot-atom text: atom runs separated by single dots; yields the whole spelling.
pub open spec fn spec_dot_atom_text(s: Seq<u8>) -> Option<(Seq<u8>, Seq<u8>)> {
    let n = run_end(s, Class::Atext, 0);
    if n > 0 {
        let e = dot_atom_end(s, n);
        Some((s.skip(e), s.take(e)))
    } else {
        None
    }
}

pub fn dot_atom_text<'a>(input: &'a [u8]) -> (r: Res<'a, Text<'a>>)
    ensures
        res_view(r, |t: Text<'a>| t@) == spec_dot_atom_text(input@),
        r is Ok ==> r->Ok_0.1@.len() > 0,
{
    let n = scan(input, Class::Atext, 0);
    if n == 0 {
        return Err(Error::Word);
    }
    let mut e: usize = n;
    while e < input.len() && input.len() - e > 1 && input[e] == 46 && scan(input, Class::Atext, e + 1) > e
        + 1
        invariant
            0 < e <= input@.len(),
            dot_atom_end(input@, n as int) == dot_atom_end(input@, e as int),
        decreases input@.len() - e,
    {
        e = scan(input, Class::Atext, e + 1);
    }
    Ok((slice_subrange(input, e, input.len()), Text::Borrowed(slice_subrange(input, 0, e))))
}

/// Dot-atom: dot-atom text between optional CFWS.
pub open spec fn spec_dot_atom(s: Seq<u8>) -> Option<(Seq<u8>, Seq<u8>)> {
    match spec_dot_atom_text(spec_opt_cfws(s)) {
        Some((r, v)) => Some((spec_opt_cfws(r), v)),
        None => None,
    }
}

pub fn dot_atom<'a>(input: &'a [u8]) -> (r: Res<'a, Text<'a>>)
    ensures
        res_view(r, |t: Text<'a>| t@) == spec_dot_atom(input@),
        r is Ok ==> r->Ok_0.1@.len() > 0,
{
    let input = opt_cfws(input);
    let (input, v) = dot_atom_text(input)?;
    Ok((opt_cfws(input), v))
}

/// One piece of a quoted string's content and what it decodes to: folding
/// white space reads as one space, a quoted pair as its character.
pub open spec fn spec_qs_item(s: Seq<u8>) -> Option<(Seq<u8>, Seq<u8>)> {
    if spec_fws(s) is Some {
        Some((spec_fws(s)->0, seq![32u8]))
    } else if s.len() > 0 && in_class(Class::Qtext, s[0]) {
        Some((s.skip(1), seq![s[0]]))
    } else {
        match spec_quoted_pair(s) {
            Some((r, c)) => Some((r, seq![c])),
            None => None,
        }
    }
}

/// The content of a quoted string up to its closing quote, decoded.
pub open spec fn spec_qs_body(s: Seq<u8>) -> Option<(Seq<u8>, Seq<u8>)>
    decreases s.len(),
{
    if s.len() == 0 {
        None
    } else if s[0] == 34 {
        Some((s.skip(1), Seq::empty()))
    } else {
        match spec_qs_item(s) {
            Some((r, d)) => if r.len() < s.len() {
                match spec_qs_body(r) {
                    Some((r2, d2)) => Some((r2, d + d2)),
                    None => None,
                }
            } else {
                None
            },
            None => None,
        }
    }
}

/// Quoted string: optional CFWS, a double quote, content, a double quote,
/// optional CFWS; yields the decoded content, which is a range of the input
/// when nothing needed decoding.
pub open spec fn spec_quoted_string(s: Seq<u8>) -> Option<(Seq<u8>, Seq<u8>)> {
    let t = spec_opt_cfws(s);
    if t.len() > 0 && t[0] == 34 {
        match spec_qs_body(t.skip(1)) {
            Some((r, d)) => Some((spec_opt_cfws(r), d)),
            None => None,
        }
    } else {
        None
    }
}

pub fn quoted_string<'a>(input: &'a [u8]) -> (r: Res<'a, Text<'a>>)
    ensures
        res_view(r, |t: Text<'a>| t@) == spec_quoted_string(input@),
{
    let t = opt_cfws(input);
    if t.len() == 0 || t[0] != 34 {
        return Err(Error::Word);
    }
    let start = slice_subrange(t, 1, t.len());
    let mut cur = start;
    let mut out: Vec<u8> = Vec::new();
    let mut rewritten = false;
    loop
        invariant
            spec_quoted_string(input@) == match spec_qs_body(start@) {
                Some((r, d)) => Some((spec_opt_cfws(r), d)),
                None => None,
            },
            spec_qs_body(start@) == match spec_qs_body(cur@) {
                Some((r, d)) => Some((r, out@ + d)),
                None => None,
            },
            !rewritten ==> cur@.len() <= start@.len() && cur@ == start@.skip(start@.len() - cur@.len())
                && out@ == start@.take(start@.len() - cur@.len()),
        decreases cur@.len(),
    {
        if cur.len() == 0 {
            return Err(Error::Word);
        }
        if cur[0] == 34 {
            assert(out@ + Seq::<u8>::empty() =~= out@);
            let rest = opt_cfws(slice_subrange(cur, 1, cur.len()));
            if rewritten {
                return Ok((rest, Text::Owned(out)));
            } else {
                return Ok((rest, Text::Borrowed(slice_subrange(start, 0, start.len() - cur.len()))));
            }
        }
        let ghost before = out@;
        let rest;
        if let Ok((r, _)) = fws(cur) {
            out.push(32);
            rest = r;
            rewritten = true;
        } else if is_in(Class::Qtext, cur[0]) {
            out.push(cur[0]);
            rest = slice_subrange(cur, 1, cur.len());
            proof {
                if !rewritten {
                    let k = start@.len() - cur@.len();
                    assert(start@[k] == cur@[0]);
                    assert(out@ =~= start@.take(k + 1));
                    assert(rest@ =~= start@.skip(k + 1));
                }
            }
        } else if let Ok((r, c)) = quoted_pair(cur) {
            out.push(c);
            rest = r;
            rewritten = true;
        } else {
            return Err(Error::Word);
        }
        if rest.len() >= cur.len() {
            return Err(Error::Word);
        }
        proof {
            let (_, d) = spec_qs_item(cur@).unwrap();
            assert(out@ == before + d);
            match spec_qs_body(rest@) {
                Some((r2, d2)) => {
                    assert(before + (d + d2) =~= out@ + d2);
                },
                None => {},
            }
        }
        cur = rest;
    }
}

/// Word: an atom, else a quoted string.
pub open spec fn spec_word(s: Seq<u8>) -> Option<(Seq<u8>, Seq<u8>)> {
    if spec_atom(s) is Some {
        spec_atom(s)
    } else {
        spec_quoted_string(s)
    }
}

pub fn word<'a>(input: &'a [u8]) -> (r: Res<'a, Text<'a>>)
    ensures
        res_view(r, |t: Text<'a>| t@) == spec_word(input@),
{
    if let Ok(x) = atom(input) {
        Ok(x)
    } else {
        quoted_string(input)
    }
}

/// Further words, as many as follow.
pub open spec fn spec_words(s: Seq<u8>) -> (Seq<u8>, Seq<Seq<u8>>)
    decreases s.len(),
{
    match spec_word(s) {
        Some((r, w)) => if r.len() < s.len() {
            let (r2, ws) = spec_words(r);
            (r2, seq![w] + ws)
        } else {
            (s, Seq::empty())
        },
        None => (s, Seq::empty()),
    }
}

/// Phrase: one or more words.
pub open spec fn spec_phrase(s: Seq<u8>) -> Option<(Seq<u8>, Seq<Seq<u8>>)> {
    match spec_word(s) {
        Some((r, w)) => {
            let (r2, ws) = spec_words(r);
            Some((r2, seq![w] + ws))
        },
        None => None,
    }
}

pub fn phrase<'a>(input: &'a [u8]) -> (r: Res<'a, Vec<Text<'a>>>)
    ensures
        res_view(r, |v: Vec<Text<'a>>| texts(v@)) == spec_phrase(input@),
        r is Ok ==> r->Ok_0.1@.len() > 0,
{
    let (mut cur, first) = word(input)?;
    let mut out: Vec<Text<'a>> = Vec::new();
    out.push(first);
    proof {
        assert(texts(out@) =~= seq![first@]);
    }
    loop
        invariant
            out@.len() > 0,
            spec_phrase(input@) == Some((spec_words(cur@).0, texts(out@) + spec_words(cur@).1)),
        decreases cur@.len(),
    {
        match word(cur) {
            Ok((rest, w)) => {
                if rest.len() < cur.len() {
                    let ghost before = out@;
                    let ghost wv = w@;
                    out.push(w);
                    proof {
                        assert(texts(out@) =~= texts(before) + seq![wv]);
                        let ws = spec_words(rest@).1;
                        assert(texts(before) + (seq![wv] + ws) =~= texts(out@) + ws);
                    }
                    cur = rest;
                } else {
                    proof {
                        assert(texts(out@) + Seq::<Seq<u8>>::empty() =~= texts(out@));
                    }
                    return Ok((cur, out));
                }
            },
            Err(_) => {
                proof {
                    assert(texts(out@) + Seq::<Seq<u8>>::empty() =~= texts(out@));
                }
                return Ok((cur, out));
            },
        }
    }
}

/// Unstructured text: runs of visible characters separated by folding white
/// space. Each separation reads as one space; white space before the first
/// run and after the last one reads as nothing. `started` tells whether a
/// run was already read.
pub open spec fn spec_unstructured_from(s: Seq<u8>, started: bool) -> (Seq<u8>, Seq<u8>)
    decreases s.len(),
{
    if s.len() > 0 && in_class(Class::Vchar, s[0]) {
        let e = run_end(s, Class::Vchar, 0);
        if 0 < e <= s.len() {
            let (r, w) = spec_unstructured_from(s.skip(e), true);
            (r, s.take(e) + w)
        } else {
            (s, Seq::empty())
        }
    } else {
        match spec_fws(s) {
            Some(r) => if r.len() < s.len() && r.len() > 0 && in_class(Class::Vchar, r[0]) {
                let (r2, w) = spec_unstructured_from(r, started);
                (r2, if started { seq![32u8] + w } else { w })
            } else {
                (r, Seq::empty())
            },
            None => (s, Seq::empty()),
        }
    }
}

pub open spec fn spec_unstructured(s: Seq<u8>) -> (Seq<u8>, Seq<u8>) {
    spec_unstructured_from(s, false)
}

/// Unstructured text; never fails, and may be empty.
pub fn unstructured<'a>(input: &'a [u8]) -> (r: (&'a [u8], Text<'a>))
    ensures
        (r.0@, r.1@) == spec_unstructured(input@),
{
    let mut cur = input;
    let mut started = false;
    let mut out: Vec<u8> = Vec::new();
    loop
        invariant
            spec_unstructured(input@) == (spec_unstructured_from(cur@, started).0, out@
                + spec_unstructured_from(cur@, started).1),
        decreases cur@.len(),
    {
        let ghost before = out@;
        if cur.len() > 0 && is_in(Class::Vchar, cur[0]) {
            let e = scan(cur, Class::Vchar, 0);
            proof {
                lemma_run_end_bounds(cur@, Class::Vchar, 1);
            }
            append_bytes(&mut out, slice_subrange(cur, 0, e));
            proof {
                let w = spec_unstructured_from(cur@.skip(e as int), true).1;
                assert(before + (cur@.take(e as int) + w) =~= out@ + w);
            }
            cur = slice_subrange(cur, e, cur.len());
            started = true;
        } else {
            match fws(cur) {
                Ok((r, _)) => {
                    if r.len() < cur.len() && r.len() > 0 && is_in(Class::Vchar, r[0]) {
                        if started {
                            out.push(32);
                            proof {
                                let w = spec_unstructured_from(r@, started).1;
                                assert(before + (seq![32u8] + w) =~= out@ + w);
                            }
                        }
                        cur = r;
                    } else {
                        proof {
                            assert(out@ + Seq::<u8>::empty() =~= out@);
                        }
                        return (r, Text::Owned(out));
                    }
                },
                Err(_) => {
                    proof {
                        assert(out@ + Seq::<u8>::empty() =~= out@);
                    }
                    return (cur, Text::Owned(out));
                },
            }
        }
    }
}

} // verus!
