use vstd::prelude::*;
use vstd::slice::slice_subrange;

verus! {

/// Why a production did not match. Carries no position and never allocates.
#[derive(Debug, Clone, Copy, PartialEq, Eq, Structural)]
pub enum Error {
    Literal,
    Whitespace,
    Word,
    Address,
    MessageId,
    DateTime,
    Field,
}

/// A piece of decoded header text: either a range of the input or bytes
/// produced while decoding (quoted strings, unfolded text).
#[derive(Debug)]
pub enum Text<'a> {
    Borrowed(&'a [u8]),
    Owned(Vec<u8>),
}

impl<'a> View for Text<'a> {
    type V = Seq<u8>;

    open spec fn view(&self) -> Seq<u8> {
        match self {
            Text::Borrowed(b) => b@,
            Text::Owned(v) => v@,
        }
    }
}

impl<'a> Text<'a> {
    /// The decoded bytes, whatever the storage.
    pub fn as_bytes(&self) -> (r: &[u8])
        ensures
            r@ == self@,
    {
        match self {
            Text::Borrowed(b) => b,
            Text::Owned(v) => v.as_slice(),
        }
    }

    pub fn len(&self) -> (r: usize)
        ensures
            r == self@.len(),
    {
        match self {
            Text::Borrowed(b) => b.len(),
            Text::Owned(v) => v.len(),
        }
    }
}

/// What a production returns: the rest of the input and the value read.
pub type Res<'a, T> = Result<(&'a [u8], T), Error>;

/// A production's result as a model: the rest of the input and the value's
/// model, or nothing when the production failed.
pub open spec fn res_view<'a, T, V>(r: Res<'a, T>, f: spec_fn(T) -> V) -> Option<(Seq<u8>, V)> {
    match r {
        Ok((rest, v)) => Some((rest@, f(v))),
        Err(_) => None,
    }
}

/// The rest of the input after a production that yields no value.
pub open spec fn rest_of<'a>(r: Res<'a, ()>) -> Option<Seq<u8>> {
    match r {
        Ok((rest, _)) => Some(rest@),
        Err(_) => None,
    }
}

/// Appends the bytes of `b` to `v`.
pub(crate) fn append_bytes(v: &mut Vec<u8>, b: &[u8])
    ensures
        final(v)@ == old(v)@ + b@,
{
    let ghost start = v@;
    let mut k: usize = 0;
    while k < b.len()
        invariant
            k <= b@.len(),
            v@ == start + b@.take(k as int),
        decreases b@.len() - k,
    {
        v.push(b[k]);
        k = k + 1;
        assert(b@.take(k as int) =~= b@.take(k - 1) + seq![b@[k - 1]]);
        assert(v@ =~= start + b@.take(k as int));
    }
    assert(b@.take(k as int) =~= b@);
}

/// ASCII case fold of one byte.
pub open spec fn lower(b: u8) -> u8 {
    if 65 <= b <= 90 {
        (b + 32) as u8
    } else {
        b
    }
}

/// Case-insensitive literal match against a lower-case pattern.
pub open spec fn spec_tag_ci(s: Seq<u8>, pat: Seq<u8>) -> Option<Seq<u8>> {
    if pat.len() <= s.len() && (forall|j: int| 0 <= j < pat.len() ==> lower(#[trigger] s[j]) == pat[j]) {
        Some(s.skip(pat.len() as int))
    } else {
        None
    }
}

/// Matches `pat`, written in lower case, at the start of `input` in any casing.
pub fn tag_no_case<'a>(input: &'a [u8], pat: &[u8]) -> (r: Result<&'a [u8], Error>)
    ensures
        match r {
            Ok(rest) => spec_tag_ci(input@, pat@) == Some(rest@),
            Err(_) => spec_tag_ci(input@, pat@) is None,
        },
{
    if pat.len() > input.len() {
        return Err(Error::Literal);
    }
    let mut k: usize = 0;
    while k < pat.len()
        invariant
            pat@.len() <= input@.len(),
            k <= pat@.len(),
            forall|j: int| 0 <= j < k ==> lower(#[trigger] input@[j]) == pat@[j],
        decreases pat@.len() - k,
    {
        let b = input[k];
        let l: u8 = if 65 <= b && b <= 90 { b + 32 } else { b };
        if l != pat[k] {
            return Err(Error::Literal);
        }
        k = k + 1;
    }
    Ok(slice_subrange(input, pat.len(), input.len()))
}

/// One given byte.
pub open spec fn spec_byte(s: Seq<u8>, b: u8) -> Option<Seq<u8>> {
    if s.len() > 0 && s[0] == b {
        Some(s.skip(1))
    } else {
        None
    }
}

/// Matches the byte `b` at the start of `input`.
pub fn byte<'a>(input: &'a [u8], b: u8) -> (r: Result<&'a [u8], Error>)
    ensures
        match r {
            Ok(rest) => spec_byte(input@, b) == Some(rest@),
            Err(_) => spec_byte(input@, b) is None,
        },
{
    if input.len() > 0 && input[0] == b {
        Ok(slice_subrange(input, 1, input.len()))
    } else {
        Err(Error::Literal)
    }
}

} // verus!
