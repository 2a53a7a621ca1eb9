use vstd::prelude::*;

verus! {

/// The byte classes of the header grammar.
#[derive(Debug, Clone, Copy, PartialEq, Eq, Structural)]
pub enum Class {
    /// space or horizontal tab
    Wsp,
    /// characters allowed in an atom
    Atext,
    /// visible characters
    Vchar,
    /// characters allowed in a field name
    Ftext,
    /// characters allowed in a quoted string
    Qtext,
    /// characters allowed in a comment
    Ctext,
    /// characters allowed in a domain literal
    Dtext,
    /// decimal digits
    Digit,
}

pub open spec fn is_atext(b: u8) -> bool {
    (48 <= b <= 57) || (65 <= b <= 90) || (97 <= b <= 122) || b == 33 || (35 <= b <= 39) || b == 42
        || b == 43 || b == 45 || b == 47 || b == 61 || b == 63 || (94 <= b <= 96) || (123 <= b <= 126)
}

pub open spec fn in_class(c: Class, b: u8) -> bool {
    match c {
        Class::Wsp => b == 32 || b == 9,
        Class::Atext => is_atext(b),
        Class::Vchar => 33 <= b <= 126,
        Class::Ftext => (33 <= b <= 57) || (59 <= b <= 126),
        Class::Qtext => b == 33 || (35 <= b <= 91) || (93 <= b <= 126),
        Class::Ctext => (33 <= b <= 39) || (42 <= b <= 91) || (93 <= b <= 126),
        Class::Dtext => (33 <= b <= 90) || (94 <= b <= 126),
        Class::Digit => 48 <= b <= 57,
    }
}

/// Tests a byte against a class.
pub fn is_in(c: Class, b: u8) -> (r: bool)
    ensures
        r == in_class(c, b),
{
    match c {
        Class::Wsp => b == 32 || b == 9,
        Class::Atext => {
            (48 <= b && b <= 57) || (65 <= b && b <= 90) || (97 <= b && b <= 122) || b == 33 || (35 <= b
                && b <= 39) || b == 42 || b == 43 || b == 45 || b == 47 || b == 61 || b == 63 || (94 <= b
                && b <= 96) || (123 <= b && b <= 126)
        },
        Class::Vchar => 33 <= b && b <= 126,
        Class::Ftext => (33 <= b && b <= 57) || (59 <= b && b <= 126),
        Class::Qtext => b == 33 || (35 <= b && b <= 91) || (93 <= b && b <= 126),
        Class::Ctext => (33 <= b && b <= 39) || (42 <= b && b <= 91) || (93 <= b && b <= 126),
        Class::Dtext => (33 <= b && b <= 90) || (94 <= b && b <= 126),
        Class::Digit => 48 <= b && b <= 57,
    }
}

/// End of the maximal run of bytes of class `c` that starts at `i`.
pub open spec fn run_end(s: Seq<u8>, c: Class, i: int) -> int
    decreases s.len() - i,
{
    if 0 <= i < s.len() && in_class(c, s[i]) {
        run_end(s, c, i + 1)
    } else {
        i
    }
}

pub proof fn lemma_run_end_bounds(s: Seq<u8>, c: Class, i: int)
    requires
        0 <= i <= s.len(),
    ensures
        i <= run_end(s, c, i) <= s.len(),
    decreases s.len() - i,
{
    if i < s.len() && in_class(c, s[i]) {
        lemma_run_end_bounds(s, c, i + 1);
    }
}

/// Index where the run of class `c` starting at `i` ends.
pub fn scan(s: &[u8], c: Class, i: usize) -> (r: usize)
    requires
        i <= s@.len(),
    ensures
        r == run_end(s@, c, i as int),
        i <= r <= s@.len(),
{
    let mut k: usize = i;
    while k < s.len() && is_in(c, s[k])
        invariant
            i <= k <= s@.len(),
            run_end(s@, c, i as int) == run_end(s@, c, k as int),
        decreases s@.len() - k,
    {
        k = k + 1;
    }
    k
}

} // verus!
