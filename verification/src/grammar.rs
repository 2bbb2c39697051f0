//! Byte classes of the request line, and where a run of one class ends.
use vstd::prelude::*;

verus! {

/// The token characters of HTTP: ASCII letters and digits, and the fifteen
/// symbols ``! # $ % & ' * + - . ^ _ ` | ~``.
pub open spec fn tchar(c: u8) -> bool {
    ||| 0x30 <= c <= 0x39
    ||| 0x41 <= c <= 0x5a
    ||| 0x61 <= c <= 0x7a
    ||| c == 0x21
    ||| c == 0x23
    ||| c == 0x24
    ||| c == 0x25
    ||| c == 0x26
    ||| c == 0x27
    ||| c == 0x2a
    ||| c == 0x2b
    ||| c == 0x2d
    ||| c == 0x2e
    ||| c == 0x5e
    ||| c == 0x5f
    ||| c == 0x60
    ||| c == 0x7c
    ||| c == 0x7e
}

/// The separator bytes: space, horizontal tab, line feed, vertical tab, form
/// feed and carriage return.
pub open spec fn whitespace(c: u8) -> bool {
    c == 0x20 || 0x09 <= c <= 0x0d
}

/// The bytes a request target is made of: everything but the separators.
pub open spec fn target_byte(c: u8) -> bool {
    !whitespace(c)
}

/// The three kinds of run that a request line is cut into.
#[derive(Clone, Copy, Debug, PartialEq, Eq, Structural)]
pub enum ByteClass {
    /// Token characters: what a method is made of.
    Token,
    /// Separator bytes: what stands between method and target.
    Separator,
    /// Anything but a separator: what a target is made of.
    Target,
}

impl ByteClass {
    /// Whether `c` belongs to the class.
    pub open spec fn has(self, c: u8) -> bool {
        match self {
            ByteClass::Token => tchar(c),
            ByteClass::Separator => whitespace(c),
            ByteClass::Target => target_byte(c),
        }
    }

    /// Whether `c` belongs to the class.
    #[verifier::when_used_as_spec(has)]
    pub fn contains(self, c: u8) -> (res: bool)
        ensures
            res == self.has(c),
    {
        match self {
            ByteClass::Token => is_tchar(c),
            ByteClass::Separator => is_whitespace(c),
            ByteClass::Target => !is_whitespace(c),
        }
    }
}

/// The end of the run of bytes of class `keep` that starts at `from`: the
/// first position at or after `from` whose byte is not of the class, or the
/// length of `s` where there is none. A `from` outside `s` is returned
/// unchanged.
pub open spec fn run_end(s: Seq<u8>, from: int, keep: ByteClass) -> int
    decreases s.len() - from,
{
    if 0 <= from < s.len() && keep.has(s[from]) {
        run_end(s, from + 1, keep)
    } else {
        from
    }
}

/// `run_end` stops inside the buffer, every byte it passed satisfies `keep`,
/// and the byte it stopped at, if there is one, does not.
pub proof fn lemma_run_end(s: Seq<u8>, from: int, keep: ByteClass)
    requires
        0 <= from <= s.len(),
    ensures
        from <= run_end(s, from, keep) <= s.len(),
        forall|i: int| from <= i < run_end(s, from, keep) ==> keep.has(#[trigger] s[i]),
        run_end(s, from, keep) < s.len() ==> !keep.has(s[run_end(s, from, keep)]),
    decreases s.len() - from,
{
    if from < s.len() && keep.has(s[from]) {
        lemma_run_end(s, from + 1, keep);
    }
}

/// A position is the end of the run as soon as the bytes before it satisfy
/// `keep` and its own byte, if there is one, does not.
pub proof fn lemma_run_end_unique(s: Seq<u8>, from: int, keep: ByteClass, end: int)
    requires
        0 <= from <= end <= s.len(),
        forall|i: int| from <= i < end ==> keep.has(#[trigger] s[i]),
        end < s.len() ==> !keep.has(s[end]),
    ensures
        run_end(s, from, keep) == end,
    decreases end - from,
{
    if from < end {
        lemma_run_end_unique(s, from + 1, keep, end);
    }
}

/// The run that starts at `from` ends where the run that starts at the
/// beginning of the rest of the buffer ends.
pub proof fn lemma_run_end_of_rest(s: Seq<u8>, from: int, keep: ByteClass)
    requires
        0 <= from <= s.len(),
    ensures
        run_end(s, from, keep) == from + run_end(s.subrange(from, s.len() as int), 0, keep),
{
    let rest = s.subrange(from, s.len() as int);
    lemma_run_end(rest, 0, keep);
    let end = from + run_end(rest, 0, keep);
    assert forall|i: int| from <= i < end implies keep.has(#[trigger] s[i]) by {
        assert(s[i] == rest[i - from]);
    }
    if end < s.len() {
        assert(s[end] == rest[end - from]);
    }
    lemma_run_end_unique(s, from, keep, end);
}

/// Finds where the run of class `keep` that starts at `from` ends.
pub fn scan(r: &[u8], from: usize, keep: ByteClass) -> (end: usize)
    ensures
        end == run_end(r@, from as int, keep),
{
    if from >= r.len() {
        return from;
    }
    let mut end: usize = from;
    while end < r.len() && keep.contains(r[end])
        invariant
            from <= end <= r@.len(),
            forall|i: int| from <= i < end ==> keep.has(#[trigger] r@[i]),
        decreases r@.len() - end,
    {
        end += 1;
    }
    proof {
        lemma_run_end_unique(r@, from as int, keep, end as int);
    }
    end
}

/// Whether `c` is a token character.
#[verifier::when_used_as_spec(tchar)]
pub fn is_tchar(c: u8) -> (res: bool)
    ensures
        res == tchar(c),
{
    (0x30 <= c && c <= 0x39) || (0x41 <= c && c <= 0x5a) || (0x61 <= c && c <= 0x7a) || c == 0x21
        || (0x23 <= c && c <= 0x27) || c == 0x2a || c == 0x2b || c == 0x2d || c == 0x2e
        || (0x5e <= c && c <= 0x60) || c == 0x7c || c == 0x7e
}

/// Whether `c` is a separator byte.
#[verifier::when_used_as_spec(whitespace)]
pub fn is_whitespace(c: u8) -> (res: bool)
    ensures
        res == whitespace(c),
{
    c == 0x20 || (0x09 <= c && c <= 0x0d)
}

} // verus!
