//! The request line: its parts, and the pass over the bytes that finds them.
use crate::error::{ErrorView, MyError};
use crate::grammar::{
    lemma_run_end, lemma_run_end_of_rest, lemma_run_end_unique, run_end, scan, tchar, whitespace,
    ByteClass,
};
use crate::method::Method;
use crate::text::{all_ascii, ascii_text, decode, decoded, lemma_ascii_decodes};
use vstd::prelude::*;
use vstd::slice::slice_subrange;
use vstd::std_specs::convert::TryFromSpecImpl;
use vstd::string::StringExecFns;
use vstd::utf8::decode_utf8;

verus! {

/// A parsed request line. It owns its text and keeps nothing of the buffer
/// it was read from.
#[derive(Debug, PartialEq, Eq)]
pub struct Request {
    pub method: Method,
    pub path: String,
}

/// What a `Request` stands for in contracts.
pub struct RequestView {
    pub method: Method,
    pub path: Seq<char>,
}

impl View for Request {
    type V = RequestView;

    open spec fn view(&self) -> RequestView {
        RequestView { method: self.method, path: self.path@ }
    }
}

/// Where the method token of `bytes` ends: the token starts at 0.
pub open spec fn token_end(bytes: Seq<u8>) -> int {
    run_end(bytes, 0, ByteClass::Token)
}

/// Where the request target of `bytes` starts: after the token and every
/// separator byte that follows it.
pub open spec fn target_start(bytes: Seq<u8>) -> int {
    run_end(bytes, token_end(bytes), ByteClass::Separator)
}

/// Where the request target of `bytes` ends: at the next separator byte, or
/// at the end of the buffer.
pub open spec fn target_end(bytes: Seq<u8>) -> int {
    run_end(bytes, target_start(bytes), ByteClass::Target)
}

/// The method token of `bytes`; it may be empty, and it may be all of `bytes`.
pub open spec fn method_token(bytes: Seq<u8>) -> Seq<u8> {
    bytes.subrange(0, token_end(bytes))
}

/// The request target of `bytes`; it may be empty.
pub open spec fn request_target(bytes: Seq<u8>) -> Seq<u8> {
    bytes.subrange(target_start(bytes), target_end(bytes))
}

/// What a buffer parses to. A token that is no verb is rejected with the
/// token as text. Otherwise the target is decoded: the result is the method
/// and the target's text, or `InvalidUtf8` where the target has none.
pub open spec fn parse_spec(bytes: Seq<u8>) -> Result<RequestView, ErrorView> {
    match Method::classify(method_token(bytes)) {
        None => Err(ErrorView::InvalidMethodToken(ascii_text(method_token(bytes)))),
        Some(method) => match decoded(request_target(bytes)) {
            Some(path) => Ok(RequestView { method, path }),
            None => Err(ErrorView::InvalidUtf8),
        },
    }
}

/// What the result of a parse stands for in contracts.
pub open spec fn outcome(res: Result<Request, MyError>) -> Result<RequestView, ErrorView> {
    match res {
        Ok(request) => Ok(request@),
        Err(e) => Err(e@),
    }
}

/// The three positions lie in the buffer, in order; the token is made of
/// token characters, the bytes between token and target are separators, and
/// the target holds no separator. Each run is as long as it can be.
pub proof fn lemma_positions(bytes: Seq<u8>)
    ensures
        0 <= token_end(bytes) <= target_start(bytes) <= target_end(bytes) <= bytes.len(),
        forall|i: int| 0 <= i < token_end(bytes) ==> tchar(#[trigger] bytes[i]),
        token_end(bytes) < bytes.len() ==> !tchar(bytes[token_end(bytes)]),
        forall|i: int|
            token_end(bytes) <= i < target_start(bytes) ==> whitespace(#[trigger] bytes[i]),
        target_start(bytes) < bytes.len() ==> !whitespace(bytes[target_start(bytes)]),
        forall|i: int|
            target_start(bytes) <= i < target_end(bytes) ==> !whitespace(#[trigger] bytes[i]),
        target_end(bytes) < bytes.len() ==> whitespace(bytes[target_end(bytes)]),
        all_ascii(method_token(bytes)),
{
    lemma_run_end(bytes, 0, ByteClass::Token);
    lemma_run_end(bytes, token_end(bytes), ByteClass::Separator);
    lemma_run_end(bytes, target_start(bytes), ByteClass::Target);
    assert forall|i: int| 0 <= i < method_token(bytes).len() implies #[trigger] method_token(
        bytes,
    )[i] < 0x80 by {
        assert(tchar(bytes[i]));
    }
}

/// Takes the leading run of token characters off `r`: returns it and moves
/// the cursor past it. The run ends at the first other byte, or with `r`.
pub fn read_token<'a>(r: &'a [u8], cursor: &mut usize) -> (token: &'a [u8])
    requires
        *old(cursor) + r@.len() <= usize::MAX,
    ensures
        token@ == r@.subrange(0, run_end(r@, 0, ByteClass::Token)),
        *final(cursor) == *old(cursor) + run_end(r@, 0, ByteClass::Token),
        *old(cursor) <= *final(cursor) <= *old(cursor) + r@.len(),
{
    let n = scan(r, 0, ByteClass::Token);
    proof {
        lemma_run_end(r@, 0, ByteClass::Token);
    }
    *cursor = *cursor + n;
    slice_subrange(r, 0, n)
}

/// Moves the cursor past the separator bytes of `r` that start at it. A
/// cursor at or beyond the end of `r` stays where it is.
pub fn consume_whitespace(r: &[u8], cursor: &mut usize)
    ensures
        *final(cursor) == run_end(r@, *old(cursor) as int, ByteClass::Separator),
        *old(cursor) <= *final(cursor),
        *old(cursor) <= r@.len() ==> *final(cursor) <= r@.len(),
{
    proof {
        if *cursor <= r@.len() {
            lemma_run_end(r@, *cursor as int, ByteClass::Separator);
        }
    }
    *cursor = scan(r, *cursor, ByteClass::Separator);
}

/// Takes the leading run of bytes that are no separators off `r`: returns it
/// and moves the cursor past it. The run ends at the first separator byte, or
/// with `r`.
pub fn read_request_target<'a>(r: &'a [u8], cursor: &mut usize) -> (target: &'a [u8])
    requires
        *old(cursor) + r@.len() <= usize::MAX,
    ensures
        target@ == r@.subrange(0, run_end(r@, 0, ByteClass::Target)),
        *final(cursor) == *old(cursor) + run_end(r@, 0, ByteClass::Target),
        *old(cursor) <= *final(cursor) <= *old(cursor) + r@.len(),
{
    let n = scan(r, 0, ByteClass::Target);
    proof {
        lemma_run_end(r@, 0, ByteClass::Target);
    }
    *cursor = *cursor + n;
    slice_subrange(r, 0, n)
}

impl RequestView {
    /// The request line as text: the verb, a space, the target.
    pub open spec fn line(self) -> Seq<char> {
        self.method.verb() + seq![' '] + self.path
    }
}

impl Request {
    /// The request line as text: the verb, a space, the target.
    pub fn to_string(&self) -> (res: String)
        ensures
            res@ == self@.line(),
    {
        proof {
            reveal_strlit(" ");
            assert(" "@ =~= seq![' ']);
        }
        self.method.to_string().concat(" ").concat(self.path.as_str())
    }
}

impl TryFrom<&[u8]> for Request {
    type Error = MyError;

    /// Parses the request line at the start of `bytes` in one pass from left
    /// to right.
    fn try_from(bytes: &[u8]) -> (res: Result<Request, MyError>)
        ensures
            outcome(res) == parse_spec(bytes@),
    {
        proof {
            lemma_positions(bytes@);
            lemma_ascii_decodes(method_token(bytes@));
            lemma_run_end_of_rest(bytes@, target_start(bytes@), ByteClass::Target);
        }
        let len = bytes.len();
        let mut cursor: usize = 0;
        let token = read_token(bytes, &mut cursor);
        let method = match Method::try_from(token) {
            Ok(method) => method,
            Err(e) => {
                return Err(e);
            },
        };
        consume_whitespace(bytes, &mut cursor);
        let rest = slice_subrange(bytes, cursor, len);
        let target = read_request_target(rest, &mut cursor);
        assert(target@ =~= request_target(bytes@));
        match decode(target) {
            Some(path) => Ok(Request { method, path }),
            None => Err(MyError::InvalidUtf8),
        }
    }
}

/// `try_from` is specified by its own `ensures`, over views: a request owns
/// its path, and two strings with the same text need not be the same value.
impl TryFromSpecImpl<&[u8]> for Request {
    open spec fn obeys_try_from_spec() -> bool {
        false
    }

    open spec fn try_from_spec(bytes: &[u8]) -> Result<Request, MyError> {
        arbitrary()
    }
}

/// A buffer whose token is the verb of no method is rejected with
/// `InvalidMethodToken`, and the error carries the token as it stands in the
/// buffer, whatever follows it.
pub proof fn lemma_unknown_token_rejected(bytes: Seq<u8>)
    requires
        forall|method: Method| method_token(bytes) != #[trigger] method.token(),
    ensures
        parse_spec(bytes) == Err::<RequestView, ErrorView>(
            ErrorView::InvalidMethodToken(ascii_text(method_token(bytes))),
        ),
{
    Method::lemma_classify_none(method_token(bytes));
}

/// A buffer is rejected with `InvalidMethodToken` only if its token is the
/// verb of no method.
pub proof fn lemma_rejected_token_unknown(bytes: Seq<u8>, method: Method)
    requires
        parse_spec(bytes) is Err,
        parse_spec(bytes)->Err_0 is InvalidMethodToken,
    ensures
        method_token(bytes) != method.token(),
{
    Method::lemma_classify_exact(method_token(bytes), method);
}

/// Parsing is a function of the bytes: two parses of one buffer give results
/// that stand for the same value.
pub proof fn lemma_parse_deterministic(
    bytes: Seq<u8>,
    first: Result<Request, MyError>,
    second: Result<Request, MyError>,
)
    requires
        outcome(first) == parse_spec(bytes),
        outcome(second) == parse_spec(bytes),
    ensures
        outcome(first) == outcome(second),
        first is Ok <==> second is Ok,
        first matches Ok(a) ==> second matches Ok(b) && a.method == b.method && a.path@ == b.path@,
{
}

/// The path of a parsed request is empty exactly when the target is: when
/// no byte other than a separator follows the token and its separators.
pub proof fn lemma_path_empty_iff_target_empty(bytes: Seq<u8>)
    requires
        parse_spec(bytes) is Ok,
    ensures
        parse_spec(bytes)->Ok_0.path.len() == 0 <==> target_end(bytes) == target_start(bytes),
{
    lemma_positions(bytes);
    let target = request_target(bytes);
    assert(target.len() == target_end(bytes) - target_start(bytes));
    if target.len() > 0 {
        assert(decode_utf8(target).len() > 0);
    }
}

/// A buffer that is empty, or whose first byte is no token character, has
/// the empty token and is rejected with it.
pub proof fn lemma_no_leading_token(bytes: Seq<u8>)
    requires
        bytes.len() == 0 || !tchar(bytes[0]),
    ensures
        method_token(bytes) == Seq::<u8>::empty(),
        parse_spec(bytes) == Err::<RequestView, ErrorView>(
            ErrorView::InvalidMethodToken(Seq::<char>::empty()),
        ),
{
    assert(method_token(bytes) =~= Seq::<u8>::empty());
    assert(ascii_text(method_token(bytes)) =~= Seq::<char>::empty());
    assert forall|method: Method| method_token(bytes) != #[trigger] method.token() by {
        method.lemma_verb_is_token();
    }
    lemma_unknown_token_rejected(bytes);
}

/// A buffer that holds a verb and nothing else parses to that method with
/// the empty target: the end of the buffer ends every run.
pub proof fn lemma_bare_method(method: Method)
    ensures
        parse_spec(method.token()) == Ok::<RequestView, ErrorView>(
            RequestView { method, path: Seq::<char>::empty() },
        ),
{
    let bytes = method.token();
    method.lemma_verb_is_token();
    lemma_run_end_unique(bytes, 0, ByteClass::Token, bytes.len() as int);
    assert(method_token(bytes) =~= bytes);
    Method::lemma_classify_exact(bytes, method);
    assert(request_target(bytes) =~= Seq::<u8>::empty());
    lemma_ascii_decodes(Seq::<u8>::empty());
    assert(ascii_text(Seq::<u8>::empty()) =~= Seq::<char>::empty());
}

/// No separator is needed between token and target: where the byte after a
/// verb is neither a token character nor a separator, the target starts at
/// that byte and the buffer parses as if a separator stood before it.
pub proof fn lemma_target_follows_token(bytes: Seq<u8>, method: Method)
    requires
        Method::classify(method_token(bytes)) == Some(method),
        0 <= token_end(bytes) < bytes.len(),
        !whitespace(bytes[token_end(bytes)]),
    ensures
        target_start(bytes) == token_end(bytes),
        target_end(bytes) > token_end(bytes),
        parse_spec(bytes) == match decoded(bytes.subrange(token_end(bytes), target_end(bytes))) {
            Some(path) => Ok::<RequestView, ErrorView>(RequestView { method, path }),
            None => Err::<RequestView, ErrorView>(ErrorView::InvalidUtf8),
        },
{
    lemma_positions(bytes);
}

/// A line written as a verb, a gap of separator bytes, a non-empty target and
/// a tail that is empty or starts with a separator parses to that method and
/// that target. The gap may be empty where the target does not start with a
/// token character.
pub proof fn lemma_well_formed_line(
    method: Method,
    gap: Seq<u8>,
    target: Seq<u8>,
    tail: Seq<u8>,
)
    requires
        forall|i: int| 0 <= i < gap.len() ==> whitespace(#[trigger] gap[i]),
        forall|i: int| 0 <= i < target.len() ==> !whitespace(#[trigger] target[i]),
        target.len() > 0,
        gap.len() > 0 || !tchar(target[0]),
        tail.len() == 0 || whitespace(tail[0]),
    ensures
        method_token(method.token() + gap + target + tail) == method.token(),
        request_target(method.token() + gap + target + tail) == target,
        parse_spec(method.token() + gap + target + tail) == match decoded(target) {
            Some(path) => Ok::<RequestView, ErrorView>(RequestView { method, path }),
            None => Err::<RequestView, ErrorView>(ErrorView::InvalidUtf8),
        },
{
    let verb = method.token();
    let bytes = verb + gap + target + tail;
    let a = verb.len() as int;
    let b = a + gap.len();
    let c = b + target.len();
    method.lemma_verb_is_token();
    assert forall|i: int| 0 <= i < a implies ByteClass::Token.has(#[trigger] bytes[i]) by {
        assert(bytes[i] == verb[i]);
    }
    assert(bytes[a] == if gap.len() > 0 {
        gap[0]
    } else {
        target[0]
    });
    lemma_run_end_unique(bytes, 0, ByteClass::Token, a);
    assert forall|i: int| a <= i < b implies ByteClass::Separator.has(#[trigger] bytes[i]) by {
        assert(bytes[i] == gap[i - a]);
    }
    assert(bytes[b] == target[0]);
    lemma_run_end_unique(bytes, a, ByteClass::Separator, b);
    assert forall|i: int| b <= i < c implies ByteClass::Target.has(#[trigger] bytes[i]) by {
        assert(bytes[i] == target[i - b]);
    }
    if c < bytes.len() {
        assert(bytes[c] == tail[0]);
    }
    lemma_run_end_unique(bytes, b, ByteClass::Target, c);
    assert(method_token(bytes) =~= verb);
    assert(request_target(bytes) =~= target);
    Method::lemma_classify_exact(verb, method);
}

} // verus!
