//! The eight request methods and their classification.
use crate::error::{ErrorView, MyError};
use crate::grammar::tchar;
use crate::text::{decode, decoded};
use vstd::prelude::*;
use vstd::std_specs::convert::TryFromSpecImpl;
use vstd::string::{is_ascii_spec_bytes, StringExecFns, StringSliceAdditionalSpecFns};

verus! {

/// An HTTP request method.
#[derive(Clone, Copy, Debug, PartialEq, Eq, Structural)]
pub enum Method {
    Get,
    Head,
    Post,
    Put,
    Delete,
    Connect,
    Options,
    Trace,
}

/// The error that a token which is no verb is rejected with: the token as
/// text, or `InvalidUtf8` where it has none.
pub open spec fn rejection(token: Seq<u8>) -> ErrorView {
    match decoded(token) {
        Some(text) => ErrorView::InvalidMethodToken(text),
        None => ErrorView::InvalidUtf8,
    }
}

/// Whether `token` and `word` hold the same bytes.
fn spells(token: &[u8], word: &str) -> (res: bool)
    ensures
        res == (token@ == word.spec_bytes()),
{
    let bytes = word.as_bytes();
    if token.len() != bytes.len() {
        return false;
    }
    let mut i: usize = 0;
    while i < token.len()
        invariant
            token@.len() == bytes@.len(),
            bytes@ == word.spec_bytes(),
            0 <= i <= token@.len(),
            forall|j: int| 0 <= j < i ==> token@[j] == bytes@[j],
        decreases token@.len() - i,
    {
        if token[i] != bytes[i] {
            return false;
        }
        i += 1;
    }
    assert(token@ =~= bytes@);
    true
}

impl Method {
    /// The verb as it is written in a request line.
    pub open spec fn verb(self) -> Seq<char> {
        match self {
            Method::Get => seq!['G', 'E', 'T'],
            Method::Head => seq!['H', 'E', 'A', 'D'],
            Method::Post => seq!['P', 'O', 'S', 'T'],
            Method::Put => seq!['P', 'U', 'T'],
            Method::Delete => seq!['D', 'E', 'L', 'E', 'T', 'E'],
            Method::Connect => seq!['C', 'O', 'N', 'N', 'E', 'C', 'T'],
            Method::Options => seq!['O', 'P', 'T', 'I', 'O', 'N', 'S'],
            Method::Trace => seq!['T', 'R', 'A', 'C', 'E'],
        }
    }

    /// The bytes of the verb: one per character.
    pub open spec fn token(self) -> Seq<u8> {
        Seq::new(self.verb().len(), |i: int| self.verb()[i] as u8)
    }

    /// The method that `token` spells, byte for byte and in upper case; `None`
    /// for every other token.
    pub open spec fn classify(token: Seq<u8>) -> Option<Method> {
        if token == Method::Get.token() {
            Some(Method::Get)
        } else if token == Method::Head.token() {
            Some(Method::Head)
        } else if token == Method::Post.token() {
            Some(Method::Post)
        } else if token == Method::Put.token() {
            Some(Method::Put)
        } else if token == Method::Delete.token() {
            Some(Method::Delete)
        } else if token == Method::Connect.token() {
            Some(Method::Connect)
        } else if token == Method::Options.token() {
            Some(Method::Options)
        } else if token == Method::Trace.token() {
            Some(Method::Trace)
        } else {
            None
        }
    }

    /// A token is classified as a method exactly when it is that method's
    /// verb, byte for byte: no two verbs are spelled alike.
    pub proof fn lemma_classify_exact(token: Seq<u8>, method: Method)
        ensures
            Method::classify(token) == Some(method) <==> token == method.token(),
    {
        Method::lemma_verbs_differ();
    }

    /// A token is rejected exactly when it is the verb of no method.
    pub proof fn lemma_classify_none(token: Seq<u8>)
        ensures
            Method::classify(token) is None <==> forall|method: Method|
                token != #[trigger] method.token(),
    {
        if Method::classify(token) is None {
            assert forall|method: Method| token != #[trigger] method.token() by {
                Method::lemma_classify_exact(token, method);
            }
        } else {
            let method = Method::classify(token)->Some_0;
            Method::lemma_classify_exact(token, method);
        }
    }

    /// Two methods with the same verb are the same method.
    pub proof fn lemma_verbs_differ()
        ensures
            forall|a: Method, b: Method| #[trigger] a.token() == #[trigger] b.token() ==> a == b,
    {
        assert forall|a: Method, b: Method| #[trigger] a.token() == #[trigger] b.token() implies a
            == b by {
            let s = a.token();
            let t = b.token();
            assert(s.len() == t.len());
            assert(s[0] == t[0]);
            assert(s[1] == t[1]);
        }
    }

    /// A verb is a non-empty run of token characters: upper-case letters.
    pub proof fn lemma_verb_is_token(self)
        ensures
            self.token().len() == self.verb().len(),
            self.token().len() > 0,
            forall|i: int| 0 <= i < self.token().len() ==> tchar(#[trigger] self.token()[i]),
    {
        assert forall|i: int| 0 <= i < self.token().len() implies tchar(
            #[trigger] self.token()[i],
        ) by {
            let c = self.verb()[i];
            assert('A' <= c <= 'Z');
        }
    }

    /// The verb as it is written in a request line.
    pub fn as_str(&self) -> (res: &'static str)
        ensures
            res@ == self.verb(),
            res.spec_bytes() == self.token(),
    {
        let res = match self {
            Method::Get => "GET",
            Method::Head => "HEAD",
            Method::Post => "POST",
            Method::Put => "PUT",
            Method::Delete => "DELETE",
            Method::Connect => "CONNECT",
            Method::Options => "OPTIONS",
            Method::Trace => "TRACE",
        };
        proof {
            reveal_strlit("GET");
            reveal_strlit("HEAD");
            reveal_strlit("POST");
            reveal_strlit("PUT");
            reveal_strlit("DELETE");
            reveal_strlit("CONNECT");
            reveal_strlit("OPTIONS");
            reveal_strlit("TRACE");
            assert(res@ =~= self.verb());
            is_ascii_spec_bytes(res);
            assert(res.spec_bytes() =~= self.token());
        }
        res
    }

    /// The verb as an owned string.
    pub fn to_string(&self) -> (res: String)
        ensures
            res@ == self.verb(),
    {
        String::from_str(self.as_str())
    }
}

impl TryFrom<&[u8]> for Method {
    type Error = MyError;

    /// Classifies a candidate token.
    fn try_from(token: &[u8]) -> (res: Result<Method, MyError>)
        ensures
            match res {
                Ok(method) => Method::classify(token@) == Some(method),
                Err(e) => Method::classify(token@) is None && e@ == rejection(token@),
            },
    {
        if spells(token, Method::Get.as_str()) {
            Ok(Method::Get)
        } else if spells(token, Method::Head.as_str()) {
            Ok(Method::Head)
        } else if spells(token, Method::Post.as_str()) {
            Ok(Method::Post)
        } else if spells(token, Method::Put.as_str()) {
            Ok(Method::Put)
        } else if spells(token, Method::Delete.as_str()) {
            Ok(Method::Delete)
        } else if spells(token, Method::Connect.as_str()) {
            Ok(Method::Connect)
        } else if spells(token, Method::Options.as_str()) {
            Ok(Method::Options)
        } else if spells(token, Method::Trace.as_str()) {
            Ok(Method::Trace)
        } else {
            match decode(token) {
                Some(text) => Err(MyError::InvalidMethodToken(text)),
                None => Err(MyError::InvalidUtf8),
            }
        }
    }
}

/// `try_from` is specified by its own `ensures`, over views: the error owns
/// a string, and two strings with the same text need not be the same value.
impl TryFromSpecImpl<&[u8]> for Method {
    open spec fn obeys_try_from_spec() -> bool {
        false
    }

    open spec fn try_from_spec(token: &[u8]) -> Result<Method, MyError> {
        arbitrary()
    }
}

} // verus!
