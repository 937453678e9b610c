//! The request method: a non-empty HTTP token, kept exactly as given.

use vstd::prelude::*;

use crate::text::{spec_token_char, token_char};

verus! {

/// A valid method: a non-empty HTTP token.
pub open spec fn spec_valid_method(s: Seq<char>) -> bool {
    s.len() > 0 && forall|i: int| 0 <= i < s.len() ==> spec_token_char(#[trigger] s[i])
}

/// The given name was not a method token.
#[derive(Debug, Clone, Copy, PartialEq, Eq, Structural)]
pub struct InvalidMethod;

/// A request method. Values of this type always hold a valid token:
/// the constructors admit nothing else.
#[derive(Debug)]
pub struct Method {
    name: String,
}

impl View for Method {
    type V = Seq<char>;

    closed spec fn view(&self) -> Seq<char> {
        self.name@
    }
}

impl Method {
    /// Validates `src` as a method token and takes it verbatim.
    pub fn from_name(src: &str) -> (r: Result<Method, InvalidMethod>)
        ensures
            spec_valid_method(src@) ==> (r matches Ok(m) && m@ == src@ && spec_valid_method(m@)),
            !spec_valid_method(src@) ==> r == Err::<Method, InvalidMethod>(InvalidMethod),
    {
        let len = src.unicode_len();
        if len == 0 {
            return Err(InvalidMethod);
        }
        let mut i: usize = 0;
        while i < len
            invariant
                i <= len,
                len == src@.len(),
                forall|j: int| 0 <= j < i ==> spec_token_char(#[trigger] src@[j]),
            decreases len - i,
        {
            if !token_char(src.get_char(i)) {
                return Err(InvalidMethod);
            }
            i = i + 1;
        }
        Ok(Method { name: String::from_str(src) })
    }

    /// The default method of a fetch without options.
    pub fn get() -> (r: Method)
        ensures
            r@ == "GET"@,
            spec_valid_method(r@),
    {
        let r = Method { name: String::from_str("GET") };
        proof {
            reveal_strlit("GET");
            assert(spec_valid_method("GET"@)) by {
                assert("GET"@.len() == 3);
                assert(spec_token_char("GET"@[0]));
                assert(spec_token_char("GET"@[1]));
                assert(spec_token_char("GET"@[2]));
            }
        }
        r
    }

    /// The method's name, to hand to the transport.
    pub fn as_str(&self) -> (r: &str)
        ensures
            r@ == self@,
    {
        self.name.as_str()
    }

    /// An identical method.
    pub fn duplicate(&self) -> (r: Method)
        ensures
            r@ == self@,
    {
        Method { name: self.name.clone() }
    }
}

} // verus!
