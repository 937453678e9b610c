//! The header multimap of a request or response: names kept in
//! insertion order, each with its values in insertion order. Names are
//! validated as HTTP tokens, values as printable strings; both travel
//! to the transport exactly as given.

use vstd::prelude::*;

use crate::text::{spec_token_char, str_eq, token_char};

verus! {

/// A valid header name: a non-empty HTTP token.
pub open spec fn spec_valid_header_name(s: Seq<char>) -> bool {
    s.len() > 0 && forall|i: int| 0 <= i < s.len() ==> spec_token_char(#[trigger] s[i])
}

/// A character allowed in a header value: the horizontal tab, or a
/// printable character, the space included.
pub open spec fn spec_header_value_char(c: char) -> bool {
    c as u32 == 9 || (32 <= c as u32 <= 126)
}

/// A valid header value (possibly empty).
pub open spec fn spec_valid_header_value(s: Seq<char>) -> bool {
    forall|i: int| 0 <= i < s.len() ==> spec_header_value_char(#[trigger] s[i])
}

fn valid_header_name(s: &str) -> (r: bool)
    ensures
        r == spec_valid_header_name(s@),
{
    let len = s.unicode_len();
    if len == 0 {
        return false;
    }
    let mut i: usize = 0;
    while i < len
        invariant
            i <= len,
            len == s@.len(),
            forall|j: int| 0 <= j < i ==> spec_token_char(#[trigger] s@[j]),
        decreases len - i,
    {
        if !token_char(s.get_char(i)) {
            return false;
        }
        i = i + 1;
    }
    true
}

fn valid_header_value(s: &str) -> (r: bool)
    ensures
        r == spec_valid_header_value(s@),
{
    let len = s.unicode_len();
    let mut i: usize = 0;
    while i < len
        invariant
            i <= len,
            len == s@.len(),
            forall|j: int| 0 <= j < i ==> spec_header_value_char(#[trigger] s@[j]),
        decreases len - i,
    {
        let u = s.get_char(i) as u32;
        if !(u == 9 || (32 <= u && u <= 126)) {
            return false;
        }
        i = i + 1;
    }
    true
}

/// One header name with all its values, oldest first.
#[derive(Debug)]
pub struct HeaderEntry {
    pub name: String,
    pub values: Vec<String>,
}

/// The mathematical value of a [`HeaderEntry`].
#[verifier::ext_equal]
pub struct HeaderEntryView {
    pub name: Seq<char>,
    pub values: Seq<Seq<char>>,
}

impl View for HeaderEntry {
    type V = HeaderEntryView;

    open spec fn view(&self) -> HeaderEntryView {
        HeaderEntryView { name: self.name@, values: self.values.deep_view() }
    }
}

impl DeepView for HeaderEntry {
    type V = HeaderEntryView;

    open spec fn deep_view(&self) -> HeaderEntryView {
        self.view()
    }
}

/// The position of the entry named `name`, if there is one.
pub open spec fn spec_find_name(s: Seq<HeaderEntryView>, name: Seq<char>) -> Option<int>
    decreases s.len(),
{
    if s.len() == 0 {
        None
    } else if s[0].name == name {
        Some(0)
    } else {
        match spec_find_name(s.drop_first(), name) {
            Some(i) => Some(i + 1),
            None => None,
        }
    }
}

/// The first scan hit is the position the lookup finds.
proof fn lemma_find_name_at(s: Seq<HeaderEntryView>, name: Seq<char>, i: int)
    requires
        0 <= i < s.len(),
        s[i].name == name,
        forall|j: int| 0 <= j < i ==> s[j].name != name,
    ensures
        spec_find_name(s, name) == Some(i),
    decreases i,
{
    if i > 0 {
        assert(s.drop_first()[i - 1] == s[i]);
        assert(forall|j: int| 0 <= j < i - 1 ==> s.drop_first()[j] == s[j + 1]);
        lemma_find_name_at(s.drop_first(), name, i - 1);
    }
}

/// A name no entry carries is never found.
proof fn lemma_find_name_miss(s: Seq<HeaderEntryView>, name: Seq<char>)
    requires
        forall|j: int| 0 <= j < s.len() ==> (#[trigger] s[j].name) != name,
    ensures
        spec_find_name(s, name) is None,
    decreases s.len(),
{
    if s.len() > 0 {
        assert(forall|j: int| 0 <= j < s.len() - 1 ==> s.drop_first()[j] == s[j + 1]);
        lemma_find_name_miss(s.drop_first(), name);
    }
}

/// What appending does: a new value joins its name's entry, and a new
/// name opens a fresh entry at the end.
pub open spec fn spec_append(
    s: Seq<HeaderEntryView>,
    name: Seq<char>,
    value: Seq<char>,
) -> Seq<HeaderEntryView> {
    match spec_find_name(s, name) {
        Some(i) => s.update(
            i,
            HeaderEntryView { name: s[i].name, values: s[i].values.push(value) },
        ),
        None => s.push(HeaderEntryView { name, values: seq![value] }),
    }
}

/// A well-formed header map: every name a token and unique, every
/// value printable, no entry empty.
pub open spec fn headers_wf(s: Seq<HeaderEntryView>) -> bool {
    &&& forall|i: int| 0 <= i < s.len() ==> spec_valid_header_name(#[trigger] s[i].name)
    &&& forall|i: int, j: int| 0 <= i < j < s.len() ==> s[i].name != s[j].name
    &&& forall|i: int, k: int|
        0 <= i < s.len() && 0 <= k < s[i].values.len() ==> spec_valid_header_value(
            #[trigger] s[i].values[k],
        )
    &&& forall|i: int| 0 <= i < s.len() ==> (#[trigger] s[i].values).len() > 0
}

/// Why the map refused a header.
#[derive(Debug, Clone, Copy, PartialEq, Eq, Structural)]
pub enum HeaderError {
    InvalidName,
    InvalidValue,
}

/// The ordered header multimap.
#[derive(Debug)]
pub struct HeaderMap {
    entries: Vec<HeaderEntry>,
}

impl View for HeaderMap {
    type V = Seq<HeaderEntryView>;

    closed spec fn view(&self) -> Seq<HeaderEntryView> {
        self.entries.deep_view()
    }
}

impl HeaderMap {
    /// An empty header map.
    pub fn new() -> (r: Self)
        ensures
            r@ =~= Seq::<HeaderEntryView>::empty(),
            headers_wf(r@),
    {
        let r = HeaderMap { entries: Vec::new() };
        proof {
            assert(r@ =~~= Seq::<HeaderEntryView>::empty());
        }
        r
    }

    /// An empty header map expecting about `capacity` names.
    pub fn with_capacity(capacity: usize) -> (r: Self)
        ensures
            r@ =~= Seq::<HeaderEntryView>::empty(),
            headers_wf(r@),
    {
        let r = HeaderMap { entries: Vec::with_capacity(capacity) };
        proof {
            assert(r@ =~~= Seq::<HeaderEntryView>::empty());
        }
        r
    }

    /// How many distinct names the map holds.
    pub fn len(&self) -> (r: usize)
        ensures
            r == self@.len(),
    {
        self.entries.len()
    }

    /// Validates and appends one header. An invalid name or value is
    /// refused and leaves the map unchanged; otherwise the value joins
    /// its name's entry in order, a fresh entry for a fresh name.
    pub fn append(&mut self, name: String, value: String) -> (r: Result<(), HeaderError>)
        requires
            headers_wf(old(self)@),
        ensures
            headers_wf(final(self)@),
            !spec_valid_header_name(name@) ==> r == Err::<(), HeaderError>(HeaderError::InvalidName)
                && final(self)@ == old(self)@,
            spec_valid_header_name(name@) && !spec_valid_header_value(value@) ==> r == Err::<
                (),
                HeaderError,
            >(HeaderError::InvalidValue) && final(self)@ == old(self)@,
            spec_valid_header_name(name@) && spec_valid_header_value(value@) ==> r == Ok::<
                (),
                HeaderError,
            >(()) && final(self)@ == spec_append(old(self)@, name@, value@),
    {
        if !valid_header_name(name.as_str()) {
            return Err(HeaderError::InvalidName);
        }
        if !valid_header_value(value.as_str()) {
            return Err(HeaderError::InvalidValue);
        }
        let n = self.entries.len();
        let mut i: usize = 0;
        while i < n
            invariant
                i <= n,
                n == self.entries@.len(),
                self.entries@ == old(self).entries@,
                headers_wf(self@),
                spec_valid_header_name(name@),
                spec_valid_header_value(value@),
                forall|j: int| 0 <= j < i ==> (#[trigger] self@[j].name) != name@,
            decreases n - i,
        {
            proof {
                assert(self@[i as int] == self.entries@[i as int]@);
            }
            if str_eq(self.entries[i].name.as_str(), name.as_str()) {
                let ghost prev = self@;
                let mut entry = self.entries.remove(i);
                entry.values.push(value);
                self.entries.insert(i, entry);
                proof {
                    lemma_find_name_at(prev, name@, i as int);
                    assert(self.entries.deep_view() =~~= spec_append(prev, name@, value@));
                    assert(headers_wf(self@)) by {
                        assert(forall|a: int|
                            0 <= a < self@.len() && a != i ==> self@[a] == prev[a]);
                        assert(self@[i as int].name == prev[i as int].name);
                        assert(self@[i as int].values == prev[i as int].values.push(value@));
                        assert(forall|k: int|
                            0 <= k < prev[i as int].values.len() ==> self@[i as int].values[k]
                                == prev[i as int].values[k]);
                    }
                }
                return Ok(());
            }
            i = i + 1;
        }
        let ghost prev = self@;
        self.entries.push(HeaderEntry { name, values: vec![value] });
        proof {
            lemma_find_name_miss(prev, name@);
            assert(self.entries.deep_view() =~~= spec_append(prev, name@, value@));
            assert(headers_wf(self@)) by {
                assert(forall|a: int| 0 <= a < prev.len() ==> self@[a] == prev[a]);
                assert(self@[prev.len() as int].name == name@);
                assert(self@[prev.len() as int].values =~= seq![value@]);
            }
        }
        Ok(())
    }

    /// All values of `name`, oldest first, if the map holds the name.
    pub fn get_all(&self, name: &str) -> (r: Option<&Vec<String>>)
        ensures
            match spec_find_name(self@, name@) {
                Some(i) => r matches Some(vs) && vs.deep_view() == self@[i].values,
                None => r is None,
            },
    {
        let n = self.entries.len();
        let mut i: usize = 0;
        while i < n
            invariant
                i <= n,
                n == self.entries@.len(),
                forall|j: int| 0 <= j < i ==> (#[trigger] self@[j].name) != name@,
            decreases n - i,
        {
            proof {
                assert(self@[i as int] == self.entries@[i as int]@);
            }
            if str_eq(self.entries[i].name.as_str(), name) {
                proof {
                    lemma_find_name_at(self@, name@, i as int);
                }
                return Some(&self.entries[i].values);
            }
            i = i + 1;
        }
        proof {
            lemma_find_name_miss(self@, name@);
        }
        None
    }

    /// A borrow of the entries, for walking the map in order.
    pub fn entries(&self) -> (r: &Vec<HeaderEntry>)
        ensures
            r.deep_view() == self@,
    {
        &self.entries
    }
}

} // verus!
