//! HTTP headers as a request carries them: an ordered list of name/value
//! pairs, looked up by name without regard to ASCII case.

use vstd::prelude::*;

use crate::ascii::eq_ignore_ascii_case;

verus! {

/// One header: a name and a value.
pub struct Header {
    pub name: String,
    pub value: String,
}

impl View for Header {
    type V = (Seq<char>, Seq<char>);

    open spec fn view(&self) -> (Seq<char>, Seq<char>) {
        (self.name@, self.value@)
    }
}

impl Header {
    /// A header with the given name and value.
    pub fn new(name: &str, value: &str) -> (h: Header)
        ensures
            h@ == (name@, value@),
    {
        Header { name: String::from_str(name), value: String::from_str(value) }
    }
}

/// The headers of a request or response, in the order they were added.
pub struct HeaderMap {
    headers: Vec<Header>,
}

/// The value of the first header whose name matches `name` ignoring ASCII case.
pub open spec fn get_one_spec(headers: Seq<(Seq<char>, Seq<char>)>, name: Seq<char>) -> Option<Seq<char>>
    decreases headers.len(),
{
    if headers.len() == 0 {
        None
    } else if crate::ascii::eq_ignore_ascii_case_spec(headers[0].0, name) {
        Some(headers[0].1)
    } else {
        get_one_spec(headers.drop_first(), name)
    }
}

impl View for HeaderMap {
    type V = Seq<(Seq<char>, Seq<char>)>;

    closed spec fn view(&self) -> Seq<(Seq<char>, Seq<char>)> {
        self.headers@.map_values(|h: Header| h@)
    }
}

impl HeaderMap {
    /// A map with no headers.
    pub fn new() -> (m: HeaderMap)
        ensures
            m@ == Seq::<(Seq<char>, Seq<char>)>::empty(),
    {
        let m = HeaderMap { headers: Vec::new() };
        assert(m@ =~= Seq::<(Seq<char>, Seq<char>)>::empty());
        m
    }

    /// Appends a header after those already present; an earlier header of the
    /// same name stays first.
    pub fn add(&mut self, header: Header)
        ensures
            final(self)@ == old(self)@.push(header@),
    {
        self.headers.push(header);
        assert(self@ =~= old(self)@.push(header@));
    }

    /// Number of headers.
    pub fn len(&self) -> (n: usize)
        ensures
            n == self@.len(),
    {
        self.headers.len()
    }

    /// The value of the first header named `name`, ignoring ASCII case.
    pub fn get_one(&self, name: &str) -> (value: Option<&str>)
        ensures
            match value {
                Some(v) => get_one_spec(self@, name@) == Some(v@),
                None => get_one_spec(self@, name@) is None,
            },
    {
        let n: usize = self.headers.len();
        let mut i: usize = 0;
        assert(self@.skip(0) =~= self@);
        while i < n
            invariant
                n == self@.len(),
                n == self.headers@.len(),
                i <= n,
                get_one_spec(self@, name@) == get_one_spec(self@.skip(i as int), name@),
            decreases n - i,
        {
            let h: &Header = &self.headers[i];
            assert(self@[i as int] == h@);
            assert(self@.skip(i as int).drop_first() =~= self@.skip(i + 1));
            if eq_ignore_ascii_case(h.name.as_str(), name) {
                return Some(h.value.as_str());
            }
            i += 1;
        }
        None
    }
}

/// What a lookup finds: `Some(v)` exactly when some header's name matches
/// `name` ignoring ASCII case, `v` being the value of the first such header;
/// `None` when no header's name matches (so always in an empty list).
pub proof fn lemma_get_one_first_match(headers: Seq<(Seq<char>, Seq<char>)>, name: Seq<char>)
    ensures
        get_one_spec(Seq::<(Seq<char>, Seq<char>)>::empty(), name) is None,
        get_one_spec(headers, name) is None <==> forall|k: int|
            0 <= k < headers.len() ==> !crate::ascii::eq_ignore_ascii_case_spec(#[trigger] headers[k].0, name),
        forall|k: int|
            0 <= k < headers.len() && crate::ascii::eq_ignore_ascii_case_spec(#[trigger] headers[k].0, name)
                && (forall|j: int| 0 <= j < k ==> !crate::ascii::eq_ignore_ascii_case_spec(#[trigger] headers[j].0, name))
                ==> get_one_spec(headers, name) == Some(headers[k].1),
    decreases headers.len(),
{
    if headers.len() > 0 {
        let rest = headers.drop_first();
        lemma_get_one_first_match(rest, name);
        assert forall|k: int| 0 <= k < rest.len() implies rest[k] == #[trigger] headers[k + 1] by {}
        if !crate::ascii::eq_ignore_ascii_case_spec(headers[0].0, name) {
            assert forall|k: int|
                0 <= k < headers.len() && crate::ascii::eq_ignore_ascii_case_spec(#[trigger] headers[k].0, name)
                    && (forall|j: int| 0 <= j < k ==> !crate::ascii::eq_ignore_ascii_case_spec(#[trigger] headers[j].0, name))
                implies get_one_spec(headers, name) == Some(headers[k].1) by {
                assert(k > 0);
                assert(rest[k - 1] == headers[k]);
                assert forall|j: int| 0 <= j < k - 1 implies !crate::ascii::eq_ignore_ascii_case_spec(
                    #[trigger] rest[j].0,
                    name,
                ) by {
                    assert(rest[j] == headers[j + 1]);
                }
            }
            if get_one_spec(headers, name) is None {
                assert forall|k: int| 0 <= k < headers.len() implies !crate::ascii::eq_ignore_ascii_case_spec(
                    #[trigger] headers[k].0,
                    name,
                ) by {
                    if k > 0 {
                        assert(rest[k - 1] == headers[k]);
                    }
                }
            } else {
                let k = choose|k: int| 0 <= k < rest.len() && crate::ascii::eq_ignore_ascii_case_spec(#[trigger] rest[k].0, name);
                assert(rest[k] == headers[k + 1]);
            }
        } else {
            assert forall|k: int|
                0 <= k < headers.len() && crate::ascii::eq_ignore_ascii_case_spec(#[trigger] headers[k].0, name)
                    && (forall|j: int| 0 <= j < k ==> !crate::ascii::eq_ignore_ascii_case_spec(#[trigger] headers[j].0, name))
                implies get_one_spec(headers, name) == Some(headers[k].1) by {
                if k > 0 {
                    assert(!crate::ascii::eq_ignore_ascii_case_spec(headers[0].0, name));
                }
            }
        }
    }
}

/// The lookup depends on the name only up to ASCII case: two names that match
/// ignoring case find the same value.
pub proof fn lemma_get_one_ignores_case(
    headers: Seq<(Seq<char>, Seq<char>)>,
    a: Seq<char>,
    b: Seq<char>,
)
    requires
        crate::ascii::eq_ignore_ascii_case_spec(a, b),
    ensures
        get_one_spec(headers, a) == get_one_spec(headers, b),
    decreases headers.len(),
{
    if headers.len() > 0 {
        let n = headers[0].0;
        if crate::ascii::eq_ignore_ascii_case_spec(n, a) {
            crate::ascii::lemma_eq_ignore_ascii_case_transitive(n, a, b);
        } else if crate::ascii::eq_ignore_ascii_case_spec(n, b) {
            crate::ascii::lemma_eq_ignore_ascii_case_symmetric(a, b);
            crate::ascii::lemma_eq_ignore_ascii_case_transitive(n, b, a);
        }
        lemma_get_one_ignores_case(headers.drop_first(), a, b);
    }
}

/// Adding a header never changes what an earlier header already answers, and
/// answers a name that had no header yet with the added value exactly when the
/// names match ignoring case.
pub proof fn lemma_get_one_after_add(
    headers: Seq<(Seq<char>, Seq<char>)>,
    added: (Seq<char>, Seq<char>),
    name: Seq<char>,
)
    ensures
        get_one_spec(headers.push(added), name) == match get_one_spec(headers, name) {
            Some(v) => Some(v),
            None => if crate::ascii::eq_ignore_ascii_case_spec(added.0, name) {
                Some(added.1)
            } else {
                None
            },
        },
    decreases headers.len(),
{
    if headers.len() == 0 {
        assert(headers.push(added).drop_first() =~= Seq::<(Seq<char>, Seq<char>)>::empty());
    } else {
        assert(headers.push(added).drop_first() =~= headers.drop_first().push(added));
        lemma_get_one_after_add(headers.drop_first(), added, name);
    }
}

/// Two header lists that differ only in the ASCII case of their names.
pub open spec fn same_up_to_name_case(
    a: Seq<(Seq<char>, Seq<char>)>,
    b: Seq<(Seq<char>, Seq<char>)>,
) -> bool {
    &&& a.len() == b.len()
    &&& forall|i: int|
        0 <= i < a.len() ==> crate::ascii::eq_ignore_ascii_case_spec(#[trigger] a[i].0, b[i].0)
            && a[i].1 == b[i].1
}

/// The lookup sees header names only up to ASCII case: two lists whose names
/// match pairwise ignoring case, with equal values, answer every name alike.
pub proof fn lemma_get_one_name_case(
    a: Seq<(Seq<char>, Seq<char>)>,
    b: Seq<(Seq<char>, Seq<char>)>,
    name: Seq<char>,
)
    requires
        same_up_to_name_case(a, b),
    ensures
        get_one_spec(a, name) == get_one_spec(b, name),
    decreases a.len(),
{
    if a.len() > 0 {
        let (x, y) = (a[0].0, b[0].0);
        assert(crate::ascii::eq_ignore_ascii_case_spec(x, y));
        if crate::ascii::eq_ignore_ascii_case_spec(x, name) {
            crate::ascii::lemma_eq_ignore_ascii_case_symmetric(x, y);
            crate::ascii::lemma_eq_ignore_ascii_case_transitive(y, x, name);
        } else if crate::ascii::eq_ignore_ascii_case_spec(y, name) {
            crate::ascii::lemma_eq_ignore_ascii_case_transitive(x, y, name);
        }
        assert forall|i: int| 0 <= i < a.drop_first().len() implies crate::ascii::eq_ignore_ascii_case_spec(
            #[trigger] a.drop_first()[i].0,
            b.drop_first()[i].0,
        ) && a.drop_first()[i].1 == b.drop_first()[i].1 by {
            assert(a.drop_first()[i] == a[i + 1]);
            assert(b.drop_first()[i] == b[i + 1]);
        }
        assert(same_up_to_name_case(a.drop_first(), b.drop_first()));
        lemma_get_one_name_case(a.drop_first(), b.drop_first(), name);
    }
}

} // verus!
