use vstd::prelude::*;

use crate::names::{copy_string, owned};

verus! {

/// The namespace of vanilla identifiers.
pub open spec fn vanilla_namespace() -> Seq<char> {
    seq!['m', 'i', 'n', 'e', 'c', 'r', 'a', 'f', 't']
}

/// Whether `c` occurs in `s`.
pub open spec fn has_char(s: Seq<char>, c: char) -> bool {
    exists|i: int| 0 <= i < s.len() && s[i] == c
}

/// The identifier that a text written `namespace:path` or `path` stands for: split at its first
/// colon, and in the vanilla namespace when it has none.
pub open spec fn parse_spec(s: Seq<char>) -> (Seq<char>, Seq<char>) {
    if has_char(s, ':') {
        let i = choose|i: int| 0 <= i < s.len() && s[i] == ':' && !has_char(s.take(i), ':');
        (s.take(i), s.skip(i + 1))
    } else {
        (vanilla_namespace(), s)
    }
}

/// The text `namespace:path` of an identifier.
pub open spec fn text_of(id: (Seq<char>, Seq<char>)) -> Seq<char> {
    id.0 + seq![':'] + id.1
}

/// Splits a text at its first colon: `None` when the text holds no colon, else the text before
/// the first colon and the text after it.
pub(crate) fn split_at_first_colon(s: &str) -> (r: Option<(String, String)>)
    ensures
        r is None <==> !has_char(s@, ':'),
        r matches Some((a, b)) ==> s@ == a@ + seq![':'] + b@ && !has_char(a@, ':'),
{
    let n = s.unicode_len();
    let mut i: usize = 0;
    while i < n
        invariant
            0 <= i <= n,
            n == s@.len(),
            forall|k: int| 0 <= k < i ==> s@[k] != ':',
        decreases n - i,
    {
        if s.get_char(i) == ':' {
            let a = String::from_str(s.substring_char(0, i));
            let b = String::from_str(s.substring_char(i + 1, n));
            proof {
                assert(s@ =~= a@ + seq![':'] + b@);
            }
            return Some((a, b));
        }
        i += 1;
    }
    None
}

/// The first colon of a text is unique.
pub proof fn lemma_first_colon(s: Seq<char>, a: Seq<char>, b: Seq<char>)
    requires
        s == a + seq![':'] + b,
        !has_char(a, ':'),
    ensures
        has_char(s, ':'),
        parse_spec(s) == (a, b),
{
    assert(s[a.len() as int] == ':');
    assert(s.take(a.len() as int) =~= a);
    let i = choose|i: int| 0 <= i < s.len() && s[i] == ':' && !has_char(s.take(i), ':');
    if i < a.len() {
        assert(a[i] == ':');
    } else if i > a.len() {
        assert(s.take(i)[a.len() as int] == ':');
    }
    assert(s.skip(a.len() as int + 1) =~= b);
}

/// Reading the text of an identifier whose namespace holds no colon gives the identifier back.
pub proof fn lemma_text_roundtrip(id: (Seq<char>, Seq<char>))
    requires
        !has_char(id.0, ':'),
    ensures
        parse_spec(text_of(id)) == id,
{
    lemma_first_colon(text_of(id), id.0, id.1);
}

/// A namespaced identifier, written `namespace:path`.
#[derive(Debug, Eq, Hash)]
pub struct ResourceLocation {
    pub namespace: String,
    pub path: String,
}

impl View for ResourceLocation {
    type V = (Seq<char>, Seq<char>);

    open spec fn view(&self) -> (Seq<char>, Seq<char>) {
        (self.namespace@, self.path@)
    }
}

impl Clone for ResourceLocation {
    fn clone(&self) -> (r: Self)
        ensures
            r == *self,
    {
        ResourceLocation { namespace: self.namespace.clone(), path: self.path.clone() }
    }
}

impl PartialEq for ResourceLocation {
    fn eq(&self, other: &Self) -> (r: bool) {
        self.namespace == other.namespace && self.path == other.path
    }
}

impl vstd::std_specs::cmp::PartialEqSpecImpl for ResourceLocation {
    open spec fn obeys_eq_spec() -> bool {
        true
    }

    open spec fn eq_spec(&self, other: &Self) -> bool {
        self@ == other@
    }
}

impl ResourceLocation {
    /// The longest identifier text that the protocol carries.
    pub const MAX_SIZE: usize = 32767;

    /// Creates an identifier from its two parts.
    pub fn new(namespace: String, path: String) -> (r: Self)
        ensures
            r@ == (namespace@, path@),
    {
        ResourceLocation { namespace, path }
    }

    /// Creates an identifier in the vanilla namespace.
    pub fn vanilla(path: &str) -> (r: Self)
        ensures
            r@ == (vanilla_namespace(), path@),
    {
        let namespace = owned("minecraft");
        proof {
            reveal_strlit("minecraft");
        }
        assert(namespace@ =~= vanilla_namespace());
        ResourceLocation { namespace, path: owned(path) }
    }

    /// Reads an identifier written `namespace:path`, or `path` in the vanilla namespace.
    pub fn from(s: &str) -> (r: Self)
        ensures
            r@ == parse_spec(s@),
    {
        match split_at_first_colon(s) {
            Some((namespace, path)) => {
                proof {
                    lemma_first_colon(s@, namespace@, path@);
                }
                ResourceLocation { namespace, path }
            },
            None => Self::vanilla(s),
        }
    }

    /// Returns whether two identifiers are equal.
    pub fn same(&self, other: &Self) -> (r: bool)
        ensures
            r == (self@ == other@),
    {
        self.namespace == other.namespace && self.path == other.path
    }

    /// The text `namespace:path` of this identifier.
    pub fn to_string(&self) -> (r: String)
        ensures
            r@ == text_of(self@),
    {
        let mut r = copy_string(&self.namespace);
        r.append(":");
        r.append(self.path.as_str());
        proof {
            reveal_strlit(":");
        }
        assert(r@ =~= text_of(self@));
        r
    }
}

} // verus!
