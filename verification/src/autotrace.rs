//! The rules by which functions are given spans automatically: which items
//! are left alone, and what the span of an item is called.

use vstd::prelude::*;
use vstd::string::StringExecFns;

verus! {

/// The choice between a span per function and, in addition, an event per
/// statement.
pub struct Autotrace {
    deep: bool,
}

/// The attribute path, given by its segments, asks that the item be left
/// alone: it is the single word `autotrace` or `no_autotrace`.
pub open spec fn excludes(path: Seq<String>) -> bool {
    path.len() == 1 && (path[0]@ == "autotrace"@ || path[0]@ == "no_autotrace"@)
}

/// The name of the span of a function or method: its identifier, where it
/// stands, and how the span came about.
pub open spec fn span_name(ident: Seq<char>, location: Seq<char>, kind: Seq<char>) -> Seq<char> {
    ident + " in "@ + location + " (auto:"@ + kind + ")"@
}

impl Autotrace {
    pub closed spec fn spec_is_deep(&self) -> bool {
        self.deep
    }

    /// Tracing with an event before every statement.
    pub fn deep() -> (res: Self)
        ensures
            res.spec_is_deep(),
    {
        Autotrace { deep: true }
    }

    #[verifier::when_used_as_spec(spec_is_deep)]
    pub fn is_deep(&self) -> (res: bool)
        ensures
            res == self.spec_is_deep(),
    {
        self.deep
    }

    /// Whether one of the attributes of an item asks that it be left alone.
    /// Each attribute is given by the segments of its path.
    pub fn is_no_autotrace(&self, attrs: &Vec<Vec<String>>) -> (res: bool)
        ensures
            res <==> exists|i: int| 0 <= i < attrs@.len() && #[trigger] excludes(attrs@[i]@),
    {
        let autotrace = String::from_str("autotrace");
        let no_autotrace = String::from_str("no_autotrace");
        let mut i: usize = 0;
        while i < attrs.len()
            invariant
                i <= attrs@.len(),
                autotrace@ == "autotrace"@,
                no_autotrace@ == "no_autotrace"@,
                forall|j: int| 0 <= j < i ==> !#[trigger] excludes(attrs@[j]@),
            decreases attrs@.len() - i,
        {
            let path = &attrs[i];
            if path.len() == 1 && (path[0] == autotrace || path[0] == no_autotrace) {
                assert(excludes(attrs@[i as int]@));
                return true;
            }
            i += 1;
        }
        false
    }

    /// The name of the span that stands for the function `ident` at
    /// `location`.
    pub fn fn_span_name(ident: &str, location: &str) -> (res: String)
        ensures
            res@ == span_name(ident@, location@, "fn"@),
    {
        Self::item_span_name(ident, location, "fn")
    }

    /// The name of the span that stands for the method `ident` at
    /// `location`.
    pub fn method_span_name(ident: &str, location: &str) -> (res: String)
        ensures
            res@ == span_name(ident@, location@, "method"@),
    {
        Self::item_span_name(ident, location, "method")
    }

    fn item_span_name(ident: &str, location: &str, kind: &str) -> (res: String)
        ensures
            res@ == span_name(ident@, location@, kind@),
    {
        let mut name = String::from_str(ident);
        name.append(" in ");
        name.append(location);
        name.append(" (auto:");
        name.append(kind);
        name.append(")");
        name
    }
}

impl Default for Autotrace {
    fn default() -> (res: Self)
        ensures
            !res.spec_is_deep(),
    {
        Autotrace { deep: false }
    }
}

} // verus!
