use vstd::prelude::*;
use vstd::std_specs::cmp::PartialEqSpec;

verus! {

/// What a request id denotes: a number and a string never coincide.
pub enum IdView {
    Int(int),
    Str(Seq<char>),
}

#[derive(Debug, Clone, Hash)]
enum IdRepr {
    I32(i32),
    String(String),
}

/// A JSON-RPC request id: either a 32-bit integer or a string.
#[derive(Debug, Clone, Hash)]
pub struct RequestId(IdRepr);

impl View for RequestId {
    type V = IdView;

    closed spec fn view(&self) -> IdView {
        match self.0 {
            IdRepr::I32(n) => IdView::Int(n as int),
            IdRepr::String(s) => IdView::Str(s@),
        }
    }
}

impl RequestId {
    /// The integer id `n`.
    pub fn from_i32(n: i32) -> (r: RequestId)
        ensures
            r@ == IdView::Int(n as int),
    {
        RequestId(IdRepr::I32(n))
    }

    /// The string id `s`.
    pub fn from_string(s: String) -> (r: RequestId)
        ensures
            r@ == IdView::Str(s@),
    {
        RequestId(IdRepr::String(s))
    }

    /// The integer this id holds, if it is an integer id.
    pub fn as_i32(&self) -> (r: Option<i32>)
        ensures
            r.is_none() <==> self@ is Str,
            r matches Some(n) ==> self@ == IdView::Int(n as int),
    {
        match &self.0 {
            IdRepr::I32(n) => Some(*n),
            IdRepr::String(_) => None,
        }
    }

    /// The string this id holds, if it is a string id.
    pub fn as_string(&self) -> (r: Option<&String>)
        ensures
            r.is_none() <==> self@ is Int,
            r matches Some(s) ==> self@ == IdView::Str(s@),
    {
        match &self.0 {
            IdRepr::I32(_) => None,
            IdRepr::String(s) => Some(s),
        }
    }

    /// Another id equal to this one.
    pub fn copy_id(&self) -> (r: RequestId)
        ensures
            r@ == self@,
    {
        match &self.0 {
            IdRepr::I32(n) => RequestId(IdRepr::I32(*n)),
            IdRepr::String(s) => RequestId(IdRepr::String(s.clone())),
        }
    }

    /// Compares two ids: equal exactly when they hold the same kind and value.
    pub fn same(&self, other: &RequestId) -> (r: bool)
        ensures
            r == (self@ == other@),
    {
        match (&self.0, &other.0) {
            (IdRepr::I32(a), IdRepr::I32(b)) => *a == *b,
            (IdRepr::String(a), IdRepr::String(b)) => a.eq(b),
            _ => false,
        }
    }
}

impl PartialEq for RequestId {
    fn eq(&self, other: &RequestId) -> (r: bool) {
        self.same(other)
    }
}

impl Eq for RequestId {}

impl vstd::std_specs::cmp::PartialEqSpecImpl for RequestId {
    open spec fn obeys_eq_spec() -> bool {
        true
    }

    open spec fn eq_spec(&self, other: &RequestId) -> bool {
        self@ == other@
    }
}

impl From<i32> for RequestId {
    fn from(n: i32) -> (r: RequestId) {
        RequestId(IdRepr::I32(n))
    }
}

impl vstd::std_specs::convert::FromSpecImpl<i32> for RequestId {
    open spec fn obeys_from_spec() -> bool {
        true
    }

    closed spec fn from_spec(n: i32) -> RequestId {
        RequestId(IdRepr::I32(n))
    }
}

impl From<String> for RequestId {
    fn from(s: String) -> (r: RequestId) {
        RequestId(IdRepr::String(s))
    }
}

impl vstd::std_specs::convert::FromSpecImpl<String> for RequestId {
    open spec fn obeys_from_spec() -> bool {
        true
    }

    closed spec fn from_spec(s: String) -> RequestId {
        RequestId(IdRepr::String(s))
    }
}

/// An integer id and a string id are never equal, whatever digits the string
/// holds.
pub proof fn lemma_int_id_never_equals_string_id(a: RequestId, b: RequestId)
    requires
        a@ is Int,
        b@ is Str,
    ensures
        a@ != b@,
        !a.eq_spec(&b),
{
}

} // verus!
