//! Backend errors, and the split between fatal and soft failures.
use vstd::prelude::*;

use crate::capability::Capability;

verus! {

/// The message carried by the error that `bind` returns when no backend is live.
pub open spec fn no_backend_message() -> Seq<char> {
    "No backend available"@
}

/// One failure of one backend.
#[derive(Clone, Debug)]
pub enum Fault {
    /// The path does not exist: no other backend can do better.
    NonExistent(Vec<u8>),
    /// The backend lacks a capability that the request needs.
    NotSupported(Capability),
    /// The backend ran out of a resource (watch descriptors, memory, ...).
    ResourceExhausted(Option<String>),
    /// The backend cannot serve the request, with an optional reason.
    Unavailable(Option<String>),
}

impl Fault {
    /// Whether this failure aborts the search for another backend.
    pub open spec fn fatal(&self) -> bool {
        self is NonExistent
    }

    /// Whether this failure aborts the search for another backend.
    pub fn is_fatal(&self) -> (r: bool)
        ensures
            r == self.fatal(),
    {
        match self {
            Fault::NonExistent(_) => true,
            _ => false,
        }
    }
}

/// The error of a backend operation: one failure, or several independent ones
/// from a single attempt that touched several paths.
#[derive(Clone, Debug)]
pub enum BackendError {
    Single(Fault),
    Multiple(Vec<Fault>),
}

/// The outcome of a backend operation.
pub type Status = Result<(), BackendError>;

impl BackendError {
    /// The failures that this error holds, in order.
    pub open spec fn faults(&self) -> Seq<Fault> {
        match self {
            BackendError::Single(f) => seq![*f],
            BackendError::Multiple(v) => v@,
        }
    }

    /// Whether any of the failures is fatal.
    pub open spec fn fatal(&self) -> bool {
        exists|i: int| 0 <= i < self.faults().len() && (#[trigger] self.faults()[i]).fatal()
    }

    /// Whether this is the error that says that no backend is live.
    pub open spec fn is_no_backend(&self) -> bool {
        match self {
            BackendError::Single(Fault::Unavailable(Some(m))) => m@ == no_backend_message(),
            _ => false,
        }
    }

    /// The error returned when there is no live backend to try.
    pub fn no_backend() -> (r: BackendError)
        ensures
            r.is_no_backend(),
            !r.fatal(),
    {
        let m = String::from_str("No backend available");
        proof {
            reveal_strlit("No backend available");
        }
        let r = BackendError::Single(Fault::Unavailable(Some(m)));
        assert(!r.faults()[0].fatal());
        r
    }

    /// Whether any of the failures is fatal.
    pub fn is_fatal(&self) -> (r: bool)
        ensures
            r == self.fatal(),
    {
        match self {
            BackendError::Single(f) => {
                let r = f.is_fatal();
                assert(self.faults()[0] == *f);
                r
            },
            BackendError::Multiple(v) => {
                let mut i: usize = 0;
                while i < v.len()
                    invariant
                        0 <= i <= v.len(),
                        self.faults() == v@,
                        forall|j: int| 0 <= j < i ==> !(#[trigger] v@[j]).fatal(),
                    decreases v.len() - i,
                {
                    if v[i].is_fatal() {
                        return true;
                    }
                    i = i + 1;
                }
                false
            },
        }
    }

    /// The failures that this error holds, in order (one for a single failure).
    pub fn into_faults(self) -> (r: Vec<Fault>)
        ensures
            r@ == self.faults(),
    {
        match self {
            BackendError::Single(f) => {
                let r = vec![f];
                assert(r@ =~= seq![f]);
                r
            },
            BackendError::Multiple(v) => v,
        }
    }
}

} // verus!
