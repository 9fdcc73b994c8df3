//! The live TLS acceptor of an accept loop, swapped on certificate reload.

use vstd::prelude::*;

verus! {

/// Holds the acceptor handed to each new connection. A reload that built a
/// new acceptor replaces it; a failed one leaves it as it was.
pub struct TlsContext<A> {
    tls_acceptor: A,
}

impl<A> TlsContext<A> {
    /// The acceptor new connections get.
    pub closed spec fn acceptor(&self) -> A {
        self.tls_acceptor
    }

    pub fn new(tls_acceptor: A) -> (r: Self)
        ensures
            r.acceptor() == tls_acceptor,
    {
        TlsContext { tls_acceptor }
    }

    /// The acceptor for the next connection.
    pub fn tls_acceptor(&self) -> (r: &A)
        ensures
            *r == self.acceptor(),
    {
        &self.tls_acceptor
    }

    /// Applies the outcome of rebuilding the acceptor after the reloader
    /// asked for it: a built acceptor becomes the live one at once; an error
    /// keeps the live one. Returns whether the acceptor changed.
    pub fn reload<E>(&mut self, rebuilt: Result<A, E>) -> (reloaded: bool)
        ensures
            match rebuilt {
                Ok(a) => reloaded && final(self).acceptor() == a,
                Err(_) => !reloaded && final(self).acceptor() == old(self).acceptor(),
            },
    {
        match rebuilt {
            Ok(a) => {
                self.tls_acceptor = a;
                true
            },
            Err(_) => false,
        }
    }
}

} // verus!
