//! Scrub-on-drop wrapper for secret-bearing strings.
//!
//! Resolved identities, bearer-derived values and the panic key must not
//! linger in memory once they become unreachable.  The backing storage is
//! handed to `zeroize::Zeroizing`, whose destructor overwrites it with
//! zeros before release; everything this crate states about the wrapped
//! characters is proved against the small trusted surface below.
use vstd::prelude::*;

verus! {

/// A string whose backing memory is overwritten with zeros when the value
/// is dropped, replaced, or removed from an owning container.
///
/// Equality, read access and duplication pass through to the wrapped
/// string; the wrapper adds no behaviour beyond the guaranteed scrubbing.
/// The struct is opaque to the verifier because its single field is the
/// outside container `zeroize::Zeroizing<String>`.
#[verifier::external_body]
pub struct Secret {
    inner: zeroize::Zeroizing<String>,
}

/// The characters held by a scrubbed string container.
pub uninterp spec fn secret_chars(s: &Secret) -> Seq<char>;

impl View for Secret {
    type V = Seq<char>;

    open spec fn view(&self) -> Seq<char> {
        secret_chars(self)
    }
}

impl Secret {
    /// Takes ownership of the string; its memory is scrubbed when the
    /// wrapper is dropped.
    ///
    /// Relies on zeroize::Zeroizing::new: it moves the value into the
    /// wrapper unchanged.
    #[verifier::external_body]
    pub fn new(value: String) -> (r: Secret)
        ensures
            secret_chars(&r) == value@,
    {
        Secret { inner: zeroize::Zeroizing::new(value) }
    }

    /// Read access to the wrapped string, without copying it anywhere.
    ///
    /// Relies on zeroize::Zeroizing's Deref impl: it returns a reference
    /// to the wrapped value itself.
    #[verifier::external_body]
    pub fn expose(&self) -> (r: &String)
        ensures
            r@ == secret_chars(self),
    {
        &self.inner
    }

    /// An owned copy, itself scrubbed on drop.  Copies are made only
    /// here, never silently.
    ///
    /// Relies on zeroize::Zeroizing's Clone impl: it clones the wrapped
    /// value into a fresh wrapper, which scrubs the copy on drop as well.
    #[verifier::external_body]
    pub fn duplicate(&self) -> (r: Secret)
        ensures
            secret_chars(&r) == secret_chars(self),
    {
        Secret { inner: self.inner.clone() }
    }

    /// Whether the wrapped characters equal those of `other`.
    pub fn same(&self, other: &Secret) -> (r: bool)
        ensures
            r == (self@ == other@),
    {
        *self.expose() == *other.expose()
    }
}

} // verus!
