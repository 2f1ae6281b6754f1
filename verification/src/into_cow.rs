use std::borrow::Cow;

use vstd::prelude::*;

use crate::cbytes::CBytes;

verus! {

/// Conversion into a copy-on-write value: owned values become owned,
/// borrowed ones borrowed.
pub trait IntoCow<'a, B: ?Sized + ToOwned>: Sized {
    /// The value this converts into.
    spec fn spec_into_cow(self) -> Cow<'a, B>;

    fn into_cow(self) -> (r: Cow<'a, B>)
        ensures
            r == self.spec_into_cow(),
    ;
}

impl<'a, B: ?Sized + ToOwned> IntoCow<'a, B> for Cow<'a, B> {
    open spec fn spec_into_cow(self) -> Cow<'a, B> {
        self
    }

    fn into_cow(self) -> (r: Cow<'a, B>) {
        self
    }
}

impl<'a> IntoCow<'a, str> for String {
    open spec fn spec_into_cow(self) -> Cow<'a, str> {
        Cow::Owned(self)
    }

    fn into_cow(self) -> (r: Cow<'a, str>) {
        Cow::Owned(self)
    }
}

impl<'a> IntoCow<'a, str> for &'a str {
    open spec fn spec_into_cow(self) -> Cow<'a, str> {
        Cow::Borrowed(self)
    }

    fn into_cow(self) -> (r: Cow<'a, str>) {
        Cow::Borrowed(self)
    }
}

impl<'a, T: Clone> IntoCow<'a, [T]> for Vec<T> {
    open spec fn spec_into_cow(self) -> Cow<'a, [T]> {
        Cow::Owned(self)
    }

    fn into_cow(self) -> (r: Cow<'a, [T]>) {
        Cow::Owned(self)
    }
}

impl<'a, T: Clone> IntoCow<'a, [T]> for &'a [T] {
    open spec fn spec_into_cow(self) -> Cow<'a, [T]> {
        Cow::Borrowed(self)
    }

    fn into_cow(self) -> (r: Cow<'a, [T]>) {
        Cow::Borrowed(self)
    }
}

impl<'a> IntoCow<'a, CBytes> for CBytes {
    open spec fn spec_into_cow(self) -> Cow<'a, CBytes> {
        Cow::Owned(self)
    }

    fn into_cow(self) -> (r: Cow<'a, CBytes>) {
        Cow::Owned(self)
    }
}

impl<'a> IntoCow<'a, CBytes> for &'a CBytes {
    open spec fn spec_into_cow(self) -> Cow<'a, CBytes> {
        Cow::Borrowed(self)
    }

    fn into_cow(self) -> (r: Cow<'a, CBytes>) {
        Cow::Borrowed(self)
    }
}

/// The bytes of a C string given as an `IntoCow` value.
pub open spec fn cow_bytes<'a, P: IntoCow<'a, CBytes>>(p: P) -> Seq<u8> {
    p.spec_into_cow()@
}

/// The bytes of an optional C string given as an `IntoCow` value.
pub open spec fn opt_cow_bytes<'a, P: IntoCow<'a, CBytes>>(p: Option<P>) -> Option<Seq<u8>> {
    match p {
        Some(c) => Some(cow_bytes(c)),
        None => None,
    }
}

/// The C string of an `IntoCow` value, owned.
pub fn into_cbytes<'a, P: IntoCow<'a, CBytes>>(p: P) -> (r: CBytes)
    ensures
        r@ == cow_bytes(p),
{
    match p.into_cow() {
        Cow::Borrowed(c) => c.duplicate(),
        Cow::Owned(c) => c,
    }
}

/// The optional C string of an optional `IntoCow` value, owned.
pub fn opt_into_cbytes<'a, P: IntoCow<'a, CBytes>>(p: Option<P>) -> (r: Option<CBytes>)
    ensures
        crate::plan::opt_view(r) == opt_cow_bytes(p),
{
    match p {
        Some(c) => Some(into_cbytes(c)),
        None => None,
    }
}

/// The text of a copy-on-write string, owned.
pub fn cow_to_string(c: Cow<'_, str>) -> (r: String)
    ensures
        r@ == c@,
{
    match c {
        Cow::Borrowed(s) => s.to_owned(),
        Cow::Owned(s) => s,
    }
}

/// The items of a copy-on-write list of numbers, owned.
pub fn cow_to_vec(c: Cow<'_, [u32]>) -> (r: Vec<u32>)
    ensures
        r@ == c@,
{
    match c {
        Cow::Borrowed(s) => vstd::slice::slice_to_vec(s),
        Cow::Owned(v) => v,
    }
}

} // verus!
