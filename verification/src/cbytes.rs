use vstd::prelude::*;
use vstd::string::StringSliceAdditionalSpecFns;

verus! {

/// No byte of `s` is the NUL byte.
pub open spec fn nul_free(s: Seq<u8>) -> bool {
    forall|i: int| 0 <= i < s.len() ==> s[i] != 0u8
}

/// The bytes of a string of ASCII characters.
pub open spec fn ascii_bytes(s: Seq<char>) -> Seq<u8> {
    Seq::new(s.len(), |i: int| s[i] as u8)
}

/// `s` is ASCII text without the NUL character.
pub open spec fn plain_ascii(s: Seq<char>) -> bool {
    forall|i: int| 0 <= i < s.len() ==> '\u{1}' <= #[trigger] s[i] <= '\u{7f}'
}

/// `p` is the index of the first NUL byte of `s`.
pub open spec fn is_first_nul(s: Seq<u8>, p: int) -> bool {
    &&& 0 <= p < s.len()
    &&& s[p] == 0u8
    &&& nul_free(s.take(p))
}

/// The error of a conversion to a C string: the input held a NUL byte.
#[derive(Debug)]
pub struct NulError {
    /// Index of the first NUL byte.
    pub position: usize,
    /// The bytes that were handed over.
    pub bytes: Vec<u8>,
}

impl NulError {
    pub fn nul_position(&self) -> (r: usize)
        ensures
            r == self.position,
    {
        self.position
    }

    pub fn into_vec(self) -> (r: Vec<u8>)
        ensures
            r@ == self.bytes@,
    {
        self.bytes
    }
}

/// A byte string that can be handed to the kernel as a C string: it holds
/// no NUL byte (the terminating NUL is added where it is handed over).
#[derive(Debug)]
pub struct CBytes {
    bytes: Vec<u8>,
}

impl View for CBytes {
    type V = Seq<u8>;

    closed spec fn view(&self) -> Seq<u8> {
        self.bytes@
    }
}

impl CBytes {
    #[verifier::type_invariant]
    spec fn no_interior_nul(self) -> bool {
        nul_free(self.bytes@)
    }

    /// Converts `bytes` into a C string; fails, naming the first NUL byte,
    /// where `bytes` holds one.
    pub fn new(bytes: Vec<u8>) -> (r: Result<CBytes, NulError>)
        ensures
            match r {
                Ok(c) => nul_free(bytes@) && c@ == bytes@,
                Err(e) => !nul_free(bytes@) && is_first_nul(bytes@, e.position as int)
                    && e.bytes@ == bytes@,
            },
    {
        let n: usize = bytes.len();
        let mut i: usize = 0;
        while i < n
            invariant
                n == bytes@.len(),
                i <= n,
                nul_free(bytes@.take(i as int)),
            decreases n - i,
        {
            if bytes[i] == 0u8 {
                return Err(NulError { position: i, bytes });
            }
            assert(bytes@.take(i + 1) =~= bytes@.take(i as int).push(bytes@[i as int]));
            i = i + 1;
        }
        assert(bytes@.take(n as int) =~= bytes@);
        Ok(CBytes { bytes })
    }

    /// Converts a copy of `bytes` into a C string.
    pub fn from_slice(bytes: &[u8]) -> (r: Result<CBytes, NulError>)
        ensures
            match r {
                Ok(c) => nul_free(bytes@) && c@ == bytes@,
                Err(e) => !nul_free(bytes@) && is_first_nul(bytes@, e.position as int)
                    && e.bytes@ == bytes@,
            },
    {
        CBytes::new(vstd::slice::slice_to_vec(bytes))
    }

    /// Converts the UTF-8 bytes of `s` into a C string.
    pub fn from_str(s: &str) -> (r: Result<CBytes, NulError>)
        ensures
            match r {
                Ok(c) => nul_free(s.spec_bytes()) && c@ == s.spec_bytes(),
                Err(e) => !nul_free(s.spec_bytes()) && is_first_nul(
                    s.spec_bytes(),
                    e.position as int,
                ) && e.bytes@ == s.spec_bytes(),
            },
    {
        CBytes::from_slice(s.as_bytes())
    }

    /// The C string of an ASCII text without NUL characters.
    pub fn from_ascii(s: &str) -> (r: CBytes)
        requires
            plain_ascii(s@),
        ensures
            r@ == ascii_bytes(s@),
    {
        proof {
            vstd::string::is_ascii_spec_bytes(s);
        }
        let v = vstd::slice::slice_to_vec(s.as_bytes());
        assert(v@ =~= ascii_bytes(s@));
        CBytes { bytes: v }
    }

    /// The empty C string.
    pub fn empty() -> (r: CBytes)
        ensures
            r@ == Seq::<u8>::empty(),
    {
        CBytes { bytes: Vec::new() }
    }

    pub fn as_bytes(&self) -> (r: &[u8])
        ensures
            r@ == self@,
            nul_free(r@),
    {
        proof {
            use_type_invariant(self);
        }
        self.bytes.as_slice()
    }

    pub fn to_vec(&self) -> (r: Vec<u8>)
        ensures
            r@ == self@,
            nul_free(r@),
    {
        vstd::slice::slice_to_vec(self.as_bytes())
    }

    pub fn len(&self) -> (r: usize)
        ensures
            r == self@.len(),
    {
        self.bytes.len()
    }

    /// Whether this string holds exactly `other`.
    pub fn eq_bytes(&self, other: &[u8]) -> (r: bool)
        ensures
            r == (self@ == other@),
    {
        let n: usize = self.bytes.len();
        if n != other.len() {
            return false;
        }
        let mut i: usize = 0;
        while i < n
            invariant
                n == self@.len(),
                n == other@.len(),
                i <= n,
                forall|j: int| 0 <= j < i ==> self@[j] == other@[j],
            decreases n - i,
        {
            if self.bytes[i] != other[i] {
                return false;
            }
            i = i + 1;
        }
        assert(self@ =~= other@);
        true
    }

    /// A copy of this string.
    pub fn duplicate(&self) -> (r: CBytes)
        ensures
            r@ == self@,
    {
        CBytes { bytes: self.to_vec() }
    }
}

impl Clone for CBytes {
    fn clone(&self) -> (r: CBytes)
        ensures
            r@ == self@,
    {
        self.duplicate()
    }
}

} // verus!
