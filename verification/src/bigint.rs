//! Arbitrary-precision integers as they cross the boundary: a sign and the
//! big-endian bytes of the magnitude.

use vstd::prelude::*;

verus! {

/// The sign of an arbitrary-precision integer.
#[derive(Clone, Copy, Debug, PartialEq, Eq, Structural)]
pub enum Sign {
    Minus,
    NoSign,
    Plus,
}

/// `256` to the power `n`.
pub open spec fn pow256(n: nat) -> nat
    decreases n,
{
    if n == 0 {
        1
    } else {
        256 * pow256((n - 1) as nat)
    }
}

/// The number that a sequence of bytes denotes, most significant byte first.
pub open spec fn be_value(bytes: Seq<u8>) -> nat
    decreases bytes.len(),
{
    if bytes.len() == 0 {
        0
    } else {
        be_value(bytes.drop_last()) * 256 + bytes.last() as nat
    }
}

/// The integer that a sign and a big-endian magnitude denote. With
/// `Sign::NoSign` the magnitude is ignored and the integer is zero.
pub open spec fn signed_value(sign: Sign, magnitude: Seq<u8>) -> int {
    match sign {
        Sign::Minus => -(be_value(magnitude) as int),
        Sign::NoSign => 0,
        Sign::Plus => be_value(magnitude) as int,
    }
}

/// The one representation of each integer: no leading zero byte, zero
/// written as the single byte `0` with `Sign::NoSign`.
pub open spec fn canonical(sign: Sign, magnitude: Seq<u8>) -> bool {
    &&& magnitude.len() >= 1
    &&& magnitude.len() > 1 ==> magnitude[0] != 0
    &&& sign == Sign::NoSign <==> magnitude[0] == 0
}

/// The big-endian bytes of a number without leading zero bytes; zero has
/// none.
pub open spec fn be_bytes_spec(n: nat) -> Seq<u8>
    decreases n,
{
    if n == 0 {
        Seq::empty()
    } else {
        be_bytes_spec(n / 256).push((n % 256) as u8)
    }
}

/// The sign of an integer.
pub open spec fn sign_spec(n: int) -> Sign {
    if n < 0 {
        Sign::Minus
    } else if n == 0 {
        Sign::NoSign
    } else {
        Sign::Plus
    }
}

/// The magnitude of an integer in canonical representation.
pub open spec fn magnitude_spec(n: int) -> Seq<u8> {
    if n == 0 {
        seq![0u8]
    } else if n < 0 {
        be_bytes_spec((-n) as nat)
    } else {
        be_bytes_spec(n as nat)
    }
}

/// The bytes of a number denote the number, and start with a byte that is
/// not zero.
pub proof fn lemma_be_bytes_spec(n: nat)
    ensures
        be_value(be_bytes_spec(n)) == n,
        n > 0 ==> be_bytes_spec(n).len() >= 1 && be_bytes_spec(n)[0] != 0,
        n == 0 ==> be_bytes_spec(n).len() == 0,
    decreases n,
{
    if n > 0 {
        lemma_be_bytes_spec(n / 256);
        let head = be_bytes_spec(n / 256);
        let all = head.push((n % 256) as u8);
        assert(all.drop_last() =~= head);
        assert(all.last() == (n % 256) as u8);
        if n / 256 > 0 {
            assert(all[0] == head[0]);
        }
    }
}

/// The sign and the magnitude of an integer are its canonical
/// representation.
pub proof fn lemma_sign_magnitude(n: int)
    ensures
        canonical(sign_spec(n), magnitude_spec(n)),
        signed_value(sign_spec(n), magnitude_spec(n)) == n,
{
    if n == 0 {
        assert(seq![0u8].drop_last().len() == 0);
    } else if n < 0 {
        lemma_be_bytes_spec((-n) as nat);
    } else {
        lemma_be_bytes_spec(n as nat);
    }
}

pub proof fn lemma_pow256_positive(n: nat)
    ensures
        pow256(n) >= 1,
    decreases n,
{
    if n > 0 {
        lemma_pow256_positive((n - 1) as nat);
    }
}

pub proof fn lemma_pow256_monotonic(a: nat, b: nat)
    requires
        a <= b,
    ensures
        pow256(a) <= pow256(b),
    decreases b,
{
    if a < b {
        lemma_pow256_monotonic(a, (b - 1) as nat);
        lemma_pow256_positive((b - 1) as nat);
    }
}

/// A magnitude of `n` bytes denotes a number below `256^n`.
pub proof fn lemma_be_value_upper(bytes: Seq<u8>)
    ensures
        be_value(bytes) < pow256(bytes.len()),
    decreases bytes.len(),
{
    if bytes.len() > 0 {
        lemma_be_value_upper(bytes.drop_last());
    }
}

/// A magnitude of `n` bytes whose first byte is not zero denotes a number of
/// at least `256^(n-1)`.
pub proof fn lemma_be_value_lower(bytes: Seq<u8>)
    requires
        bytes.len() >= 1,
        bytes[0] != 0,
    ensures
        be_value(bytes) >= pow256((bytes.len() - 1) as nat),
    decreases bytes.len(),
{
    if bytes.len() == 1 {
        assert(bytes.drop_last().len() == 0);
        assert(be_value(bytes.drop_last()) == 0);
    } else {
        lemma_be_value_lower(bytes.drop_last());
    }
}

/// Two magnitudes of one length that denote the same number are equal.
pub proof fn lemma_be_value_injective_same_len(a: Seq<u8>, b: Seq<u8>)
    requires
        a.len() == b.len(),
        be_value(a) == be_value(b),
    ensures
        a == b,
    decreases a.len(),
{
    if a.len() > 0 {
        lemma_be_value_injective_same_len(a.drop_last(), b.drop_last());
        assert(a =~= a.drop_last().push(a.last()));
        assert(b =~= b.drop_last().push(b.last()));
    }
    assert(a =~= b);
}

/// Two canonical representations of one integer are equal.
pub proof fn lemma_canonical_unique(s1: Sign, m1: Seq<u8>, s2: Sign, m2: Seq<u8>)
    requires
        canonical(s1, m1),
        canonical(s2, m2),
        signed_value(s1, m1) == signed_value(s2, m2),
    ensures
        s1 == s2,
        m1 == m2,
{
    lemma_canonical_value_zero(s1, m1);
    lemma_canonical_value_zero(s2, m2);
    if m1[0] == 0 {
        assert(m1 =~= seq![0u8]);
        assert(m2 =~= seq![0u8]);
    } else {
        lemma_be_value_upper(m1);
        lemma_be_value_upper(m2);
        lemma_be_value_lower(m1);
        lemma_be_value_lower(m2);
        if m1.len() < m2.len() {
            lemma_pow256_monotonic(m1.len(), (m2.len() - 1) as nat);
        } else if m2.len() < m1.len() {
            lemma_pow256_monotonic(m2.len(), (m1.len() - 1) as nat);
        }
        lemma_be_value_injective_same_len(m1, m2);
    }
}

/// A canonical representation denotes zero exactly when its sign is
/// `Sign::NoSign`.
pub proof fn lemma_canonical_value_zero(sign: Sign, magnitude: Seq<u8>)
    requires
        canonical(sign, magnitude),
    ensures
        be_value(magnitude) == 0 <==> sign == Sign::NoSign,
        signed_value(sign, magnitude) == 0 <==> sign == Sign::NoSign,
{
    if magnitude[0] == 0 {
        assert(magnitude.drop_last().len() == 0);
        assert(be_value(magnitude.drop_last()) == 0);
    } else {
        lemma_be_value_lower(magnitude);
        lemma_pow256_positive((magnitude.len() - 1) as nat);
    }
}

/// Calls `num_bigint::BigInt::from_bytes_be` and reads the number back with
/// `to_bytes_be`. Trusted: the bytes that come back are the canonical
/// representation of the integer that the sign and the bytes denote (the
/// crate drops leading zero bytes, writes zero as the byte `0`, and gives
/// zero no sign).
#[verifier::external_body]
fn normalize_bytes_be(sign: Sign, bytes: &[u8]) -> (r: (Sign, Vec<u8>))
    ensures
        canonical(r.0, r.1@),
        signed_value(r.0, r.1@) == signed_value(sign, bytes@),
{
    let outside_sign = match sign {
        Sign::Minus => num_bigint::Sign::Minus,
        Sign::NoSign => num_bigint::Sign::NoSign,
        Sign::Plus => num_bigint::Sign::Plus,
    };
    let (s, magnitude) = num_bigint::BigInt::from_bytes_be(outside_sign, bytes).to_bytes_be();
    match s {
        num_bigint::Sign::Minus => (Sign::Minus, magnitude),
        num_bigint::Sign::NoSign => (Sign::NoSign, magnitude),
        num_bigint::Sign::Plus => (Sign::Plus, magnitude),
    }
}

/// An arbitrary-precision integer, held in its canonical representation.
#[derive(Debug, PartialEq, Eq)]
pub struct BigInt {
    sign: Sign,
    magnitude: Vec<u8>,
}

impl View for BigInt {
    type V = int;

    /// The integer itself.
    closed spec fn view(&self) -> int {
        signed_value(self.sign, self.magnitude@)
    }
}

impl BigInt {
    #[verifier::type_invariant]
    spec fn well_formed(self) -> bool {
        canonical(self.sign, self.magnitude@)
    }

    /// The integer that `sign` and the big-endian `bytes` denote.
    pub fn from_bytes_be(sign: Sign, bytes: &[u8]) -> (r: BigInt)
        ensures
            r@ == signed_value(sign, bytes@),
    {
        let (s, magnitude) = normalize_bytes_be(sign, bytes);
        BigInt { sign: s, magnitude }
    }

    /// The integer `n`.
    pub fn from_u64(n: u64) -> (r: BigInt)
        ensures
            r@ == n,
    {
        let bytes = be_bytes(n);
        BigInt::from_bytes_be(Sign::Plus, bytes.as_slice())
    }

    /// The sign of the integer and the big-endian bytes of its magnitude, in
    /// canonical representation.
    pub fn to_bytes_be(&self) -> (r: (Sign, Vec<u8>))
        ensures
            r.0 == sign_spec(self@),
            r.1@ == magnitude_spec(self@),
            canonical(r.0, r.1@),
            signed_value(r.0, r.1@) == self@,
    {
        proof {
            use_type_invariant(self);
            lemma_sign_magnitude(self@);
            lemma_canonical_unique(
                self.sign,
                self.magnitude@,
                sign_spec(self@),
                magnitude_spec(self@),
            );
        }
        (self.sign, copy_bytes(&self.magnitude))
    }

    /// Whether the integer is zero.
    pub fn is_zero(&self) -> (r: bool)
        ensures
            r == (self@ == 0),
    {
        proof {
            use_type_invariant(self);
            lemma_canonical_value_zero(self.sign, self.magnitude@);
        }
        match self.sign {
            Sign::NoSign => true,
            _ => false,
        }
    }

    /// A copy of the integer.
    pub fn duplicate(&self) -> (r: BigInt)
        ensures
            r@ == self@,
    {
        proof {
            use_type_invariant(self);
        }
        BigInt { sign: self.sign, magnitude: copy_bytes(&self.magnitude) }
    }

    /// Whether two integers are the same number.
    pub fn same(&self, other: &BigInt) -> (r: bool)
        ensures
            r == (self@ == other@),
    {
        proof {
            use_type_invariant(self);
            use_type_invariant(other);
            if self@ == other@ {
                lemma_canonical_unique(self.sign, self.magnitude@, other.sign, other.magnitude@);
            }
        }
        self.sign == other.sign && bytes_equal(&self.magnitude, &other.magnitude)
    }

    /// The magnitude as a 64-bit unsigned number, where it fits.
    fn magnitude_u64(&self) -> (r: Option<u64>)
        ensures
            match r {
                Some(m) => m == be_value(self.magnitude@),
                None => be_value(self.magnitude@) > u64::MAX,
            },
    {
        proof {
            use_type_invariant(self);
        }
        let n = self.magnitude.len();
        if n > 8 {
            proof {
                lemma_be_value_lower(self.magnitude@);
                lemma_pow256_monotonic(8, (n - 1) as nat);
                lemma_pow256_8();
            }
            return None;
        }
        let mut acc: u64 = 0;
        let mut i: usize = 0;
        while i < n
            invariant
                n == self.magnitude.len(),
                n <= 8,
                i <= n,
                acc == be_value(self.magnitude@.take(i as int)),
                acc < pow256(i as nat),
            decreases n - i,
        {
            proof {
                let next = self.magnitude@.take(i as int + 1);
                assert(next.drop_last() =~= self.magnitude@.take(i as int));
                lemma_pow256_monotonic((i + 1) as nat, 8);
                lemma_pow256_8();
            }
            acc = acc * 256 + self.magnitude[i] as u64;
            i = i + 1;
        }
        assert(self.magnitude@.take(n as int) =~= self.magnitude@);
        Some(acc)
    }

    /// The integer as a 64-bit signed number, where it fits.
    pub fn to_i64(&self) -> (r: Option<i64>)
        ensures
            match r {
                Some(v) => v == self@,
                None => self@ < i64::MIN || self@ > i64::MAX,
            },
    {
        proof {
            use_type_invariant(self);
            lemma_canonical_value_zero(self.sign, self.magnitude@);
        }
        match self.magnitude_u64() {
            None => None,
            Some(m) => match self.sign {
                Sign::NoSign => Some(0),
                Sign::Plus => if m <= 0x7fff_ffff_ffff_ffff {
                    Some(m as i64)
                } else {
                    None
                },
                Sign::Minus => if m <= 0x7fff_ffff_ffff_ffff {
                    Some(-(m as i64))
                } else if m == 0x8000_0000_0000_0000 {
                    Some(i64::MIN)
                } else {
                    None
                },
            },
        }
    }

    /// The integer as a 64-bit unsigned number, where it fits.
    pub fn to_u64(&self) -> (r: Option<u64>)
        ensures
            match r {
                Some(v) => v == self@,
                None => self@ < 0 || self@ > u64::MAX,
            },
    {
        proof {
            use_type_invariant(self);
            lemma_canonical_value_zero(self.sign, self.magnitude@);
        }
        match self.sign {
            Sign::Minus => None,
            Sign::NoSign => Some(0),
            Sign::Plus => self.magnitude_u64(),
        }
    }
}

/// The big-endian bytes of `n`, without leading zero bytes.
fn be_bytes(n: u64) -> (r: Vec<u8>)
    ensures
        r@ == be_bytes_spec(n as nat),
        be_value(r@) == n,
    decreases n,
{
    proof {
        lemma_be_bytes_spec(n as nat);
    }
    if n == 0 {
        Vec::new()
    } else {
        let mut bytes = be_bytes(n / 256);
        bytes.push((n % 256) as u8);
        bytes
    }
}

proof fn lemma_pow256_8()
    ensures
        pow256(8) == 0x1_0000_0000_0000_0000,
{
    reveal_with_fuel(pow256, 9);
}

/// A copy of a byte string.
pub fn copy_bytes(bytes: &Vec<u8>) -> (r: Vec<u8>)
    ensures
        r@ == bytes@,
{
    let mut out: Vec<u8> = Vec::new();
    let mut i: usize = 0;
    while i < bytes.len()
        invariant
            i <= bytes.len(),
            out@ == bytes@.take(i as int),
        decreases bytes.len() - i,
    {
        out.push(bytes[i]);
        assert(bytes@.take(i as int + 1) == bytes@.take(i as int).push(bytes@[i as int]));
        i = i + 1;
    }
    assert(bytes@.take(bytes.len() as int) =~= bytes@);
    out
}

/// Whether two byte strings hold the same bytes.
pub fn bytes_equal(a: &Vec<u8>, b: &Vec<u8>) -> (r: bool)
    ensures
        r == (a@ == b@),
{
    if a.len() != b.len() {
        return false;
    }
    let mut i: usize = 0;
    while i < a.len()
        invariant
            a.len() == b.len(),
            i <= a.len(),
            forall|j: int| 0 <= j < i ==> a@[j] == b@[j],
        decreases a.len() - i,
    {
        if a[i] != b[i] {
            return false;
        }
        i = i + 1;
    }
    assert(a@ =~= b@);
    true
}

} // verus!
