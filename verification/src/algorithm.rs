//! The closed set of supported digest algorithms, together with the
//! resolver that infers an algorithm from a digest's hexadecimal length
//! and the validator for user-supplied algorithm names.

use vstd::prelude::*;

verus! {

/// One of the five supported digest algorithms.
///
/// Each algorithm has a fixed output length; the mapping from hex-digest
/// length to algorithm is injective, so a length determines the algorithm.
#[derive(Clone, Copy, PartialEq, Eq, Structural, Debug)]
pub enum Algorithm {
    Md5,
    Sha1,
    Sha256,
    Sha384,
    Sha512,
}

impl Algorithm {
    /// Length of this algorithm's raw digest, in bytes.
    pub open spec fn spec_byte_len(self) -> nat {
        match self {
            Algorithm::Md5 => 16,
            Algorithm::Sha1 => 20,
            Algorithm::Sha256 => 32,
            Algorithm::Sha384 => 48,
            Algorithm::Sha512 => 64,
        }
    }

    /// Length of this algorithm's digest rendered as hex text: two
    /// characters per raw byte.
    pub open spec fn spec_hex_len(self) -> nat {
        2 * self.spec_byte_len()
    }

    pub fn hex_len(self) -> (r: usize)
        ensures
            r == self.spec_hex_len(),
    {
        match self {
            Algorithm::Md5 => 32,
            Algorithm::Sha1 => 40,
            Algorithm::Sha256 => 64,
            Algorithm::Sha384 => 96,
            Algorithm::Sha512 => 128,
        }
    }

    /// The algorithm's lowercase name.
    pub open spec fn spec_name(self) -> Seq<char> {
        match self {
            Algorithm::Md5 => "md5"@,
            Algorithm::Sha1 => "sha1"@,
            Algorithm::Sha256 => "sha256"@,
            Algorithm::Sha384 => "sha384"@,
            Algorithm::Sha512 => "sha512"@,
        }
    }

    pub fn name(self) -> (r: &'static str)
        ensures
            r@ == self.spec_name(),
    {
        match self {
            Algorithm::Md5 => "md5",
            Algorithm::Sha1 => "sha1",
            Algorithm::Sha256 => "sha256",
            Algorithm::Sha384 => "sha384",
            Algorithm::Sha512 => "sha512",
        }
    }

    /// The unique algorithm whose hex-digest length is `len`, if any.
    pub open spec fn spec_from_hex_len(len: nat) -> Option<Algorithm> {
        if len == 32 {
            Some(Algorithm::Md5)
        } else if len == 40 {
            Some(Algorithm::Sha1)
        } else if len == 64 {
            Some(Algorithm::Sha256)
        } else if len == 96 {
            Some(Algorithm::Sha384)
        } else if len == 128 {
            Some(Algorithm::Sha512)
        } else {
            None
        }
    }

    /// Infer the algorithm from the length of a hex digest.
    ///
    /// Returns the unique algorithm with that output length, or `None`
    /// when no supported algorithm matches; an unknown length is never
    /// resolved to a guess.
    pub fn from_hex_len(len: usize) -> (r: Option<Algorithm>)
        ensures
            r == Self::spec_from_hex_len(len as nat),
    {
        match len {
            32 => Some(Algorithm::Md5),
            40 => Some(Algorithm::Sha1),
            64 => Some(Algorithm::Sha256),
            96 => Some(Algorithm::Sha384),
            128 => Some(Algorithm::Sha512),
            _ => None,
        }
    }

    /// The algorithm named `name`, under a case-sensitive match.
    pub open spec fn spec_from_name(name: Seq<char>) -> Option<Algorithm> {
        if name == "md5"@ {
            Some(Algorithm::Md5)
        } else if name == "sha1"@ {
            Some(Algorithm::Sha1)
        } else if name == "sha256"@ {
            Some(Algorithm::Sha256)
        } else if name == "sha384"@ {
            Some(Algorithm::Sha384)
        } else if name == "sha512"@ {
            Some(Algorithm::Sha512)
        } else {
            None
        }
    }

    /// Validate a user-supplied algorithm name against the supported set.
    pub fn from_name(name: &str) -> (r: Option<Algorithm>)
        ensures
            r == Self::spec_from_name(name@),
    {
        if str_eq(name, "md5") {
            Some(Algorithm::Md5)
        } else if str_eq(name, "sha1") {
            Some(Algorithm::Sha1)
        } else if str_eq(name, "sha256") {
            Some(Algorithm::Sha256)
        } else if str_eq(name, "sha384") {
            Some(Algorithm::Sha384)
        } else if str_eq(name, "sha512") {
            Some(Algorithm::Sha512)
        } else {
            None
        }
    }

    /// The supported algorithms in their stable, fixed order.
    pub open spec fn spec_all() -> Seq<Algorithm> {
        seq![
            Algorithm::Md5,
            Algorithm::Sha1,
            Algorithm::Sha256,
            Algorithm::Sha384,
            Algorithm::Sha512,
        ]
    }

    pub fn all() -> (r: Vec<Algorithm>)
        ensures
            r@ == Self::spec_all(),
    {
        let mut v: Vec<Algorithm> = Vec::new();
        v.push(Algorithm::Md5);
        v.push(Algorithm::Sha1);
        v.push(Algorithm::Sha256);
        v.push(Algorithm::Sha384);
        v.push(Algorithm::Sha512);
        proof {
            assert(v@ =~= Self::spec_all());
        }
        v
    }
}

/// Character-for-character equality of two string slices.
pub fn str_eq(a: &str, b: &str) -> (r: bool)
    ensures
        r == (a@ == b@),
{
    let la = a.unicode_len();
    let lb = b.unicode_len();
    if la != lb {
        proof {
            assert(a@ != b@) by {
                assert(a@.len() != b@.len());
            }
        }
        return false;
    }
    let mut i: usize = 0;
    while i < la
        invariant
            i <= la,
            la == a@.len(),
            la == b@.len(),
            forall|j: int| 0 <= j < i ==> a@[j] == b@[j],
        decreases la - i,
    {
        if a.get_char(i) != b.get_char(i) {
            return false;
        }
        i += 1;
    }
    proof {
        assert(a@ =~= b@);
    }
    true
}

/// The names of the supported algorithms in their stable order.
pub open spec fn spec_supported_names() -> Seq<Seq<char>> {
    seq!["md5"@, "sha1"@, "sha256"@, "sha384"@, "sha512"@]
}

/// Get a list of all supported algorithms.
pub fn available_algorithms() -> (r: [&'static str; 5])
    ensures
        r@.map_values(|s: &str| s@) =~= spec_supported_names(),
{
    let r = ["md5", "sha1", "sha256", "sha384", "sha512"];
    proof {
        assert(r@.map_values(|s: &str| s@) =~= spec_supported_names());
    }
    r
}

/// The names of all supported algorithms, as owned strings, in the same
/// stable order as `available_algorithms`.
pub fn get_all_algorithms() -> (r: Vec<String>)
    ensures
        r@.map_values(|s: String| s@) =~= spec_supported_names(),
{
    let mut v: Vec<String> = Vec::new();
    v.push(String::from_str("md5"));
    v.push(String::from_str("sha1"));
    v.push(String::from_str("sha256"));
    v.push(String::from_str("sha384"));
    v.push(String::from_str("sha512"));
    proof {
        assert(v@.map_values(|s: String| s@) =~= spec_supported_names());
    }
    v
}

/// Whether `algorithm` names a supported algorithm (case-sensitive).
pub fn algorithm_available(algorithm: String) -> (r: bool)
    ensures
        r == (Algorithm::spec_from_name(algorithm@) is Some),
{
    Algorithm::from_name(algorithm.as_str()).is_some()
}

/// Evaluate the algorithm name from the length of a hex digest.
///
/// Returns the name of the unique supported algorithm whose hex output
/// has length `len`, or `None` for every other length.
pub fn get_algorithm_by_hash_len(len: usize) -> (r: Option<String>)
    ensures
        match Algorithm::spec_from_hex_len(len as nat) {
            Some(a) => r is Some && r->0@ == a.spec_name(),
            None => r is None,
        },
{
    match Algorithm::from_hex_len(len) {
        Some(a) => Some(String::from_str(a.name())),
        None => None,
    }
}

/// Evaluate the algorithm name from a hex digest itself, by its length.
pub fn get_algorithm(hash: String) -> (r: Option<String>)
    ensures
        match Algorithm::spec_from_hex_len(hash@.len()) {
            Some(a) => r is Some && r->0@ == a.spec_name(),
            None => r is None,
        },
{
    get_algorithm_by_hash_len(hash.as_str().unicode_len())
}

/// Resolving by length is exact: each supported algorithm is recovered
/// from its own hex length, lengths determine algorithms uniquely, and
/// every length outside the five supported ones resolves to nothing.
pub proof fn lemma_resolve_by_length_exact()
    ensures
        forall|a: Algorithm| Algorithm::spec_from_hex_len(a.spec_hex_len()) == Some(a),
        forall|a: Algorithm, b: Algorithm| a.spec_hex_len() == b.spec_hex_len() ==> a == b,
        forall|len: nat|
            Algorithm::spec_from_hex_len(len) is Some <==> (len == 32 || len == 40 || len == 64
                || len == 96 || len == 128),
{
}

/// Round trip of validation and the supported list: every name that
/// `Algorithm::spec_from_name` accepts occurs in the supported-name list.
pub proof fn lemma_validated_name_is_listed(name: Seq<char>)
    requires
        Algorithm::spec_from_name(name) is Some,
    ensures
        exists|i: int|
            0 <= i < spec_supported_names().len() && spec_supported_names()[i] == name,
{
    if name == "md5"@ {
        assert(spec_supported_names()[0] == name);
    } else if name == "sha1"@ {
        assert(spec_supported_names()[1] == name);
    } else if name == "sha256"@ {
        assert(spec_supported_names()[2] == name);
    } else if name == "sha384"@ {
        assert(spec_supported_names()[3] == name);
    } else {
        assert(spec_supported_names()[4] == name);
    }
}

} // verus!
