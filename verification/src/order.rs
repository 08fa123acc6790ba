//! The deterministic order in which a file set is hashed: lexicographic
//! by path, with content as a tie-breaker so that the order on
//! (path, content) pairs is total.

use vstd::prelude::*;
use vstd::relations::total_ordering;

verus! {

/// Lexicographic order on character sequences.
pub open spec fn lex_le_chars(a: Seq<char>, b: Seq<char>) -> bool
    decreases a.len(),
{
    if a.len() == 0 {
        true
    } else if b.len() == 0 {
        false
    } else if a.first() < b.first() {
        true
    } else if b.first() < a.first() {
        false
    } else {
        lex_le_chars(a.drop_first(), b.drop_first())
    }
}

/// Lexicographic order on byte sequences.
pub open spec fn lex_le_bytes(a: Seq<u8>, b: Seq<u8>) -> bool
    decreases a.len(),
{
    if a.len() == 0 {
        true
    } else if b.len() == 0 {
        false
    } else if a.first() < b.first() {
        true
    } else if b.first() < a.first() {
        false
    } else {
        lex_le_bytes(a.drop_first(), b.drop_first())
    }
}

pub proof fn lemma_lex_le_chars_refl(a: Seq<char>)
    ensures
        lex_le_chars(a, a),
    decreases a.len(),
{
    if a.len() > 0 {
        lemma_lex_le_chars_refl(a.drop_first());
    }
}

pub proof fn lemma_lex_le_chars_antisym(a: Seq<char>, b: Seq<char>)
    requires
        lex_le_chars(a, b),
        lex_le_chars(b, a),
    ensures
        a == b,
    decreases a.len(),
{
    if a.len() == 0 {
        assert(b.len() == 0);
        assert(a =~= b);
    } else {
        assert(b.len() > 0);
        assert(a.first() == b.first());
        lemma_lex_le_chars_antisym(a.drop_first(), b.drop_first());
        assert(a.len() == b.len());
        assert forall|i: int| 0 <= i < a.len() implies a[i] == b[i] by {
            if i > 0 {
                assert(a[i] == a.drop_first()[i - 1]);
                assert(b[i] == b.drop_first()[i - 1]);
            }
        }
        assert(a =~= b);
    }
}

pub proof fn lemma_lex_le_chars_trans(a: Seq<char>, b: Seq<char>, c: Seq<char>)
    requires
        lex_le_chars(a, b),
        lex_le_chars(b, c),
    ensures
        lex_le_chars(a, c),
    decreases a.len(),
{
    if a.len() == 0 {
    } else {
        assert(b.len() > 0);
        assert(c.len() > 0);
        if a.first() == b.first() && b.first() == c.first() {
            lemma_lex_le_chars_trans(a.drop_first(), b.drop_first(), c.drop_first());
        }
    }
}

pub proof fn lemma_lex_le_chars_connected(a: Seq<char>, b: Seq<char>)
    ensures
        lex_le_chars(a, b) || lex_le_chars(b, a),
    decreases a.len(),
{
    if a.len() == 0 || b.len() == 0 {
    } else if a.first() == b.first() {
        lemma_lex_le_chars_connected(a.drop_first(), b.drop_first());
    }
}

pub proof fn lemma_lex_le_bytes_refl(a: Seq<u8>)
    ensures
        lex_le_bytes(a, a),
    decreases a.len(),
{
    if a.len() > 0 {
        lemma_lex_le_bytes_refl(a.drop_first());
    }
}

pub proof fn lemma_lex_le_bytes_antisym(a: Seq<u8>, b: Seq<u8>)
    requires
        lex_le_bytes(a, b),
        lex_le_bytes(b, a),
    ensures
        a == b,
    decreases a.len(),
{
    if a.len() == 0 {
        assert(b.len() == 0);
        assert(a =~= b);
    } else {
        assert(b.len() > 0);
        assert(a.first() == b.first());
        lemma_lex_le_bytes_antisym(a.drop_first(), b.drop_first());
        assert(a.len() == b.len());
        assert forall|i: int| 0 <= i < a.len() implies a[i] == b[i] by {
            if i > 0 {
                assert(a[i] == a.drop_first()[i - 1]);
                assert(b[i] == b.drop_first()[i - 1]);
            }
        }
        assert(a =~= b);
    }
}

pub proof fn lemma_lex_le_bytes_trans(a: Seq<u8>, b: Seq<u8>, c: Seq<u8>)
    requires
        lex_le_bytes(a, b),
        lex_le_bytes(b, c),
    ensures
        lex_le_bytes(a, c),
    decreases a.len(),
{
    if a.len() == 0 {
    } else {
        assert(b.len() > 0);
        assert(c.len() > 0);
        if a.first() == b.first() && b.first() == c.first() {
            lemma_lex_le_bytes_trans(a.drop_first(), b.drop_first(), c.drop_first());
        }
    }
}

pub proof fn lemma_lex_le_bytes_connected(a: Seq<u8>, b: Seq<u8>)
    ensures
        lex_le_bytes(a, b) || lex_le_bytes(b, a),
    decreases a.len(),
{
    if a.len() == 0 || b.len() == 0 {
    } else if a.first() == b.first() {
        lemma_lex_le_bytes_connected(a.drop_first(), b.drop_first());
    }
}

/// The order in which files are hashed: by path, and for equal paths by
/// content, so that the relation is a total order on (path, content)
/// pairs.
pub open spec fn file_le(x: (Seq<char>, Seq<u8>), y: (Seq<char>, Seq<u8>)) -> bool {
    if x.0 == y.0 {
        lex_le_bytes(x.1, y.1)
    } else {
        lex_le_chars(x.0, y.0)
    }
}

/// `file_le` as a relation value, for use with the sorting lemmas.
pub open spec fn file_le_fn() -> spec_fn((Seq<char>, Seq<u8>), (Seq<char>, Seq<u8>)) -> bool {
    |x: (Seq<char>, Seq<u8>), y: (Seq<char>, Seq<u8>)| file_le(x, y)
}

/// `file_le` is a total order on (path, content) pairs.
pub proof fn lemma_file_le_total_ordering()
    ensures
        total_ordering(file_le_fn()),
{
    let leq = file_le_fn();
    assert forall|x: (Seq<char>, Seq<u8>)| #[trigger] leq(x, x) by {
        lemma_lex_le_bytes_refl(x.1);
    }
    assert forall|x: (Seq<char>, Seq<u8>), y: (Seq<char>, Seq<u8>)|
        #[trigger] leq(x, y) && #[trigger] leq(y, x) implies x == y by {
        if x.0 == y.0 {
            lemma_lex_le_bytes_antisym(x.1, y.1);
        } else {
            lemma_lex_le_chars_antisym(x.0, y.0);
        }
    }
    assert forall|x: (Seq<char>, Seq<u8>), y: (Seq<char>, Seq<u8>), z: (Seq<char>, Seq<u8>)|
        #[trigger] leq(x, y) && #[trigger] leq(y, z) implies leq(x, z) by {
        if x.0 == y.0 && y.0 == z.0 {
            lemma_lex_le_bytes_trans(x.1, y.1, z.1);
        } else if x.0 == y.0 {
            assert(lex_le_chars(y.0, z.0));
        } else if y.0 == z.0 {
            assert(lex_le_chars(x.0, y.0));
        } else {
            lemma_lex_le_chars_trans(x.0, y.0, z.0);
            if x.0 == z.0 {
                lemma_lex_le_chars_antisym(x.0, y.0);
            }
        }
    }
    assert forall|x: (Seq<char>, Seq<u8>), y: (Seq<char>, Seq<u8>)|
        #[trigger] leq(x, y) || #[trigger] leq(y, x) by {
        if x.0 == y.0 {
            lemma_lex_le_bytes_connected(x.1, y.1);
        } else {
            lemma_lex_le_chars_connected(x.0, y.0);
        }
    }
}

/// Whether `a`'s characters precede `b`'s lexicographically.
pub fn lex_le_str(a: &str, b: &str) -> (r: bool)
    ensures
        r == lex_le_chars(a@, b@),
{
    let la = a.unicode_len();
    let lb = b.unicode_len();
    let mut i: usize = 0;
    proof {
        assert(a@.skip(0) =~= a@);
        assert(b@.skip(0) =~= b@);
    }
    loop
        invariant
            i <= la,
            i <= lb,
            la == a@.len(),
            lb == b@.len(),
            lex_le_chars(a@, b@) == lex_le_chars(a@.skip(i as int), b@.skip(i as int)),
        decreases la - i,
    {
        proof {
            assert(a@.skip(i as int).len() == la - i);
            assert(b@.skip(i as int).len() == lb - i);
        }
        if i == la {
            return true;
        }
        if i == lb {
            return false;
        }
        let ca = a.get_char(i);
        let cb = b.get_char(i);
        proof {
            assert(a@.skip(i as int).first() == ca);
            assert(b@.skip(i as int).first() == cb);
        }
        if (ca as u32) < (cb as u32) {
            return true;
        }
        if (cb as u32) < (ca as u32) {
            return false;
        }
        proof {
            assert(ca == cb);
            assert(a@.skip(i as int).drop_first() =~= a@.skip(i + 1));
            assert(b@.skip(i as int).drop_first() =~= b@.skip(i + 1));
        }
        i += 1;
    }
}

/// Whether `a`'s bytes precede `b`'s lexicographically.
pub fn lex_le_slice(a: &[u8], b: &[u8]) -> (r: bool)
    ensures
        r == lex_le_bytes(a@, b@),
{
    let la = a.len();
    let lb = b.len();
    let mut i: usize = 0;
    proof {
        assert(a@.skip(0) =~= a@);
        assert(b@.skip(0) =~= b@);
    }
    loop
        invariant
            i <= la,
            i <= lb,
            la == a@.len(),
            lb == b@.len(),
            lex_le_bytes(a@, b@) == lex_le_bytes(a@.skip(i as int), b@.skip(i as int)),
        decreases la - i,
    {
        proof {
            assert(a@.skip(i as int).len() == la - i);
            assert(b@.skip(i as int).len() == lb - i);
        }
        if i == la {
            return true;
        }
        if i == lb {
            return false;
        }
        let ba = a[i];
        let bb = b[i];
        proof {
            assert(a@.skip(i as int).first() == ba);
            assert(b@.skip(i as int).first() == bb);
        }
        if ba < bb {
            return true;
        }
        if bb < ba {
            return false;
        }
        proof {
            assert(a@.skip(i as int).drop_first() =~= a@.skip(i + 1));
            assert(b@.skip(i as int).drop_first() =~= b@.skip(i + 1));
        }
        i += 1;
    }
}

} // verus!
