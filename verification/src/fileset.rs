//! Hashing a whole file set: the files are brought into the
//! deterministic sorted order and their contents are concatenated into
//! one aggregate digest, with per-file digests on request.

use vstd::prelude::*;
use vstd::relations::sorted_by;
use vstd::seq_lib::{lemma_multiset_commutative, lemma_sorted_unique};

use crate::algorithm::Algorithm;
use crate::order::{file_le, file_le_fn, lemma_file_le_total_ordering, lex_le_slice, lex_le_str};
use crate::session::{spec_aggregate_hex, HashSession, ReportEntry};

verus! {

/// One file handed to the hasher: its path and its full contents.
pub struct FileInput {
    pub path: String,
    pub content: Vec<u8>,
}

/// The mathematical value of one file: its (path, content) pair.
pub open spec fn file_model(f: FileInput) -> (Seq<char>, Seq<u8>) {
    (f.path@, f.content@)
}

/// The mathematical value of a file sequence.
pub open spec fn model_of(files: Seq<FileInput>) -> Seq<(Seq<char>, Seq<u8>)> {
    files.map_values(|f: FileInput| file_model(f))
}

/// Inserting anywhere adds one occurrence to a sequence's multiset.
proof fn lemma_insert_to_multiset<A>(s: Seq<A>, i: int, x: A)
    requires
        0 <= i <= s.len(),
    ensures
        s.insert(i, x).to_multiset() =~= s.to_multiset().insert(x),
{
    broadcast use vstd::seq_lib::group_to_multiset_ensures;
    broadcast use vstd::multiset::group_multiset_axioms;

    assert(s.insert(i, x) =~= s.take(i).push(x) + s.skip(i));
    lemma_multiset_commutative(s.take(i).push(x), s.skip(i));
    assert(s.take(i).push(x).to_multiset() =~= s.take(i).to_multiset().insert(x));
    assert(s.take(i) + s.skip(i) =~= s);
    lemma_multiset_commutative(s.take(i), s.skip(i));
    assert(s.take(i).to_multiset().insert(x).add(s.skip(i).to_multiset()) =~= s.take(
        i,
    ).to_multiset().add(s.skip(i).to_multiset()).insert(x));
}

/// Whether `a` comes no later than `b` in the hashing order.
fn file_le_exec(a: &FileInput, b: &FileInput) -> (r: bool)
    ensures
        r == file_le(file_model(*a), file_model(*b)),
{
    if a.path == b.path {
        lex_le_slice(a.content.as_slice(), b.content.as_slice())
    } else {
        lex_le_str(a.path.as_str(), b.path.as_str())
    }
}

/// The first position in sorted `out` at which `f` may be inserted.
fn insert_pos(out: &Vec<FileInput>, f: &FileInput) -> (k: usize)
    ensures
        k <= out@.len(),
        forall|j: int| 0 <= j < k ==> file_le(model_of(out@)[j], file_model(*f)),
        k < out@.len() ==> !file_le(model_of(out@)[k as int], file_model(*f)),
{
    let mut k: usize = 0;
    while k < out.len()
        invariant
            k <= out@.len(),
            forall|j: int| 0 <= j < k ==> file_le(model_of(out@)[j], file_model(*f)),
        decreases out@.len() - k,
    {
        if !file_le_exec(&out[k], f) {
            return k;
        }
        k += 1;
    }
    k
}

/// Bring a file set into the deterministic hashing order.
///
/// The result is sorted by the total file order and holds exactly the
/// files that went in; those two facts determine it uniquely.
pub fn sort_files(files: Vec<FileInput>) -> (r: Vec<FileInput>)
    ensures
        sorted_by(model_of(r@), file_le_fn()),
        model_of(r@).to_multiset() == model_of(files@).to_multiset(),
{
    let mut rest = files;
    let mut out: Vec<FileInput> = Vec::new();
    proof {
        broadcast use vstd::seq_lib::group_to_multiset_ensures;
        broadcast use vstd::multiset::group_multiset_axioms;

        assert(model_of(out@) =~= Seq::<(Seq<char>, Seq<u8>)>::empty());
        assert(model_of(out@).to_multiset().add(model_of(rest@).to_multiset()) =~= model_of(
            files@,
        ).to_multiset());
    }
    while rest.len() > 0
        invariant
            sorted_by(model_of(out@), file_le_fn()),
            model_of(out@).to_multiset().add(model_of(rest@).to_multiset()) == model_of(
                files@,
            ).to_multiset(),
        decreases rest@.len(),
    {
        let ghost old_rest = rest@;
        let ghost old_out = out@;
        let f = match rest.pop() {
            Some(f) => f,
            None => {
                proof {
                    assert(false);
                }
                unreached()
            },
        };
        let k = insert_pos(&out, &f);
        let ghost mf = file_model(f);
        out.insert(k, f);
        proof {
            broadcast use vstd::seq_lib::group_to_multiset_ensures;
            broadcast use vstd::multiset::group_multiset_axioms;

            lemma_file_le_total_ordering();
            let m_old = model_of(old_out);
            let m_new = model_of(out@);
            assert(m_new =~= m_old.insert(k as int, mf));
            // Sortedness of the model after the insertion.
            assert forall|i: int, j: int| 0 <= i < j < m_new.len() implies file_le_fn()(
                m_new[i],
                m_new[j],
            ) by {
                let leq = file_le_fn();
                if j < k {
                    assert(m_new[i] == m_old[i] && m_new[j] == m_old[j]);
                } else if i < k && j == k {
                    assert(m_new[i] == m_old[i]);
                    assert(leq(m_old[i], mf));
                } else if i < k && j > k {
                    assert(m_new[i] == m_old[i] && m_new[j] == m_old[j - 1]);
                } else if i == k {
                    assert(m_new[j] == m_old[j - 1]);
                    assert(!leq(m_old[k as int], mf));
                    assert(leq(mf, m_old[k as int]));
                    assert(leq(m_old[k as int], m_old[j - 1]));
                } else {
                    assert(m_new[i] == m_old[i - 1] && m_new[j] == m_old[j - 1]);
                }
            }
            // The multiset is preserved.
            lemma_insert_to_multiset(m_old, k as int, mf);
            assert(model_of(old_rest) =~= model_of(rest@).push(mf));
            assert(model_of(old_rest).to_multiset() =~= model_of(rest@).to_multiset().insert(mf));
            assert(m_new.to_multiset().add(model_of(rest@).to_multiset()) =~= model_of(
                files@,
            ).to_multiset());
        }
    }
    proof {
        broadcast use vstd::multiset::group_multiset_axioms;

        assert(model_of(rest@) =~= Seq::<(Seq<char>, Seq<u8>)>::empty());
        assert(model_of(out@).to_multiset().add(model_of(rest@).to_multiset()) =~= model_of(
            out@,
        ).to_multiset());
    }
    out
}

/// The per-file report a sorted file sequence gives rise to.
pub open spec fn spec_sorted_report(alg: Algorithm, files: Seq<FileInput>, emit_per_file: bool) -> Seq<
    (Seq<char>, Seq<char>),
> {
    if emit_per_file {
        HashSession::spec_report_of(alg, model_of(files).sort_by(file_le_fn()))
    } else {
        Seq::empty()
    }
}

/// Hash a whole file set under `alg`.
///
/// The files are first brought into the deterministic sorted order; the
/// aggregate digest is the digest of the concatenation of all contents
/// in that order, and, when `emit_per_file` is set, each file also gets
/// its own digest in the report, in the same order.
pub fn hash_file_set(alg: Algorithm, files: Vec<FileInput>, emit_per_file: bool) -> (r: (
    String,
    Vec<ReportEntry>,
))
    ensures
        r.0@ == spec_aggregate_hex(alg, model_of(files@).sort_by(file_le_fn())),
        r.0@.len() == alg.spec_hex_len(),
        r.1@.map_values(|e: ReportEntry| (e.path@, e.digest@)) == spec_sorted_report(
            alg,
            files@,
            emit_per_file,
        ),
{
    let ghost input_model = model_of(files@);
    let sorted = sort_files(files);
    proof {
        lemma_file_le_total_ordering();
        input_model.lemma_sort_by_ensures(file_le_fn());
        lemma_sorted_unique(model_of(sorted@), input_model.sort_by(file_le_fn()), file_le_fn());
        assert(model_of(sorted@) == input_model.sort_by(file_le_fn()));
    }
    let ghost m = model_of(sorted@);
    let mut session = HashSession::new(alg, emit_per_file);
    let mut i: usize = 0;
    proof {
        assert(session.files() =~= m.take(0));
        assert(HashSession::spec_report_of(alg, m.take(0)) =~= Seq::<(Seq<char>, Seq<char>)>::empty());
    }
    while i < sorted.len()
        invariant
            i <= sorted@.len(),
            m == model_of(sorted@),
            session.wf(),
            session.algorithm() == alg,
            session.per_file() == emit_per_file,
            !session.file_open(),
            session.files() == m.take(i as int),
            session.report() == if emit_per_file {
                HashSession::spec_report_of(alg, m.take(i as int))
            } else {
                Seq::<(Seq<char>, Seq<char>)>::empty()
            },
        decreases sorted@.len() - i,
    {
        session = session.begin_file();
        session = session.update(sorted[i].content.as_slice());
        session = session.end_file(sorted[i].path.as_str());
        proof {
            assert(Seq::<u8>::empty() + sorted@[i as int].content@ =~= sorted@[i as int].content@);
            assert(m.take(i + 1 as int) =~= m.take(i as int).push(m[i as int]));
            if emit_per_file {
                assert(HashSession::spec_report_of(alg, m.take(i + 1 as int))
                    =~= HashSession::spec_report_of(alg, m.take(i as int)).push(
                    (m[i as int].0, crate::hex::hex_of(crate::engine::spec_digest(
                        alg,
                        m[i as int].1,
                    ))),
                ));
            }
        }
        i += 1;
    }
    proof {
        assert(m.take(sorted@.len() as int) =~= m);
    }
    let (aggregate, entries) = session.finish();
    (aggregate, entries)
}

/// Why a hashing request failed.
#[derive(Debug)]
pub enum HashError {
    /// The supplied algorithm name is outside the supported set.
    UnsupportedAlgorithm(String),
    /// The root path does not exist as a file or directory.
    PathNotFound(String),
    /// A specific path could not be opened or read.
    IoError(String),
}

impl HashError {
    /// A human readable description of the failure.
    pub fn message(&self) -> (r: String)
        ensures
            match self {
                HashError::UnsupportedAlgorithm(name) => r@ == name@
                    + " is not a available algorithm!"@,
                HashError::PathNotFound(path) => r@ == "path "@ + path@ + " not found"@,
                HashError::IoError(path) => r@ == path@ + " is not a valid path"@,
            },
    {
        match self {
            HashError::UnsupportedAlgorithm(name) => {
                let mut out = name.clone();
                out.append(" is not a available algorithm!");
                out
            },
            HashError::PathNotFound(path) => {
                let mut out = String::from_str("path ");
                out.append(path.as_str());
                out.append(" not found");
                out
            },
            HashError::IoError(path) => {
                let mut out = path.clone();
                out.append(" is not a valid path");
                out
            },
        }
    }
}

/// The outcome of hashing a file set: the aggregate hex digest and the
/// per-file report (empty unless per-file output was requested).
pub struct HashOutcome {
    pub aggregate: String,
    pub entries: Vec<ReportEntry>,
}

/// Hash a file set under the algorithm named `algorithm`.
///
/// Fails exactly when the name is outside the supported set, carrying
/// the offending name; otherwise the aggregate digest and the per-file
/// report are those of `hash_file_set` under the named algorithm.
pub fn hash(algorithm: &str, files: Vec<FileInput>, emit_per_file: bool) -> (r: Result<
    HashOutcome,
    HashError,
>)
    ensures
        match r {
            Ok(out) => Algorithm::spec_from_name(algorithm@) is Some && {
                let alg = Algorithm::spec_from_name(algorithm@)->0;
                &&& out.aggregate@ == spec_aggregate_hex(
                    alg,
                    model_of(files@).sort_by(file_le_fn()),
                )
                &&& out.aggregate@.len() == alg.spec_hex_len()
                &&& out.entries@.map_values(|e: ReportEntry| (e.path@, e.digest@))
                    == spec_sorted_report(alg, files@, emit_per_file)
            },
            Err(e) => Algorithm::spec_from_name(algorithm@) is None && (match e {
                HashError::UnsupportedAlgorithm(name) => name@ == algorithm@,
                _ => false,
            }),
        },
{
    let alg = match Algorithm::from_name(algorithm) {
        Some(alg) => alg,
        None => {
            return Err(HashError::UnsupportedAlgorithm(algorithm.to_owned()));
        },
    };
    let (aggregate, entries) = hash_file_set(alg, files, emit_per_file);
    Ok(HashOutcome { aggregate, entries })
}

/// The aggregate digest of a directory is invariant under the
/// filesystem's native enumeration order: any two file sequences with
/// the same multiset of (path, content) pairs sort to the same sequence
/// and so produce the same aggregate digest and the same report.
pub proof fn lemma_aggregate_enumeration_order_irrelevant(
    alg: Algorithm,
    s1: Seq<(Seq<char>, Seq<u8>)>,
    s2: Seq<(Seq<char>, Seq<u8>)>,
)
    requires
        s1.to_multiset() == s2.to_multiset(),
    ensures
        s1.sort_by(file_le_fn()) == s2.sort_by(file_le_fn()),
        spec_aggregate_hex(alg, s1.sort_by(file_le_fn())) == spec_aggregate_hex(
            alg,
            s2.sort_by(file_le_fn()),
        ),
{
    lemma_file_le_total_ordering();
    s1.lemma_sort_by_ensures(file_le_fn());
    s2.lemma_sort_by_ensures(file_le_fn());
    lemma_sorted_unique(s1.sort_by(file_le_fn()), s2.sort_by(file_le_fn()), file_le_fn());
}

} // verus!
