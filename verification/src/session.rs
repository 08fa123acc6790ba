//! The streaming hashing session: one aggregate digest over the
//! concatenation of every file's bytes in the order the files are fed,
//! and, on request, one independent digest per file.

use vstd::prelude::*;

use crate::algorithm::Algorithm;
use crate::engine::{spec_digest, DigestState};
use crate::hex::{byte_to_hex, hex_of};

verus! {

/// One line of a per-file report: a path and the hex digest of that
/// file's own bytes.
pub struct ReportEntry {
    pub path: String,
    pub digest: String,
}

/// The contents of a sequence of (path, content) files.
pub open spec fn contents_of(files: Seq<(Seq<char>, Seq<u8>)>) -> Seq<Seq<u8>> {
    files.map_values(|f: (Seq<char>, Seq<u8>)| f.1)
}

/// The hex digest of a whole file sequence under `alg`: the digest of the
/// concatenation of the contents, in order.
pub open spec fn spec_aggregate_hex(alg: Algorithm, files: Seq<(Seq<char>, Seq<u8>)>) -> Seq<
    char,
> {
    hex_of(spec_digest(alg, contents_of(files).flatten()))
}

/// A hashing session over a sequence of files.
///
/// Files are fed one at a time: `begin_file`, any number of `update`
/// calls with that file's bytes in order, then `end_file` with its path.
/// `finish` yields the aggregate digest of the concatenation of all
/// bytes, in fed order, together with the per-file report entries that
/// were collected when the session was created with per-file emission.
pub struct HashSession {
    alg: Algorithm,
    emit_per_file: bool,
    aggregate: DigestState,
    current: Option<DigestState>,
    entries: Vec<ReportEntry>,
    open_file: bool,
    files: Ghost<Seq<(Seq<char>, Seq<u8>)>>,
    cur: Ghost<Seq<u8>>,
}

impl HashSession {
    /// The algorithm every digest of this session uses.
    pub closed spec fn algorithm(self) -> Algorithm {
        self.alg
    }

    /// Whether per-file digests are being collected.
    pub closed spec fn per_file(self) -> bool {
        self.emit_per_file
    }

    /// Whether a file has been begun and not yet ended.
    pub closed spec fn file_open(self) -> bool {
        self.open_file
    }

    /// The files completed so far, as (path, content) pairs in fed order.
    pub closed spec fn files(self) -> Seq<(Seq<char>, Seq<u8>)> {
        self.files@
    }

    /// The bytes of the currently open file fed so far.
    pub closed spec fn cur(self) -> Seq<u8> {
        self.cur@
    }

    /// The per-file report collected so far, as (path, hex digest) pairs.
    pub closed spec fn report(self) -> Seq<(Seq<char>, Seq<char>)> {
        self.entries@.map_values(|e: ReportEntry| (e.path@, e.digest@))
    }

    /// The per-file report that a file sequence gives rise to.
    pub open spec fn spec_report_of(alg: Algorithm, files: Seq<(Seq<char>, Seq<u8>)>) -> Seq<
        (Seq<char>, Seq<char>),
    > {
        files.map_values(|f: (Seq<char>, Seq<u8>)| (f.0, hex_of(spec_digest(alg, f.1))))
    }

    /// Internal consistency of the session.
    pub closed spec fn wf(self) -> bool {
        &&& self.aggregate.algorithm() == self.alg
        &&& self.aggregate.absorbed() == contents_of(self.files@).flatten() + self.cur@
        &&& (!self.open_file ==> self.cur@ == Seq::<u8>::empty())
        &&& (match self.current {
            Some(st) => self.open_file && self.emit_per_file && st.algorithm() == self.alg
                && st.absorbed() == self.cur@,
            None => !(self.open_file && self.emit_per_file),
        })
        &&& (self.emit_per_file ==> self.report() == Self::spec_report_of(self.alg, self.files@))
        &&& (!self.emit_per_file ==> self.entries@.len() == 0)
    }

    /// Start a session for `alg`; per-file digests are collected exactly
    /// when `emit_per_file` is set.
    pub fn new(alg: Algorithm, emit_per_file: bool) -> (r: HashSession)
        ensures
            r.wf(),
            r.algorithm() == alg,
            r.per_file() == emit_per_file,
            !r.file_open(),
            r.files() == Seq::<(Seq<char>, Seq<u8>)>::empty(),
            r.report() == Seq::<(Seq<char>, Seq<char>)>::empty(),
    {
        let r = HashSession {
            alg,
            emit_per_file,
            aggregate: DigestState::create(alg),
            current: None,
            entries: Vec::new(),
            open_file: false,
            files: Ghost(Seq::empty()),
            cur: Ghost(Seq::empty()),
        };
        proof {
            assert(contents_of(r.files@) =~= Seq::<Seq<u8>>::empty());
            assert(contents_of(r.files@).flatten() =~= Seq::<u8>::empty());
            assert(r.aggregate.absorbed() =~= contents_of(r.files@).flatten() + r.cur@);
            assert(r.report() =~= Self::spec_report_of(alg, r.files@));
            assert(r.report() =~= Seq::<(Seq<char>, Seq<char>)>::empty());
        }
        r
    }

    /// Open the next file.
    pub fn begin_file(self) -> (r: HashSession)
        requires
            self.wf(),
            !self.file_open(),
        ensures
            r.wf(),
            r.algorithm() == self.algorithm(),
            r.per_file() == self.per_file(),
            r.file_open(),
            r.files() == self.files(),
            r.cur() == Seq::<u8>::empty(),
            r.report() == self.report(),
    {
        let HashSession { alg, emit_per_file, aggregate, current: _, entries, open_file: _, files, cur: _ } =
            self;
        let current: Option<DigestState> = if emit_per_file {
            Some(DigestState::create(alg))
        } else {
            None
        };
        HashSession {
            alg,
            emit_per_file,
            aggregate,
            current,
            entries,
            open_file: true,
            files,
            cur: Ghost(Seq::empty()),
        }
    }

    /// Feed the next chunk of the open file's bytes.
    pub fn update(self, chunk: &[u8]) -> (r: HashSession)
        requires
            self.wf(),
            self.file_open(),
        ensures
            r.wf(),
            r.algorithm() == self.algorithm(),
            r.per_file() == self.per_file(),
            r.file_open(),
            r.files() == self.files(),
            r.cur() == self.cur() + chunk@,
            r.report() == self.report(),
    {
        let HashSession { alg, emit_per_file, aggregate, current, entries, open_file, files, cur } =
            self;
        let aggregate = aggregate.update(chunk);
        let current: Option<DigestState> = match current {
            Some(st) => Some(st.update(chunk)),
            None => None,
        };
        let r = HashSession {
            alg,
            emit_per_file,
            aggregate,
            current,
            entries,
            open_file,
            files,
            cur: Ghost(cur@ + chunk@),
        };
        proof {
            assert(r.aggregate.absorbed() =~= contents_of(r.files@).flatten() + r.cur@);
        }
        r
    }

    /// Close the open file under `path`; when per-file digests are
    /// collected, its digest is appended to the report.
    pub fn end_file(self, path: &str) -> (r: HashSession)
        requires
            self.wf(),
            self.file_open(),
        ensures
            r.wf(),
            r.algorithm() == self.algorithm(),
            r.per_file() == self.per_file(),
            !r.file_open(),
            r.files() == self.files().push((path@, self.cur())),
            r.report() == if self.per_file() {
                self.report().push(
                    (path@, hex_of(spec_digest(self.algorithm(), self.cur()))),
                )
            } else {
                self.report()
            },
    {
        let HashSession { alg, emit_per_file, aggregate, current, entries, open_file: _, files, cur } =
            self;
        let mut entries = entries;
        match current {
            Some(st) => {
                let raw = st.finalize();
                let digest = byte_to_hex(raw.as_slice());
                entries.push(ReportEntry { path: path.to_owned(), digest });
            },
            None => {},
        }
        let r = HashSession {
            alg,
            emit_per_file,
            aggregate,
            current: None,
            entries,
            open_file: false,
            files: Ghost(files@.push((path@, cur@))),
            cur: Ghost(Seq::empty()),
        };
        proof {
            assert(contents_of(r.files@) =~= contents_of(files@).push(cur@));
            Seq::lemma_flatten_push(contents_of(files@), cur@);
            assert(r.aggregate.absorbed() =~= contents_of(r.files@).flatten() + r.cur@);
            let fmap = |e: ReportEntry| (e.path@, e.digest@);
            if emit_per_file {
                assert(r.entries@.map_values(fmap) =~= self.entries@.map_values(fmap).push(
                    (path@, hex_of(spec_digest(alg, cur@))),
                ));
                assert(Self::spec_report_of(alg, r.files@) =~= Self::spec_report_of(
                    alg,
                    files@,
                ).push((path@, hex_of(spec_digest(alg, cur@)))));
            } else {
                assert(r.report() =~= self.report());
            }
        }
        r
    }

    /// Consume the session: the aggregate hex digest over the
    /// concatenation of all files' bytes in fed order, and the per-file
    /// report.
    pub fn finish(self) -> (r: (String, Vec<ReportEntry>))
        requires
            self.wf(),
            !self.file_open(),
        ensures
            r.0@ == spec_aggregate_hex(self.algorithm(), self.files()),
            r.0@.len() == self.algorithm().spec_hex_len(),
            r.1@.map_values(|e: ReportEntry| (e.path@, e.digest@)) == self.report(),
    {
        let HashSession { alg: _, emit_per_file: _, aggregate, current: _, entries, open_file: _, files: _, cur: _ } =
            self;
        let raw = aggregate.finalize();
        let hexd = byte_to_hex(raw.as_slice());
        proof {
            assert(contents_of(self.files()).flatten() + self.cur@ =~= contents_of(
                self.files(),
            ).flatten());
            crate::hex::lemma_hex_of_len(raw@);
        }
        (hexd, entries)
    }
}

/// The hex digest of a single in-memory byte sequence under `alg`.
pub fn hash_bytes(alg: Algorithm, data: &[u8]) -> (r: String)
    ensures
        r@ == hex_of(spec_digest(alg, data@)),
        r@.len() == alg.spec_hex_len(),
{
    let st = DigestState::create(alg);
    let st = st.update(data);
    let raw = st.finalize();
    proof {
        assert(Seq::<u8>::empty() + data@ =~= data@);
        crate::hex::lemma_hex_of_len(raw@);
    }
    byte_to_hex(raw.as_slice())
}

/// The hex digest of a byte sequence split into chunks: the result
/// depends only on the concatenation of the chunks, never on how the
/// bytes were divided among them.
pub fn hash_chunks(alg: Algorithm, chunks: &Vec<Vec<u8>>) -> (r: String)
    ensures
        r@ == hex_of(spec_digest(alg, chunks@.map_values(|c: Vec<u8>| c@).flatten())),
{
    let mut st = DigestState::create(alg);
    let mut i: usize = 0;
    proof {
        assert(chunks@.take(0).map_values(|c: Vec<u8>| c@) =~= Seq::<Seq<u8>>::empty());
        assert(st.absorbed() =~= chunks@.take(0).map_values(|c: Vec<u8>| c@).flatten());
    }
    while i < chunks.len()
        invariant
            i <= chunks@.len(),
            st.algorithm() == alg,
            st.absorbed() == chunks@.take(i as int).map_values(|c: Vec<u8>| c@).flatten(),
        decreases chunks@.len() - i,
    {
        st = st.update(chunks[i].as_slice());
        proof {
            let pre = chunks@.take(i as int).map_values(|c: Vec<u8>| c@);
            let post = chunks@.take(i + 1 as int).map_values(|c: Vec<u8>| c@);
            assert(post =~= pre.push(chunks@[i as int]@));
            Seq::lemma_flatten_push(pre, chunks@[i as int]@);
            assert(st.absorbed() =~= post.flatten());
        }
        i += 1;
    }
    proof {
        assert(chunks@.take(chunks@.len() as int) =~= chunks@);
    }
    let raw = st.finalize();
    byte_to_hex(raw.as_slice())
}

/// Chunking does not matter: two chunk sequences with the same
/// concatenated bytes have the same digest under every algorithm.
pub proof fn lemma_chunking_irrelevant(alg: Algorithm, c1: Seq<Seq<u8>>, c2: Seq<Seq<u8>>)
    requires
        c1.flatten() == c2.flatten(),
    ensures
        hex_of(spec_digest(alg, c1.flatten())) == hex_of(spec_digest(alg, c2.flatten())),
{
}

/// Exact, case-sensitive equality of a computed and a supplied digest.
pub fn digests_equal(computed: &str, supplied: &str) -> (r: bool)
    ensures
        r == (computed@ == supplied@),
{
    crate::algorithm::str_eq(computed, supplied)
}

} // verus!
