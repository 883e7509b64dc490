//! Clipboard identifiers and the chunk envelope shared by clipboard and file
//! transfer.
//!
//! A stream is `Start`, then any number of `Data`, then `End`.
use vstd::prelude::*;

verus! {

/// Recommended chunk size for streamed data.
pub const CHUNK_SIZE: usize = 32 * 1024;

/// Which clipboard a message refers to. Most platforms only have `Clipboard`;
/// X11 also has the middle-click `Primary` selection.
#[derive(Debug, Clone, Copy, PartialEq, Eq, Hash, Structural)]
pub enum ClipboardId {
    Clipboard,
    Primary,
}

/// One frame of a streamed transfer (clipboard contents or a file body).
///
/// A well-formed stream is exactly one `Start`, then zero or more `Data`, then
/// one `End`. `total` in `Start` is the full byte length when known (0 if not).
#[derive(Debug, Clone, PartialEq, Eq)]
pub enum Chunk {
    Start { total: u64 },
    Data(Vec<u8>),
    End,
}

/// A chunk as a mathematical value.
pub enum ChunkModel {
    Start { total: u64 },
    Data(Seq<u8>),
    End,
}

impl View for Chunk {
    type V = ChunkModel;

    open spec fn view(&self) -> ChunkModel {
        match self {
            Chunk::Start { total } => ChunkModel::Start { total: *total },
            Chunk::Data(d) => ChunkModel::Data(d@),
            Chunk::End => ChunkModel::End,
        }
    }
}

/// The pieces `bytes` is cut into: consecutive runs of `CHUNK_SIZE` bytes,
/// the last one possibly shorter, none empty.
pub open spec fn pieces(bytes: Seq<u8>) -> Seq<Seq<u8>>
    decreases bytes.len(),
{
    if bytes.len() == 0 {
        Seq::empty()
    } else if bytes.len() <= CHUNK_SIZE {
        seq![bytes]
    } else {
        seq![bytes.take(CHUNK_SIZE as int)] + pieces(bytes.skip(CHUNK_SIZE as int))
    }
}

/// The chunk stream for `bytes`: a `Start` carrying the length, one `Data` per
/// piece, and an `End`.
pub open spec fn stream_of(bytes: Seq<u8>) -> Seq<ChunkModel> {
    seq![ChunkModel::Start { total: bytes.len() as u64 }] + pieces(bytes).map_values(
        |p: Seq<u8>| ChunkModel::Data(p),
    ) + seq![ChunkModel::End]
}

/// Pieces laid end to end.
pub open spec fn joined(ps: Seq<Seq<u8>>) -> Seq<u8>
    decreases ps.len(),
{
    if ps.len() == 0 {
        Seq::empty()
    } else {
        ps[0] + joined(ps.drop_first())
    }
}

/// The pieces of `bytes`, put back together, are `bytes`; each piece holds
/// between one and `CHUNK_SIZE` bytes.
pub proof fn lemma_pieces_rejoin(bytes: Seq<u8>)
    ensures
        joined(pieces(bytes)) == bytes,
        forall|i: int|
            0 <= i < pieces(bytes).len() ==> 1 <= #[trigger] pieces(bytes)[i].len() <= CHUNK_SIZE,
    decreases bytes.len(),
{
    if bytes.len() == 0 {
    } else if bytes.len() <= CHUNK_SIZE {
        assert(pieces(bytes) =~= seq![bytes]);
        assert(pieces(bytes).drop_first() =~= Seq::<Seq<u8>>::empty());
        assert(joined(Seq::<Seq<u8>>::empty()) =~= Seq::<u8>::empty());
        assert(bytes + Seq::<u8>::empty() =~= bytes);
    } else {
        let head = bytes.take(CHUNK_SIZE as int);
        let rest = bytes.skip(CHUNK_SIZE as int);
        lemma_pieces_rejoin(rest);
        assert(pieces(bytes) =~= seq![head] + pieces(rest));
        assert(pieces(bytes)[0] == head);
        assert(pieces(bytes).drop_first() =~= pieces(rest));
        assert(head + rest =~= bytes);
        assert forall|i: int| 0 <= i < pieces(bytes).len() implies 1 <= #[trigger] pieces(
            bytes,
        )[i].len() <= CHUNK_SIZE by {
            if i > 0 {
                assert(pieces(bytes)[i] == pieces(rest)[i - 1]);
            }
        }
    }
}

impl Chunk {
    /// Split `bytes` into a `Start`, a run of `Data` chunks of at most
    /// [`CHUNK_SIZE`], and an `End`.
    pub fn stream(bytes: &[u8]) -> (chunks: Vec<Chunk>)
        ensures
            chunks@.map_values(|c: Chunk| c@) == stream_of(bytes@),
    {
        let mut chunks: Vec<Chunk> = Vec::new();
        chunks.push(Chunk::Start { total: bytes.len() as u64 });
        let mut pos: usize = 0;
        let ghost mut k: int = 0;
        proof {
            assert(bytes@.skip(0) =~= bytes@);
            assert(pieces(bytes@).take(0) + pieces(bytes@) =~= pieces(bytes@));
            assert(chunks@.map_values(|c: Chunk| c@) =~= seq![ChunkModel::Start { total: bytes@.len() as u64 }]
                + pieces(bytes@).take(0).map_values(|p: Seq<u8>| ChunkModel::Data(p)));
        }
        while pos < bytes.len()
            invariant
                pos <= bytes.len(),
                0 <= k <= pieces(bytes@).len(),
                chunks@.map_values(|c: Chunk| c@) == seq![ChunkModel::Start { total: bytes@.len() as u64 }]
                    + pieces(bytes@).take(k).map_values(|p: Seq<u8>| ChunkModel::Data(p)),
                pieces(bytes@) == pieces(bytes@).take(k) + pieces(bytes@.skip(pos as int)),
            decreases bytes.len() - pos,
        {
            let end = if bytes.len() - pos <= CHUNK_SIZE {
                bytes.len()
            } else {
                pos + CHUNK_SIZE
            };
            let piece = vstd::slice::slice_to_vec(vstd::slice::slice_subrange(bytes, pos, end));
            let ghost old_chunks = chunks@;
            chunks.push(Chunk::Data(piece));
            proof {
                let rest = bytes@.skip(pos as int);
                let next = bytes@.skip(end as int);
                let all = pieces(bytes@);
                let done = all.take(k);
                if rest.len() <= CHUNK_SIZE {
                    assert(rest =~= piece@);
                    assert(next.len() == 0);
                    assert(pieces(rest) =~= seq![piece@]);
                } else {
                    assert(rest.take(CHUNK_SIZE as int) =~= piece@);
                    assert(rest.skip(CHUNK_SIZE as int) =~= next);
                    assert(pieces(rest) =~= seq![piece@] + pieces(next));
                }
                assert(pieces(rest) =~= seq![piece@] + pieces(next));
                assert(all[k] == piece@) by {
                    assert((done + pieces(rest))[k] == pieces(rest)[0]);
                }
                let done2 = all.take(k + 1);
                assert(done2 =~= done.push(piece@));
                assert(all =~= done2 + pieces(next)) by {
                    assert(all =~= done + (seq![piece@] + pieces(next)));
                }
                assert(chunks@.map_values(|c: Chunk| c@) =~= old_chunks.map_values(|c: Chunk| c@).push(
                    ChunkModel::Data(piece@),
                ));
                assert(done2.map_values(|p: Seq<u8>| ChunkModel::Data(p)) =~= done.map_values(
                    |p: Seq<u8>| ChunkModel::Data(p),
                ).push(ChunkModel::Data(piece@)));
            }
            pos = end;
            proof {
                k = k + 1;
            }
        }
        let ghost before_end = chunks@;
        chunks.push(Chunk::End);
        proof {
            assert(bytes@.skip(pos as int).len() == 0);
            assert(pieces(bytes@.skip(pos as int)) =~= Seq::<Seq<u8>>::empty());
            assert(pieces(bytes@).take(k) =~= pieces(bytes@));
            assert(chunks@.map_values(|c: Chunk| c@) =~= before_end.map_values(|c: Chunk| c@).push(
                ChunkModel::End,
            ));
            assert(chunks@.map_values(|c: Chunk| c@) =~= stream_of(bytes@));
        }
        chunks
    }
}

/// The chunk stream violated the `Start Data* End` grammar.
#[derive(Debug, Clone, Copy, PartialEq, Eq, Structural)]
pub enum ChunkError {
    NotStarted,
    DoubleStart,
    AfterEnd,
    LengthMismatch { expected: u64, actual: u64 },
}

/// The state of a [`ChunkAssembler`]: whether `Start` and `End` have been
/// seen, the declared total, and the bytes gathered so far.
pub struct AssemblerModel {
    pub started: bool,
    pub finished: bool,
    pub expected: u64,
    pub buf: Seq<u8>,
}

/// What one chunk does to an assembler: the next state and the reply.
pub open spec fn assemble_step(m: AssemblerModel, c: ChunkModel) -> (
    AssemblerModel,
    Result<Option<Seq<u8>>, ChunkError>,
) {
    if m.finished {
        (m, Err(ChunkError::AfterEnd))
    } else {
        match c {
            ChunkModel::Start { total } => {
                if m.started {
                    (m, Err(ChunkError::DoubleStart))
                } else {
                    (AssemblerModel { started: true, expected: total, ..m }, Ok(None))
                }
            },
            ChunkModel::Data(d) => {
                if !m.started {
                    (m, Err(ChunkError::NotStarted))
                } else {
                    (AssemblerModel { buf: m.buf + d, ..m }, Ok(None))
                }
            },
            ChunkModel::End => {
                if !m.started {
                    (m, Err(ChunkError::NotStarted))
                } else if m.expected != 0 && m.expected != m.buf.len() {
                    (
                        m,
                        Err(
                            ChunkError::LengthMismatch {
                                expected: m.expected,
                                actual: m.buf.len() as u64,
                            },
                        ),
                    )
                } else {
                    (
                        AssemblerModel { finished: true, buf: Seq::empty(), ..m },
                        Ok(Some(m.buf)),
                    )
                }
            },
        }
    }
}

/// A chunk the assembler rejects changes nothing: the assembler is left
/// exactly as it was. A chunk it accepts before the end keeps every byte
/// gathered so far, adding a data chunk's bytes after them; and a completed
/// transfer hands back exactly the bytes gathered.
pub proof fn lemma_rejected_chunk_changes_nothing(m: AssemblerModel, c: ChunkModel)
    ensures
        assemble_step(m, c).1 is Err ==> assemble_step(m, c).0 == m,
        assemble_step(m, c).1 == Ok::<Option<Seq<u8>>, ChunkError>(None) ==> (
        assemble_step(m, c).0.buf == m.buf + match c {
            ChunkModel::Data(d) => d,
            _ => Seq::<u8>::empty(),
        }),
        assemble_step(m, c).1 matches Ok(Some(out)) ==> out == m.buf && c is End
            && assemble_step(m, c).0.finished,
        m.finished ==> assemble_step(m, c) == (m, Err::<Option<Seq<u8>>, ChunkError>(ChunkError::AfterEnd)),
        !m.started && !m.finished && !(c is Start) ==> assemble_step(m, c) == (m, Err::<Option<Seq<u8>>, ChunkError>(ChunkError::NotStarted)),
{
    assert(m.buf + Seq::<u8>::empty() =~= m.buf);
}

/// The state after feeding `cs` in order, and the reply to the last chunk.
pub open spec fn assemble_all(m: AssemblerModel, cs: Seq<ChunkModel>) -> (
    AssemblerModel,
    Seq<Result<Option<Seq<u8>>, ChunkError>>,
)
    decreases cs.len(),
{
    if cs.len() == 0 {
        (m, Seq::empty())
    } else {
        let (m1, r) = assemble_step(m, cs[0]);
        let (m2, rs) = assemble_all(m1, cs.drop_first());
        (m2, seq![r] + rs)
    }
}

/// The state of a fresh assembler.
pub open spec fn fresh_assembler() -> AssemblerModel {
    AssemblerModel { started: false, finished: false, expected: 0, buf: Seq::empty() }
}

/// Reassembles a [`Chunk`] stream back into a contiguous buffer, enforcing the
/// `Start Data* End` grammar.
#[derive(Debug)]
pub struct ChunkAssembler {
    started: bool,
    finished: bool,
    expected: u64,
    buf: Vec<u8>,
}

impl View for ChunkAssembler {
    type V = AssemblerModel;

    closed spec fn view(&self) -> AssemblerModel {
        AssemblerModel {
            started: self.started,
            finished: self.finished,
            expected: self.expected,
            buf: self.buf@,
        }
    }
}

/// A reply as a mathematical value.
pub open spec fn reply_view(r: Result<Option<Vec<u8>>, ChunkError>) -> Result<
    Option<Seq<u8>>,
    ChunkError,
> {
    match r {
        Ok(Some(v)) => Ok(Some(v@)),
        Ok(None) => Ok(None),
        Err(e) => Err(e),
    }
}

impl Default for ChunkAssembler {
    fn default() -> (a: ChunkAssembler)
        ensures
            a@ == fresh_assembler(),
    {
        ChunkAssembler { started: false, finished: false, expected: 0, buf: Vec::new() }
    }
}

impl ChunkAssembler {
    pub fn new() -> (a: ChunkAssembler)
        ensures
            a@ == fresh_assembler(),
    {
        ChunkAssembler { started: false, finished: false, expected: 0, buf: Vec::new() }
    }

    /// Feed one chunk. Returns `Ok(Some(bytes))` when `End` completes the
    /// stream, `Ok(None)` while more is expected.
    pub fn push(&mut self, chunk: Chunk) -> (r: Result<Option<Vec<u8>>, ChunkError>)
        ensures
            (final(self)@, reply_view(r)) == assemble_step(old(self)@, chunk@),
    {
        if self.finished {
            return Err(ChunkError::AfterEnd);
        }
        match chunk {
            Chunk::Start { total } => {
                if self.started {
                    return Err(ChunkError::DoubleStart);
                }
                self.started = true;
                self.expected = total;
                if total > 0 {
                    // Only a capacity hint: a refusal leaves the buffer as it is.
                    let _ = self.buf.try_reserve(total as usize);
                }
                Ok(None)
            },
            Chunk::Data(d) => {
                if !self.started {
                    return Err(ChunkError::NotStarted);
                }
                let mut d = d;
                self.buf.append(&mut d);
                Ok(None)
            },
            Chunk::End => {
                if !self.started {
                    return Err(ChunkError::NotStarted);
                }
                if self.expected != 0 && self.expected != self.buf.len() as u64 {
                    return Err(
                        ChunkError::LengthMismatch {
                            expected: self.expected,
                            actual: self.buf.len() as u64,
                        },
                    );
                }
                self.finished = true;
                let mut out: Vec<u8> = Vec::new();
                std::mem::swap(&mut out, &mut self.buf);
                Ok(Some(out))
            },
        }
    }
}

/// Feeding `Data` pieces to a started, unfinished assembler appends them to
/// the buffer and answers each with `Ok(None)`.
proof fn lemma_feed_data(m: AssemblerModel, ps: Seq<Seq<u8>>)
    requires
        m.started,
        !m.finished,
    ensures
        ({
            let (m2, rs) = assemble_all(m, ps.map_values(|p: Seq<u8>| ChunkModel::Data(p)));
            &&& m2 == AssemblerModel { buf: m.buf + joined(ps), ..m }
            &&& rs == Seq::new(ps.len(), |i: int| Ok::<Option<Seq<u8>>, ChunkError>(None))
        }),
    decreases ps.len(),
{
    let cs = ps.map_values(|p: Seq<u8>| ChunkModel::Data(p));
    if ps.len() == 0 {
        assert(m.buf + joined(ps) =~= m.buf);
        assert(assemble_all(m, cs).1 =~= Seq::new(ps.len(), |i: int| Ok::<Option<Seq<u8>>, ChunkError>(None)));
    } else {
        let m1 = AssemblerModel { buf: m.buf + ps[0], ..m };
        assert(cs.drop_first() =~= ps.drop_first().map_values(|p: Seq<u8>| ChunkModel::Data(p)));
        lemma_feed_data(m1, ps.drop_first());
        assert(m1.buf + joined(ps.drop_first()) =~= m.buf + joined(ps));
        let (m2, rs) = assemble_all(m1, ps.drop_first().map_values(|p: Seq<u8>| ChunkModel::Data(p)));
        assert(seq![Ok::<Option<Seq<u8>>, ChunkError>(None)] + rs =~= Seq::new(
            ps.len(),
            |i: int| Ok::<Option<Seq<u8>>, ChunkError>(None),
        ));
    }
}

/// Streaming bytes and feeding every chunk to a fresh assembler gives the
/// bytes back: each chunk is accepted, the last one completes the stream with
/// exactly the original bytes, and the ones before it ask for more.
pub proof fn lemma_stream_then_assemble(bytes: Seq<u8>)
    requires
        bytes.len() <= u64::MAX,
    ensures
        ({
            let cs = stream_of(bytes);
            let (m, rs) = assemble_all(fresh_assembler(), cs);
            &&& rs.len() == cs.len()
            &&& rs.last() == Ok::<Option<Seq<u8>>, ChunkError>(Some(bytes))
            &&& forall|i: int| 0 <= i < rs.len() - 1 ==> rs[i] == Ok::<Option<Seq<u8>>, ChunkError>(None)
            &&& m.finished
        }),
{
    let ps = pieces(bytes);
    let datas = ps.map_values(|p: Seq<u8>| ChunkModel::Data(p));
    let cs = stream_of(bytes);
    let start = AssemblerModel {
        started: true,
        finished: false,
        expected: bytes.len() as u64,
        buf: Seq::empty(),
    };
    lemma_pieces_rejoin(bytes);
    lemma_feed_data(start, ps);
    assert(Seq::<u8>::empty() + joined(ps) =~= bytes);
    lemma_assemble_all_append(start, datas, seq![ChunkModel::End]);
    assert(cs.drop_first() =~= datas + seq![ChunkModel::End]);
    let (m1, rs1) = assemble_all(start, datas);
    assert(m1.buf == bytes);
    assert(m1.started && !m1.finished && m1.expected == bytes.len());
    assert(assemble_step(m1, ChunkModel::End).1 == Ok::<Option<Seq<u8>>, ChunkError>(Some(bytes)));
    assert(seq![ChunkModel::End][0] == ChunkModel::End);
    assert(assemble_all(assemble_step(m1, ChunkModel::End).0, Seq::<ChunkModel>::empty()).1
        =~= Seq::<Result<Option<Seq<u8>>, ChunkError>>::empty());
    let (m2, rs2) = assemble_all(m1, seq![ChunkModel::End]);
    assert(seq![ChunkModel::End].drop_first() =~= Seq::<ChunkModel>::empty());
    assert(rs2 =~= seq![Ok::<Option<Seq<u8>>, ChunkError>(Some(bytes))]);
    let rs = assemble_all(fresh_assembler(), cs).1;
    assert(rs =~= seq![Ok::<Option<Seq<u8>>, ChunkError>(None)] + (rs1 + rs2));
}

/// The chunks `Start { total }`, one `Data` per piece, then `End`.
pub open spec fn transfer_of(total: u64, ds: Seq<Seq<u8>>) -> Seq<ChunkModel> {
    seq![ChunkModel::Start { total }] + ds.map_values(|p: Seq<u8>| ChunkModel::Data(p)) + seq![
        ChunkModel::End,
    ]
}

/// A well-formed transfer fed to a fresh assembler: every chunk before `End`
/// is accepted with `Ok(None)`, and `End` gives the data chunks' bytes laid
/// end to end when the declared total is 0 (unknown) or matches their
/// length, and `LengthMismatch` with the declared and the received length
/// otherwise.
pub proof fn lemma_assemble_transfer(total: u64, ds: Seq<Seq<u8>>)
    requires
        joined(ds).len() <= u64::MAX,
    ensures
        ({
            let cs = transfer_of(total, ds);
            let rs = assemble_all(fresh_assembler(), cs).1;
            &&& rs.len() == cs.len()
            &&& forall|i: int| 0 <= i < rs.len() - 1 ==> rs[i] == Ok::<Option<Seq<u8>>, ChunkError>(None)
            &&& rs.last() == if total == 0 || total == joined(ds).len() {
                Ok::<Option<Seq<u8>>, ChunkError>(Some(joined(ds)))
            } else {
                Err::<Option<Seq<u8>>, ChunkError>(
                    ChunkError::LengthMismatch {
                        expected: total,
                        actual: joined(ds).len() as u64,
                    },
                )
            }
        }),
{
    let datas = ds.map_values(|p: Seq<u8>| ChunkModel::Data(p));
    let cs = transfer_of(total, ds);
    let bytes = joined(ds);
    let start = AssemblerModel { started: true, finished: false, expected: total, buf: Seq::empty() };
    lemma_feed_data(start, ds);
    assert(Seq::<u8>::empty() + joined(ds) =~= bytes);
    lemma_assemble_all_append(start, datas, seq![ChunkModel::End]);
    assert(cs.drop_first() =~= datas + seq![ChunkModel::End]);
    let (m1, rs1) = assemble_all(start, datas);
    assert(m1.buf == bytes);
    let last = if total == 0 || total == bytes.len() {
        Ok::<Option<Seq<u8>>, ChunkError>(Some(bytes))
    } else {
        Err::<Option<Seq<u8>>, ChunkError>(
            ChunkError::LengthMismatch { expected: total, actual: bytes.len() as u64 },
        )
    };
    assert(assemble_step(m1, ChunkModel::End).1 == last);
    assert(seq![ChunkModel::End][0] == ChunkModel::End);
    assert(seq![ChunkModel::End].drop_first() =~= Seq::<ChunkModel>::empty());
    assert(assemble_all(assemble_step(m1, ChunkModel::End).0, Seq::<ChunkModel>::empty()).1
        =~= Seq::<Result<Option<Seq<u8>>, ChunkError>>::empty());
    let (m2, rs2) = assemble_all(m1, seq![ChunkModel::End]);
    assert(rs2 =~= seq![last]);
    let rs = assemble_all(fresh_assembler(), cs).1;
    assert(rs =~= seq![Ok::<Option<Seq<u8>>, ChunkError>(None)] + (rs1 + rs2));
}

/// Feeding two runs of chunks is feeding the first, then the second.
proof fn lemma_assemble_all_append(m: AssemblerModel, a: Seq<ChunkModel>, b: Seq<ChunkModel>)
    ensures
        ({
            let (ma, ra) = assemble_all(m, a);
            let (mb, rb) = assemble_all(ma, b);
            assemble_all(m, a + b) == (mb, ra + rb)
        }),
    decreases a.len(),
{
    if a.len() == 0 {
        assert(a + b =~= b);
        assert(Seq::<Result<Option<Seq<u8>>, ChunkError>>::empty() + assemble_all(m, b).1 =~= assemble_all(m, b).1);
    } else {
        let (m1, r) = assemble_step(m, a[0]);
        lemma_assemble_all_append(m1, a.drop_first(), b);
        assert((a + b).drop_first() =~= a.drop_first() + b);
        let (ma, ra) = assemble_all(m1, a.drop_first());
        let (mb, rb) = assemble_all(ma, b);
        assert(seq![r] + (ra + rb) =~= (seq![r] + ra) + rb);
    }
}

} // verus!
