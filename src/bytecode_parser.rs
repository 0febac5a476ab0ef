use vstd::prelude::*;
use crate::code::{Chunk, ChunkModel, Code, Constant, ConstantModel};
use crate::errors::{Field, MachineError};
use crate::reader::{i32_from_be, u16_from_be, BytecodeReader};
use vstd::utf8::{decode_utf8, valid_utf8};

verus! {

/// Relies on `String::from_utf8`: it succeeds exactly on valid UTF-8 and then
/// holds the decoded text.
#[verifier::external_body]
fn string_from_utf8(bytes: Vec<u8>) -> (r: Option<String>)
    ensures
        r is Some <==> valid_utf8(bytes@),
        r matches Some(s) ==> s@ == decode_utf8(bytes@),
{
    String::from_utf8(bytes).ok()
}

/// The payload of an integer constant at `q`: four big-endian bytes.
pub open spec fn int_payload_at(b: Seq<u8>, q: int) -> Result<(ConstantModel, int), MachineError> {
    if b.len() - q < 4 {
        Err(MachineError::UnexpectedEndOfInput { field: Field::IntConstant, position: q as usize })
    } else {
        Ok((ConstantModel::Int(i32_from_be(b[q], b[q + 1], b[q + 2], b[q + 3]) as i32), q + 4))
    }
}

/// The payload of a string constant at `q`: a 16-bit big-endian length, then
/// that many bytes of UTF-8.
pub open spec fn string_payload_at(b: Seq<u8>, q: int) -> Result<(ConstantModel, int), MachineError> {
    if b.len() - q < 2 {
        Err(MachineError::UnexpectedEndOfInput { field: Field::StringLength, position: q as usize })
    } else {
        let n = u16_from_be(b[q], b[q + 1]);
        let s = q + 2;
        if b.len() - s < n {
            Err(MachineError::UnexpectedEndOfInput { field: Field::StringContent, position: s as usize })
        } else if valid_utf8(b.subrange(s, s + n)) {
            Ok((ConstantModel::Str(decode_utf8(b.subrange(s, s + n))), s + n))
        } else {
            Err(MachineError::InvalidEncoding { position: s as usize })
        }
    }
}

/// The payload of a function constant at `q`: the id of the chunk holding its body.
pub open spec fn function_payload_at(b: Seq<u8>, q: int) -> Result<(ConstantModel, int), MachineError> {
    if q >= b.len() {
        Err(MachineError::UnexpectedEndOfInput { field: Field::FunctionChunkId, position: q as usize })
    } else {
        Ok((ConstantModel::Function { chunk_id: b[q] as usize }, q + 1))
    }
}

/// The constant encoded at `p`: a type tag, then the payload that the tag
/// calls for; and the offset just past it.
pub open spec fn constant_at(b: Seq<u8>, p: int) -> Result<(ConstantModel, int), MachineError> {
    if p >= b.len() {
        Err(MachineError::UnexpectedEndOfInput { field: Field::ConstantType, position: p as usize })
    } else {
        let tag = b[p];
        if tag == 0 {
            int_payload_at(b, p + 1)
        } else if tag == 1 {
            string_payload_at(b, p + 1)
        } else if tag == 2 {
            function_payload_at(b, p + 1)
        } else {
            Err(MachineError::UnsupportedConstantType { tag, position: (p + 1) as usize })
        }
    }
}

/// Where the reader of `b` stands after parsing failed with `e`. A read that
/// runs out of input leaves the reader at the offset the error names; an
/// unknown tag is consumed, and nothing after it; text that is not UTF-8 is
/// consumed whole.
pub open spec fn stop_after(b: Seq<u8>, e: MachineError) -> int {
    match e {
        MachineError::UnexpectedEndOfInput { position, .. } => position as int,
        MachineError::UnsupportedConstantType { position, .. } => position as int,
        MachineError::InvalidEncoding { position } => position + u16_from_be(b[position - 2], b[position - 1]),
        _ => 0,
    }
}

/// The `k` constants encoded one after another from `p`, and the offset past them.
pub open spec fn constants_from(b: Seq<u8>, p: int, k: nat) -> Result<(Seq<ConstantModel>, int), MachineError>
    decreases k,
{
    if k == 0 {
        Ok((seq![], p))
    } else {
        match constants_from(b, p, (k - 1) as nat) {
            Err(e) => Err(e),
            Ok((cs, q)) => match constant_at(b, q) {
                Err(e) => Err(e),
                Ok((c, r)) => Ok((cs.push(c), r)),
            },
        }
    }
}

/// The chunk encoded at `p`: a constant count, the constants, a 16-bit code
/// length and the code bytes; and the offset just past it.
pub open spec fn chunk_at(b: Seq<u8>, p: int) -> Result<(ChunkModel, int), MachineError> {
    if p >= b.len() {
        Err(MachineError::UnexpectedEndOfInput { field: Field::ChunkConstantCount, position: p as usize })
    } else {
        match constants_from(b, p + 1, b[p] as nat) {
            Err(e) => Err(e),
            Ok((cs, q)) => if b.len() - q < 2 {
                Err(MachineError::UnexpectedEndOfInput { field: Field::InstructionByteCount, position: q as usize })
            } else {
                let m = u16_from_be(b[q], b[q + 1]);
                let s = q + 2;
                if b.len() - s < m {
                    Err(MachineError::UnexpectedEndOfInput { field: Field::ChunkCode, position: s as usize })
                } else {
                    Ok((ChunkModel { constants: cs, code: b.subrange(s, s + m) }, s + m))
                }
            },
        }
    }
}

/// The chunks encoded from `p` to the end of `b`.
pub open spec fn chunks_from(b: Seq<u8>, p: int) -> Result<Seq<ChunkModel>, MachineError>
    decreases b.len() - p via chunks_from_decreases
{
    if p >= b.len() {
        Ok(seq![])
    } else {
        match chunk_at(b, p) {
            Err(e) => Err(e),
            Ok((c, q)) => match chunks_from(b, q) {
                Err(e) => Err(e),
                Ok(cs) => Ok(seq![c] + cs),
            },
        }
    }
}

pub proof fn lemma_constant_at_advances(b: Seq<u8>, p: int)
    ensures
        constant_at(b, p) matches Ok((c, q)) ==> p < q <= b.len(),
{
}

pub proof fn lemma_constants_from_advances(b: Seq<u8>, p: int, k: nat)
    requires
        p <= b.len(),
    ensures
        constants_from(b, p, k) matches Ok((cs, q)) ==> p <= q <= b.len() && cs.len() == k,
    decreases k,
{
    if k > 0 {
        lemma_constants_from_advances(b, p, (k - 1) as nat);
        if let Ok((cs, q)) = constants_from(b, p, (k - 1) as nat) {
            lemma_constant_at_advances(b, q);
        }
    }
}

pub proof fn lemma_chunk_at_advances(b: Seq<u8>, p: int)
    ensures
        chunk_at(b, p) matches Ok((c, q)) ==> p + 3 <= q <= b.len(),
{
    if p < b.len() {
        lemma_constants_from_advances(b, p + 1, b[p] as nat);
    }
}

#[via_fn]
proof fn chunks_from_decreases(b: Seq<u8>, p: int) {
    lemma_chunk_at_advances(b, p);
}

/// The chunks parsed before the rest, followed by what the rest parses to.
pub open spec fn after_chunks(
    pre: Seq<ChunkModel>,
    rest: Result<Seq<ChunkModel>, MachineError>,
) -> Result<Seq<ChunkModel>, MachineError> {
    match rest {
        Ok(cs) => Ok(pre + cs),
        Err(e) => Err(e),
    }
}

/// Parses a whole program: chunk after chunk until the input is exhausted.
pub struct BytecodeParser;

/// Parses one chunk; `chunk_id` is the index the chunk will have in its code.
pub struct ChunkParser {
    pub chunk_id: usize,
}

impl BytecodeParser {
    pub fn new() -> BytecodeParser {
        BytecodeParser
    }

    /// Parses every chunk from the reader's position to the end of its input.
    /// On success the reader is exhausted; the first malformed chunk gives its error.
    pub fn parse(&mut self, reader: &mut BytecodeReader) -> (r: Result<Code, MachineError>)
        requires
            old(reader).wf(),
        ensures
            final(reader).wf(),
            final(reader).bytes() == old(reader).bytes(),
            r matches Ok(code) ==> chunks_from(old(reader).bytes(), old(reader).pos()) == Ok::<Seq<ChunkModel>, MachineError>(code@)
                && final(reader).pos() == final(reader).bytes().len(),
            r matches Err(e) ==> chunks_from(old(reader).bytes(), old(reader).pos()) == Err::<Seq<ChunkModel>, MachineError>(e)
                && final(reader).pos() == stop_after(old(reader).bytes(), e),
    {
        let ghost b = reader.bytes();
        let ghost p0 = reader.pos();
        let mut chunks: Vec<Chunk> = Vec::new();
        while !reader.is_finished()
            invariant
                reader.wf(),
                reader.bytes() == b,
                b == old(reader).bytes(),
                p0 == old(reader).pos(),
                chunks_from(b, p0) == after_chunks(chunks@.map_values(|c: Chunk| c@), chunks_from(b, reader.pos())),
            decreases b.len() - reader.pos(),
        {
            let ghost p = reader.pos();
            let mut chunk_parser = ChunkParser::new(chunks.len());
            let chunk = chunk_parser.parse(reader)?;
            proof {
                lemma_chunk_at_advances(b, p);
            }
            let ghost pre = chunks@.map_values(|c: Chunk| c@);
            chunks.push(chunk);
            proof {
                assert(chunks@.map_values(|c: Chunk| c@) =~= pre.push(chunk@));
                if let Ok(cs) = chunks_from(b, reader.pos()) {
                    assert(pre + (seq![chunk@] + cs) =~= pre.push(chunk@) + cs);
                }
            }
        }
        proof {
            assert(chunks@.map_values(|c: Chunk| c@) + seq![] =~= chunks@.map_values(|c: Chunk| c@));
        }
        Ok(Code { chunks })
    }
}

impl ChunkParser {
    pub fn new(chunk_id: usize) -> (r: ChunkParser)
        ensures
            r.chunk_id == chunk_id,
    {
        ChunkParser { chunk_id }
    }

    /// Parses the chunk at the reader's position and leaves the reader just past it.
    pub fn parse(&mut self, reader: &mut BytecodeReader) -> (r: Result<Chunk, MachineError>)
        requires
            old(reader).wf(),
        ensures
            final(reader).wf(),
            final(reader).bytes() == old(reader).bytes(),
            r matches Ok(c) ==> chunk_at(old(reader).bytes(), old(reader).pos()) == Ok::<(ChunkModel, int), MachineError>((c@, final(reader).pos())),
            r matches Err(e) ==> chunk_at(old(reader).bytes(), old(reader).pos()) == Err::<(ChunkModel, int), MachineError>(e)
                && final(reader).pos() == stop_after(old(reader).bytes(), e),
    {
        let constants = self.parse_constants(reader)?;
        let n_instruction_bytes = reader.read_u16(Field::InstructionByteCount)?;
        let code = reader.read_bytes(n_instruction_bytes as usize, Field::ChunkCode)?;
        Ok(Chunk { constants, code })
    }

    /// Parses the constant count at the reader's position and that many constants.
    fn parse_constants(&mut self, reader: &mut BytecodeReader) -> (r: Result<Vec<Constant>, MachineError>)
        requires
            old(reader).wf(),
        ensures
            final(reader).wf(),
            final(reader).bytes() == old(reader).bytes(),
            old(reader).remaining() < 1 ==> r == Err::<Vec<Constant>, MachineError>(
                MachineError::UnexpectedEndOfInput { field: Field::ChunkConstantCount, position: old(reader).pos() as usize },
            ),
            old(reader).remaining() >= 1 ==> {
                let b = old(reader).bytes();
                let p = old(reader).pos();
                &&& r matches Ok(cs) ==> constants_from(b, p + 1, b[p] as nat) == Ok::<(Seq<ConstantModel>, int), MachineError>(
                    (cs@.map_values(|c: Constant| c@), final(reader).pos()))
                &&& r matches Err(e) ==> constants_from(b, p + 1, b[p] as nat) == Err::<(Seq<ConstantModel>, int), MachineError>(e)
            },
            r matches Err(e) ==> final(reader).pos() == stop_after(old(reader).bytes(), e),
    {
        let ghost b = reader.bytes();
        let n_constants = reader.read_byte(Field::ChunkConstantCount)?;
        let ghost p1 = reader.pos();
        let mut constants: Vec<Constant> = Vec::new();
        let mut i: u8 = 0;
        assert(constants@.map_values(|c: Constant| c@) =~= seq![]);
        while i < n_constants
            invariant
                reader.wf(),
                reader.bytes() == b,
                b == old(reader).bytes(),
                p1 == old(reader).pos() + 1,
                1 <= p1 <= b.len(),
                n_constants == b[p1 - 1],
                i <= n_constants,
                constants_from(b, p1, i as nat) == Ok::<(Seq<ConstantModel>, int), MachineError>(
                    (constants@.map_values(|c: Constant| c@), reader.pos())),
            decreases n_constants - i,
        {
            let ghost before = constants@.map_values(|c: Constant| c@);
            let constant = match self.read_constant(reader) {
                Ok(c) => c,
                Err(e) => {
                    proof {
                        lemma_constants_prefix_error(b, p1, (i + 1) as nat, n_constants as nat);
                    }
                    return Err(e);
                }
            };
            constants.push(constant);
            i = i + 1;
            assert(constants@.map_values(|c: Constant| c@) =~= before.push(constant@));
        }
        Ok(constants)
    }

    /// Reads one constant: its type tag, then the payload that the tag calls for.
    fn read_constant(&mut self, reader: &mut BytecodeReader) -> (r: Result<Constant, MachineError>)
        requires
            old(reader).wf(),
        ensures
            final(reader).wf(),
            final(reader).bytes() == old(reader).bytes(),
            r matches Ok(c) ==> constant_at(old(reader).bytes(), old(reader).pos()) == Ok::<(ConstantModel, int), MachineError>((c@, final(reader).pos())),
            r matches Err(e) ==> constant_at(old(reader).bytes(), old(reader).pos()) == Err::<(ConstantModel, int), MachineError>(e)
                && final(reader).pos() == stop_after(old(reader).bytes(), e),
    {
        let constant_type = reader.read_byte(Field::ConstantType)?;
        match constant_type {
            0 => self.read_int_constant(reader),
            1 => self.read_string_constant(reader),
            2 => self.read_function_constant(reader),
            tag => Err(MachineError::UnsupportedConstantType { tag, position: reader.position() }),
        }
    }

    /// Reads the payload of an integer constant at the reader's position.
    pub fn read_int_constant(&mut self, reader: &mut BytecodeReader) -> (r: Result<Constant, MachineError>)
        requires
            old(reader).wf(),
        ensures
            final(reader).wf(),
            final(reader).bytes() == old(reader).bytes(),
            r matches Ok(c) ==> int_payload_at(old(reader).bytes(), old(reader).pos()) == Ok::<(ConstantModel, int), MachineError>((c@, final(reader).pos())),
            r matches Err(e) ==> int_payload_at(old(reader).bytes(), old(reader).pos()) == Err::<(ConstantModel, int), MachineError>(e)
                && final(reader).pos() == stop_after(old(reader).bytes(), e),
    {
        let integer = reader.read_i32(Field::IntConstant)?;
        Ok(Constant::Int(integer))
    }

    /// Reads the payload of a string constant at the reader's position: a
    /// 16-bit length, then that many UTF-8 bytes.
    pub fn read_string_constant(&mut self, reader: &mut BytecodeReader) -> (r: Result<Constant, MachineError>)
        requires
            old(reader).wf(),
        ensures
            final(reader).wf(),
            final(reader).bytes() == old(reader).bytes(),
            r matches Ok(c) ==> string_payload_at(old(reader).bytes(), old(reader).pos()) == Ok::<(ConstantModel, int), MachineError>((c@, final(reader).pos())),
            r matches Err(e) ==> string_payload_at(old(reader).bytes(), old(reader).pos()) == Err::<(ConstantModel, int), MachineError>(e)
                && final(reader).pos() == stop_after(old(reader).bytes(), e),
    {
        let ghost b = reader.bytes();
        let ghost q = reader.pos();
        let str_size = reader.read_u16(Field::StringLength)?;
        let start = reader.position();
        let bytes = reader.read_bytes(str_size as usize, Field::StringContent)?;
        match string_from_utf8(bytes) {
            Some(string) => Ok(Constant::String(string)),
            None => {
                assert(b[start - 2] == b[q] && b[start - 1] == b[q + 1]);
                Err(MachineError::InvalidEncoding { position: start })
            },
        }
    }

    /// Reads the payload of a function constant at the reader's position: the
    /// id of the chunk holding its body.
    pub fn read_function_constant(&mut self, reader: &mut BytecodeReader) -> (r: Result<Constant, MachineError>)
        requires
            old(reader).wf(),
        ensures
            final(reader).wf(),
            final(reader).bytes() == old(reader).bytes(),
            r matches Ok(c) ==> function_payload_at(old(reader).bytes(), old(reader).pos()) == Ok::<(ConstantModel, int), MachineError>((c@, final(reader).pos())),
            r matches Err(e) ==> function_payload_at(old(reader).bytes(), old(reader).pos()) == Err::<(ConstantModel, int), MachineError>(e)
                && final(reader).pos() == stop_after(old(reader).bytes(), e),
    {
        let chunk_id = reader.read_byte(Field::FunctionChunkId)?;
        Ok(Constant::Function { chunk_id: chunk_id as usize })
    }
}

/// Once the first `i` constants fail to parse, so do the first `k >= i`, with the same error.
proof fn lemma_constants_prefix_error(b: Seq<u8>, p: int, i: nat, k: nat)
    requires
        i <= k,
        constants_from(b, p, i) is Err,
    ensures
        constants_from(b, p, k) == constants_from(b, p, i),
    decreases k - i,
{
    if i < k {
        lemma_constants_prefix_error(b, p, i, (k - 1) as nat);
    }
}

/// A constant as a producer writes it: a string is given by its bytes.
pub enum RawConstant {
    Int(i32),
    Str(Seq<u8>),
    Function(u8),
}

/// A constant that the format can hold: a string fits a 16-bit length and is UTF-8.
pub open spec fn encodable(c: RawConstant) -> bool {
    match c {
        RawConstant::Str(bs) => bs.len() <= 0xffff && valid_utf8(bs),
        _ => true,
    }
}

/// What a parsed constant denotes.
pub open spec fn decoded(c: RawConstant) -> ConstantModel {
    match c {
        RawConstant::Int(v) => ConstantModel::Int(v),
        RawConstant::Str(bs) => ConstantModel::Str(decode_utf8(bs)),
        RawConstant::Function(id) => ConstantModel::Function { chunk_id: id as usize },
    }
}

/// `n` as two big-endian bytes.
pub open spec fn be_u16(n: int) -> Seq<u8> {
    seq![(n / 0x100) as u8, (n % 0x100) as u8]
}

/// `v` as four big-endian bytes in two's complement.
pub open spec fn be_i32(v: i32) -> Seq<u8> {
    let u = if v >= 0 { v as int } else { v as int + 0x1_0000_0000 };
    seq![(u / 0x100_0000) as u8, (u / 0x1_0000 % 0x100) as u8, (u / 0x100 % 0x100) as u8, (u % 0x100) as u8]
}

pub open spec fn encode_constant(c: RawConstant) -> Seq<u8> {
    match c {
        RawConstant::Int(v) => seq![0u8] + be_i32(v),
        RawConstant::Str(bs) => seq![1u8] + be_u16(bs.len() as int) + bs,
        RawConstant::Function(id) => seq![2u8, id],
    }
}

pub open spec fn encode_constants(cs: Seq<RawConstant>) -> Seq<u8>
    decreases cs.len(),
{
    if cs.len() == 0 {
        seq![]
    } else {
        encode_constants(cs.drop_last()) + encode_constant(cs.last())
    }
}

/// A chunk as a producer writes it: the constant count, the constants, the
/// 16-bit code length and the code bytes.
pub open spec fn encode_chunk(cs: Seq<RawConstant>, code: Seq<u8>) -> Seq<u8> {
    seq![cs.len() as u8] + encode_constants(cs) + be_u16(code.len() as int) + code
}

proof fn lemma_be_i32(v: i32)
    ensures
        i32_from_be(be_i32(v)[0], be_i32(v)[1], be_i32(v)[2], be_i32(v)[3]) == v as int,
{
    let u = if v >= 0 { v as int } else { v as int + 0x1_0000_0000 };
    assert(0 <= u < 0x1_0000_0000);
    assert(u == (u / 0x100_0000) * 0x100_0000 + (u / 0x1_0000 % 0x100) * 0x1_0000 + (u / 0x100 % 0x100) * 0x100 + u % 0x100)
        by (nonlinear_arith)
        requires 0 <= u < 0x1_0000_0000;
}

proof fn lemma_constant_round_trip(b: Seq<u8>, p: int, c: RawConstant)
    requires
        0 <= p,
        encodable(c),
        p + encode_constant(c).len() <= b.len(),
        b.subrange(p, p + encode_constant(c).len()) == encode_constant(c),
    ensures
        constant_at(b, p) == Ok::<(ConstantModel, int), MachineError>((decoded(c), p + encode_constant(c).len())),
{
    let e = encode_constant(c);
    assert(b[p] == e[0]);
    match c {
        RawConstant::Int(v) => {
            lemma_be_i32(v);
            assert(b[p + 1] == e[1] && b[p + 2] == e[2] && b[p + 3] == e[3] && b[p + 4] == e[4]);
        },
        RawConstant::Str(bs) => {
            assert(b[p + 1] == e[1] && b[p + 2] == e[2]);
            let n = bs.len() as int;
            assert(u16_from_be(e[1], e[2]) == n);
            assert(b.subrange(p + 3, p + 3 + n) =~= bs) by {
                assert forall|i: int| 0 <= i < n implies b.subrange(p + 3, p + 3 + n)[i] == bs[i] by {
                    assert(b[p + 3 + i] == e[3 + i]);
                }
            }
        },
        RawConstant::Function(id) => {
            assert(b[p + 1] == e[1]);
        },
    }
}

proof fn lemma_constants_round_trip(b: Seq<u8>, p: int, cs: Seq<RawConstant>)
    requires
        0 <= p,
        forall|i: int| 0 <= i < cs.len() ==> encodable(#[trigger] cs[i]),
        p + encode_constants(cs).len() <= b.len(),
        b.subrange(p, p + encode_constants(cs).len()) == encode_constants(cs),
    ensures
        constants_from(b, p, cs.len()) == Ok::<(Seq<ConstantModel>, int), MachineError>(
            (cs.map_values(|c: RawConstant| decoded(c)), p + encode_constants(cs).len())),
    decreases cs.len(),
{
    if cs.len() == 0 {
        assert(cs.map_values(|c: RawConstant| decoded(c)) =~= seq![]);
    } else {
        let init = cs.drop_last();
        let ei = encode_constants(init);
        let el = encode_constant(cs.last());
        let q: int = p + ei.len() as int;
        assert(encode_constants(cs) == ei + el);
        assert(b.subrange(p, q) =~= ei) by {
            assert forall|i: int| 0 <= i < ei.len() implies b.subrange(p, q)[i] == ei[i] by {
                assert(b.subrange(p, p + encode_constants(cs).len())[i] == (ei + el)[i]);
            }
        }
        assert(b.subrange(q, q + el.len()) =~= el) by {
            assert forall|i: int| 0 <= i < el.len() implies b.subrange(q, q + el.len())[i] == el[i] by {
                assert(b.subrange(p, p + encode_constants(cs).len())[ei.len() + i] == (ei + el)[ei.len() + i]);
            }
        }
        assert forall|i: int| 0 <= i < init.len() implies encodable(#[trigger] init[i]) by {
            assert(init[i] == cs[i]);
        }
        lemma_constants_round_trip(b, p, init);
        lemma_constant_round_trip(b, q, cs.last());
        assert(cs.len() - 1 == init.len());
        assert(init.map_values(|c: RawConstant| decoded(c)).push(decoded(cs.last()))
            =~= cs.map_values(|c: RawConstant| decoded(c)));
    }
}

/// What parsing a chunk written from `c` gives back.
pub open spec fn chunk_model(c: (Seq<RawConstant>, Seq<u8>)) -> ChunkModel {
    ChunkModel { constants: c.0.map_values(|k: RawConstant| decoded(k)), code: c.1 }
}

/// A chunk that the format can hold.
pub open spec fn chunk_encodable(c: (Seq<RawConstant>, Seq<u8>)) -> bool {
    &&& c.0.len() <= 0xff
    &&& c.1.len() <= 0xffff
    &&& forall|i: int| 0 <= i < c.0.len() ==> encodable(#[trigger] c.0[i])
}

/// A program as a producer writes it: its chunks one after another.
pub open spec fn encode_code(chunks: Seq<(Seq<RawConstant>, Seq<u8>)>) -> Seq<u8>
    decreases chunks.len(),
{
    if chunks.len() == 0 {
        seq![]
    } else {
        encode_chunk(chunks[0].0, chunks[0].1) + encode_code(chunks.drop_first())
    }
}

/// Parsing a chunk that a producer wrote gives back its constants and its
/// code bytes, whatever precedes and follows the chunk in the input.
pub proof fn lemma_chunk_round_trip(pre: Seq<u8>, cs: Seq<RawConstant>, code: Seq<u8>, rest: Seq<u8>)
    requires
        chunk_encodable((cs, code)),
    ensures
        chunk_at(pre + encode_chunk(cs, code) + rest, pre.len() as int) == Ok::<(ChunkModel, int), MachineError>((
            chunk_model((cs, code)),
            (pre.len() + encode_chunk(cs, code).len()) as int,
        )),
{
    let b = pre + encode_chunk(cs, code) + rest;
    let p = pre.len() as int;
    let ec = encode_constants(cs);
    let q: int = p + 1 + ec.len() as int;
    assert(b.subrange(p + 1, q) =~= ec);
    lemma_constants_round_trip(b, p + 1, cs);
    assert(b[p] == cs.len() as u8);
    assert(b[q] == be_u16(code.len() as int)[0] && b[q + 1] == be_u16(code.len() as int)[1]);
    assert(b.subrange(q + 2, q + 2 + code.len()) =~= code);
}

proof fn lemma_code_round_trip_from(pre: Seq<u8>, chunks: Seq<(Seq<RawConstant>, Seq<u8>)>)
    requires
        forall|i: int| 0 <= i < chunks.len() ==> chunk_encodable(#[trigger] chunks[i]),
    ensures
        chunks_from(pre + encode_code(chunks), pre.len() as int)
            == Ok::<Seq<ChunkModel>, MachineError>(chunks.map_values(|c: (Seq<RawConstant>, Seq<u8>)| chunk_model(c))),
    decreases chunks.len(),
{
    let b = pre + encode_code(chunks);
    if chunks.len() == 0 {
        assert(b =~= pre);
        assert(chunks.map_values(|c: (Seq<RawConstant>, Seq<u8>)| chunk_model(c)) =~= seq![]);
    } else {
        let first = chunks[0];
        let others = chunks.drop_first();
        let e0 = encode_chunk(first.0, first.1);
        assert(b =~= pre + e0 + encode_code(others));
        lemma_chunk_round_trip(pre, first.0, first.1, encode_code(others));
        assert forall|i: int| 0 <= i < others.len() implies chunk_encodable(#[trigger] others[i]) by {
            assert(others[i] == chunks[i + 1]);
        }
        lemma_code_round_trip_from(pre + e0, others);
        assert(pre + e0 + encode_code(others) =~= (pre + e0) + encode_code(others));
        assert(seq![chunk_model(first)] + others.map_values(|c: (Seq<RawConstant>, Seq<u8>)| chunk_model(c))
            =~= chunks.map_values(|c: (Seq<RawConstant>, Seq<u8>)| chunk_model(c)));
    }
}

/// Parsing a program that a producer wrote chunk by chunk gives back every
/// chunk, in order, with its constants and its code bytes.
pub proof fn lemma_code_round_trip(chunks: Seq<(Seq<RawConstant>, Seq<u8>)>)
    requires
        forall|i: int| 0 <= i < chunks.len() ==> chunk_encodable(#[trigger] chunks[i]),
    ensures
        chunks_from(encode_code(chunks), 0)
            == Ok::<Seq<ChunkModel>, MachineError>(chunks.map_values(|c: (Seq<RawConstant>, Seq<u8>)| chunk_model(c))),
{
    lemma_code_round_trip_from(seq![], chunks);
    assert(seq![] + encode_code(chunks) =~= encode_code(chunks));
}

} // verus!
