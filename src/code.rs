use vstd::prelude::*;

verus! {

/// What a constant of a chunk's pool denotes.
pub enum ConstantModel {
    Int(i32),
    Str(Seq<char>),
    Function { chunk_id: usize },
}

/// A literal embedded in a chunk's constant pool, fixed once parsed.
#[derive(Debug, PartialEq)]
pub enum Constant {
    Int(i32),
    String(String),
    /// A function whose body is the chunk `chunk_id` of the same code.
    Function { chunk_id: usize },
}

impl View for Constant {
    type V = ConstantModel;

    open spec fn view(&self) -> ConstantModel {
        match self {
            Constant::Int(i) => ConstantModel::Int(*i),
            Constant::String(s) => ConstantModel::Str(s@),
            Constant::Function { chunk_id } => ConstantModel::Function { chunk_id: *chunk_id },
        }
    }
}

/// What a chunk holds: its constant pool and its raw instruction bytes.
pub struct ChunkModel {
    pub constants: Seq<ConstantModel>,
    pub code: Seq<u8>,
}

/// One unit of bytecode: the top-level program or one function body.
/// The instruction bytes are decoded only when they are executed.
#[derive(Debug, PartialEq)]
pub struct Chunk {
    pub constants: Vec<Constant>,
    pub code: Vec<u8>,
}

impl View for Chunk {
    type V = ChunkModel;

    open spec fn view(&self) -> ChunkModel {
        ChunkModel { constants: self.constants@.map_values(|c: Constant| c@), code: self.code@ }
    }
}

/// A whole program: chunk 0 is the entry point, the others are function bodies.
#[derive(Debug, PartialEq)]
pub struct Code {
    pub chunks: Vec<Chunk>,
}

impl View for Code {
    type V = Seq<ChunkModel>;

    open spec fn view(&self) -> Seq<ChunkModel> {
        self.chunks@.map_values(|c: Chunk| c@)
    }
}

} // verus!
