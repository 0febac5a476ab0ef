use jex::bytecode_parser::{BytecodeParser, ChunkParser};
use jex::code::{Chunk, Code, Constant};
use jex::errors::{Field, MachineError};
use jex::reader::BytecodeReader;

fn parse(bytes: Vec<u8>) -> Result<Code, MachineError> {
    let mut reader = BytecodeReader::new(bytes);
    BytecodeParser::new().parse(&mut reader)
}

#[test]
fn empty_input_is_code_without_chunks() {
    assert_eq!(parse(vec![]), Ok(Code { chunks: vec![] }));
}

#[test]
fn chunk_without_constants_keeps_raw_code() {
    let code = parse(vec![0, 0, 1, 16]).unwrap();
    assert_eq!(code, Code { chunks: vec![Chunk { constants: vec![], code: vec![16] }] });
}

#[test]
fn int_constant_is_big_endian_i32() {
    let code = parse(vec![1, 0, 0x00, 0x00, 0x00, 0x32, 0, 0]).unwrap();
    assert_eq!(code.chunks[0].constants, vec![Constant::Int(50)]);
    let code = parse(vec![1, 0, 0xff, 0xff, 0xff, 0xfe, 0, 0]).unwrap();
    assert_eq!(code.chunks[0].constants, vec![Constant::Int(-2)]);
    let code = parse(vec![1, 0, 0x80, 0x00, 0x00, 0x00, 0, 0]).unwrap();
    assert_eq!(code.chunks[0].constants, vec![Constant::Int(i32::MIN)]);
    let code = parse(vec![1, 0, 0x01, 0x02, 0x03, 0x04, 0, 0]).unwrap();
    assert_eq!(code.chunks[0].constants, vec![Constant::Int(0x01020304)]);
}

#[test]
fn string_constant_decodes_utf8() {
    let mut bytes = vec![1, 1, 0, 5];
    bytes.extend(b"hello");
    bytes.extend([0, 0]);
    let code = parse(bytes).unwrap();
    assert_eq!(code.chunks[0].constants, vec![Constant::String("hello".to_string())]);
    let mut bytes = vec![1, 1, 0, 2];
    bytes.extend("é".as_bytes());
    bytes.extend([0, 0]);
    let code = parse(bytes).unwrap();
    assert_eq!(code.chunks[0].constants, vec![Constant::String("é".to_string())]);
}

#[test]
fn string_constant_rejects_invalid_utf8() {
    assert_eq!(
        parse(vec![1, 1, 0, 5, b'h', 0xff, b'l', b'l', 0xfe, 0, 0]),
        Err(MachineError::InvalidEncoding { position: 4 })
    );
}

#[test]
fn function_constant_names_its_chunk() {
    let code = parse(vec![1, 2, 1, 0, 1, 24, 0, 0, 1, 24]).unwrap();
    assert_eq!(code.chunks.len(), 2);
    assert_eq!(code.chunks[0].constants, vec![Constant::Function { chunk_id: 1 }]);
    assert_eq!(code.chunks[0].code, vec![24]);
    assert_eq!(code.chunks[1].constants, vec![]);
    assert_eq!(code.chunks[1].code, vec![24]);
}

#[test]
fn several_constants_in_order() {
    let code = parse(vec![3, 0, 0, 0, 0, 7, 1, 0, 1, b'a', 2, 9, 0, 2, 20, 1]).unwrap();
    assert_eq!(
        code.chunks[0].constants,
        vec![Constant::Int(7), Constant::String("a".to_string()), Constant::Function { chunk_id: 9 }]
    );
    assert_eq!(code.chunks[0].code, vec![20, 1]);
}

#[test]
fn unknown_constant_tag_is_rejected() {
    assert_eq!(parse(vec![1, 7]), Err(MachineError::UnsupportedConstantType { tag: 7, position: 2 }));
}

#[test]
fn truncated_inputs_report_what_was_missing() {
    assert_eq!(
        parse(vec![1]),
        Err(MachineError::UnexpectedEndOfInput { field: Field::ConstantType, position: 1 })
    );
    assert_eq!(
        parse(vec![1, 0, 0, 0]),
        Err(MachineError::UnexpectedEndOfInput { field: Field::IntConstant, position: 2 })
    );
    assert_eq!(
        parse(vec![1, 1, 0]),
        Err(MachineError::UnexpectedEndOfInput { field: Field::StringLength, position: 2 })
    );
    assert_eq!(
        parse(vec![1, 1, 0, 3, b'a']),
        Err(MachineError::UnexpectedEndOfInput { field: Field::StringContent, position: 4 })
    );
    assert_eq!(
        parse(vec![1, 2]),
        Err(MachineError::UnexpectedEndOfInput { field: Field::FunctionChunkId, position: 2 })
    );
    assert_eq!(
        parse(vec![0, 0]),
        Err(MachineError::UnexpectedEndOfInput { field: Field::InstructionByteCount, position: 1 })
    );
    assert_eq!(
        parse(vec![0, 0, 3, 1]),
        Err(MachineError::UnexpectedEndOfInput { field: Field::ChunkCode, position: 3 })
    );
    assert_eq!(
        parse(vec![0, 0, 0, 5]),
        Err(MachineError::UnexpectedEndOfInput { field: Field::ConstantType, position: 4 })
    );
}

#[test]
fn chunk_parser_stops_after_its_chunk() {
    let mut reader = BytecodeReader::new(vec![0, 0, 1, 16, 9, 9]);
    let mut parser = ChunkParser::new(0);
    assert_eq!(parser.chunk_id, 0);
    let chunk = parser.parse(&mut reader).unwrap();
    assert_eq!(chunk, Chunk { constants: vec![], code: vec![16] });
    assert_eq!(reader.position(), 4);
    assert!(!reader.is_finished());
}

#[test]
fn code_length_is_sixteen_bits_big_endian() {
    let mut bytes = vec![0, 1, 0];
    bytes.extend(vec![4u8; 256]);
    let code = parse(bytes).unwrap();
    assert_eq!(code.chunks[0].code.len(), 256);
}

#[test]
fn reading_two_bytes_with_one_left_fails_without_moving() {
    let mut reader = BytecodeReader::new(vec![0xab]);
    assert_eq!(
        reader.read_u16(Field::StringLength),
        Err(MachineError::UnexpectedEndOfInput { field: Field::StringLength, position: 0 })
    );
    assert_eq!(reader.position(), 0);
    assert_eq!(reader.read_byte(Field::OpCode), Ok(0xab));
    assert!(reader.is_finished());
}

#[test]
fn reader_reads_in_order() {
    let mut reader = BytecodeReader::new(vec![0x12, 0x34, 0xff, 0xff, 0xff, 0xff, 1, 2, 3]);
    assert_eq!(reader.read_u16(Field::StringLength), Ok(0x1234));
    assert_eq!(reader.read_i32(Field::IntConstant), Ok(-1));
    assert_eq!(
        reader.read_bytes(4, Field::ChunkCode),
        Err(MachineError::UnexpectedEndOfInput { field: Field::ChunkCode, position: 6 })
    );
    assert_eq!(reader.position(), 6);
    assert_eq!(reader.read_bytes(3, Field::ChunkCode), Ok(vec![1, 2, 3]));
    assert!(reader.is_finished());
    assert_eq!(
        reader.read_i32(Field::IntConstant),
        Err(MachineError::UnexpectedEndOfInput { field: Field::IntConstant, position: 9 })
    );
}

#[test]
fn failed_chunk_leaves_reader_at_incomplete_read() {
    let mut reader = BytecodeReader::new(vec![0x00, 0x07]);
    let mut parser = ChunkParser::new(0);
    assert_eq!(
        parser.parse(&mut reader),
        Err(MachineError::UnexpectedEndOfInput { field: Field::InstructionByteCount, position: 1 })
    );
    assert_eq!(reader.position(), 1);
}

#[test]
fn failed_parse_positions() {
    let mut reader = BytecodeReader::new(vec![1, 7, 0, 0]);
    assert_eq!(
        BytecodeParser::new().parse(&mut reader),
        Err(MachineError::UnsupportedConstantType { tag: 7, position: 2 })
    );
    assert_eq!(reader.position(), 2);
    let mut reader = BytecodeReader::new(vec![1, 1, 0, 2, 0xff, 0xfe, 0, 0]);
    assert_eq!(BytecodeParser::new().parse(&mut reader), Err(MachineError::InvalidEncoding { position: 4 }));
    assert_eq!(reader.position(), 6);
    let mut reader = BytecodeReader::new(vec![1]);
    assert_eq!(
        BytecodeParser::new().parse(&mut reader),
        Err(MachineError::UnexpectedEndOfInput { field: Field::ConstantType, position: 1 })
    );
    assert_eq!(reader.position(), 1);
}

#[test]
fn payload_readers_read_at_the_cursor() {
    let mut parser = ChunkParser::new(0);
    let mut reader = BytecodeReader::new(vec![0x00, 0x00, 0x00, 0x32]);
    assert_eq!(parser.read_int_constant(&mut reader), Ok(Constant::Int(50)));
    assert_eq!(reader.position(), 4);
    let mut reader = BytecodeReader::new(vec![0xff, 0xff, 0xff, 0xff]);
    assert_eq!(parser.read_int_constant(&mut reader), Ok(Constant::Int(-1)));
    let mut reader = BytecodeReader::new(vec![0x00, 0x00, 0x01]);
    assert_eq!(
        parser.read_int_constant(&mut reader),
        Err(MachineError::UnexpectedEndOfInput { field: Field::IntConstant, position: 0 })
    );
    assert_eq!(reader.position(), 0);
    let mut reader = BytecodeReader::new(vec![0x00, 0x02, 0xff, 0xfe]);
    assert_eq!(parser.read_string_constant(&mut reader), Err(MachineError::InvalidEncoding { position: 2 }));
    assert_eq!(reader.position(), 4);
    let mut reader = BytecodeReader::new(vec![0x00, 0x05, b'h', b'e', b'l', b'l', b'o']);
    assert_eq!(parser.read_string_constant(&mut reader), Ok(Constant::String("hello".to_string())));
    assert_eq!(reader.position(), 7);
    let mut reader = BytecodeReader::new(vec![0x00]);
    assert_eq!(
        parser.read_string_constant(&mut reader),
        Err(MachineError::UnexpectedEndOfInput { field: Field::StringLength, position: 0 })
    );
    assert_eq!(reader.position(), 0);
    let mut reader = BytecodeReader::new(vec![9, 3]);
    assert_eq!(reader.read_byte(Field::OpCode), Ok(9));
    assert_eq!(parser.read_function_constant(&mut reader), Ok(Constant::Function { chunk_id: 3 }));
    assert_eq!(reader.position(), 2);
}
