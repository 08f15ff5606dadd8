use tihle::tifiles::{Error, File, Variable, VariableType};
use tihle::z80::State;
use tihle::{Emulator, LoadProgramError};

const MINIMAL_PROGRAM: &[u8] = b"**TI83F*\x1a\x0a\x00\
                                File generated by spasm\0\0\0\0\0\0\0\0\0\0\0\0\0\0\0\0\0\0\0\
                                \x16\0\
                                \x0d\0\
                                \x05\0\
                                \x06\
                                MINIMAL\0\
                                \0\0\
                                \x05\0\
                                \x03\0\
                                \xbb\x6d\xc9\
                                \x18\x04";

#[test]
fn read_8xp() {
    let minimal_program = MINIMAL_PROGRAM;
    assert_eq!(
        File::read_from(&minimal_program[..]).expect("Should not fail to read file"),
        File {
            comment: b"File generated by spasm\0\0\0\0\0\0\0\0\0\0\0\0\0\0\0\0\0\0\0"[..].to_vec(),
            var: Variable {
                name: b"MINIMAL"[..].to_vec(),
                ty: VariableType::ProtectedProgram,
                version: Some(0),
                flags: Some(0),
                data: vec![3, 0, 0xbb, 0x6d, 0xc9]
            }
        }
    );
}

/// A container built from parts, with the length and checksum computed the
/// way the format defines them.
fn build_container(ty: u8, name: &[u8; 8], payload: &[u8]) -> Vec<u8> {
    let mut out = Vec::new();
    out.extend_from_slice(b"**TI83F*\x1a\x0a\x00");
    out.extend_from_slice(&[0u8; 42]);
    let mut record = Vec::new();
    record.extend_from_slice(&13u16.to_le_bytes());
    record.extend_from_slice(&(payload.len() as u16).to_le_bytes());
    record.push(ty);
    record.extend_from_slice(name);
    record.push(0); // version
    record.push(0); // flags
    record.extend_from_slice(&(payload.len() as u16).to_le_bytes());
    record.extend_from_slice(payload);
    out.extend_from_slice(&(record.len() as u16).to_le_bytes());
    out.extend_from_slice(&record);
    let sum: u16 = record
        .iter()
        .fold(0u16, |acc, &b| acc.wrapping_add(b as u16));
    out.extend_from_slice(&sum.to_le_bytes());
    out
}

#[test]
fn built_container_round_trips() {
    let payload = [0x05, 0x00, 0xbb, 0x6d, 0xc9, 0x18, 0x04];
    let bytes = build_container(0x05, b"ROUNDTRP", &payload);
    let file = File::read_from(&bytes).expect("well-formed container must parse");
    assert_eq!(file.var.name, b"ROUNDTRP".to_vec());
    assert_eq!(file.var.ty, VariableType::Program);
    assert_eq!(file.var.data, payload.to_vec());
}

#[test]
fn mutated_checksum_is_rejected() {
    let mut bytes = MINIMAL_PROGRAM.to_vec();
    let last = bytes.len() - 1;
    bytes[last] = bytes[last].wrapping_add(1);
    assert!(matches!(
        File::read_from(&bytes),
        Err(Error::IncorrectChecksum)
    ));
}

#[test]
fn bad_signature_is_rejected() {
    let mut bytes = MINIMAL_PROGRAM.to_vec();
    bytes[0] = b'!';
    assert!(matches!(
        File::read_from(&bytes),
        Err(Error::InvalidSignature)
    ));
}

#[test]
fn unknown_type_byte_is_rejected() {
    let bytes = build_container(0x09, b"BADTYPE\0", &[1, 2, 3]);
    assert!(matches!(
        File::read_from(&bytes),
        Err(Error::UnrecognizedVariableType)
    ));
}

#[test]
fn odd_header_length_is_rejected() {
    let mut bytes = build_container(0x05, b"BADHDR\0\0", &[1, 2, 3]);
    bytes[55] = 12; // neither of the two defined header layouts
    assert!(matches!(
        File::read_from(&bytes),
        Err(Error::UnexpectedVariableHeaderLength)
    ));
}

#[test]
fn disagreeing_lengths_are_rejected() {
    let mut bytes = build_container(0x05, b"BADLEN\0\0", &[1, 2, 3]);
    // The repeated data-length field follows the 13-byte header's
    // version/flags pair.
    bytes[55 + 15] = bytes[55 + 15].wrapping_add(1);
    assert!(matches!(File::read_from(&bytes), Err(Error::LengthMismatch)));
}

#[test]
fn wrong_declared_length_is_rejected() {
    let mut bytes = build_container(0x05, b"BADDECL\0", &[1, 2, 3]);
    bytes[53] = bytes[53].wrapping_add(1);
    assert!(matches!(
        File::read_from(&bytes),
        Err(Error::DataLengthMismatch)
    ));
}

#[test]
fn truncated_stream_is_rejected() {
    let bytes = &MINIMAL_PROGRAM[..20];
    assert!(matches!(File::read_from(bytes), Err(Error::Truncated)));
    assert!(matches!(File::read_from(&[]), Err(Error::Truncated)));
}

#[test]
fn trailing_bytes_are_ignored() {
    let mut bytes = MINIMAL_PROGRAM.to_vec();
    bytes.extend_from_slice(b"junk");
    assert!(File::read_from(&bytes).is_ok());
}

#[test]
fn ion_program_is_patched() {
    let mut var = Variable {
        name: b"ION".to_vec(),
        ty: VariableType::Program,
        version: None,
        flags: None,
        data: vec![0x06, 0x00, 0xbb, 0x6d, 0xc9, 0x30, 0x01, 0x02],
    };
    assert!(var.patch_ion_program());
    assert_eq!(var.data, vec![0x06, 0x00, 0xbb, 0x6d, 0x00, 0x18, 0x01, 0x02]);
    // A program without the Ion prologue is untouched.
    let mut plain = Variable {
        name: b"PLAIN".to_vec(),
        ty: VariableType::Program,
        version: None,
        flags: None,
        data: vec![0x03, 0x00, 0xbb, 0x6d, 0xc9],
    };
    assert!(!plain.patch_ion_program());
    assert_eq!(plain.data, vec![0x03, 0x00, 0xbb, 0x6d, 0xc9]);
}

#[test]
fn calc_data_skips_size_bytes() {
    let var = Variable {
        name: b"DATA".to_vec(),
        ty: VariableType::Program,
        version: None,
        flags: None,
        data: vec![0x03, 0x00, 0xbb, 0x6d, 0xc9],
    };
    assert_eq!(var.calc_data().to_vec(), vec![0xbb, 0x6d, 0xc9]);
}

#[test]
fn load_program_places_code_and_starts() {
    let mut emu = Emulator::new();
    let mut regs = State::new();
    assert!(!emu.is_running());
    let var = emu
        .load_program(&mut regs, MINIMAL_PROGRAM)
        .expect("minimal program must load");
    assert_eq!(var.name, b"MINIMAL".to_vec());
    assert!(emu.is_running());
    assert_eq!(regs.pc, 0x9d95);
    assert_eq!(regs.sp, 0xfffe);
    assert_eq!(regs.iy, 0x98f0);
    // The code byte after the signature pair lands at the load address.
    assert_eq!(emu.mem.read(0x9d95), 0xc9);
    // The stack returns to the reset trap.
    assert_eq!(emu.mem.read(0xfffe), 0);
    assert_eq!(emu.mem.read(0xffff), 0);
    // The shell page is mapped into bank A.
    assert_eq!(emu.mem.get_bank_a_page(), 4);
    // The cursor is at the top left and the flag bytes are reset.
    assert_eq!(emu.mem.read(0x844b), 0);
    assert_eq!(emu.mem.read(0x98f0), 0);
    // The symbol table is empty.
    assert_eq!(emu.mem.read_u16(0x9830), 0xFE66);
}

#[test]
fn load_program_rejects_non_programs() {
    let mut emu = Emulator::new();
    let mut regs = State::new();
    let bytes = build_container(0x15, b"APPVAR\0\0", &[0x03, 0x00, 0xbb, 0x6d, 0xc9]);
    assert!(matches!(
        emu.load_program(&mut regs, &bytes),
        Err(LoadProgramError::UnsupportedType)
    ));
    assert!(!emu.is_running());
}

#[test]
fn load_program_rejects_bad_internal_length() {
    let mut emu = Emulator::new();
    let mut regs = State::new();
    let bytes = build_container(0x05, b"SHORT\0\0\0", &[0x07, 0x00, 0xbb, 0x6d, 0xc9]);
    assert!(matches!(
        emu.load_program(&mut regs, &bytes),
        Err(LoadProgramError::IncorrectLength)
    ));
}

#[test]
fn load_program_rejects_bad_signature() {
    let mut emu = Emulator::new();
    let mut regs = State::new();
    let bytes = build_container(0x05, b"NOSIG\0\0\0", &[0x03, 0x00, 0xAA, 0x6d, 0xc9]);
    assert!(matches!(
        emu.load_program(&mut regs, &bytes),
        Err(LoadProgramError::InvalidSignature)
    ));
}

#[test]
fn load_program_aliases_ion_vectors() {
    let mut emu = Emulator::new();
    let mut regs = State::new();
    let payload = [0x06, 0x00, 0xbb, 0x6d, 0xc9, 0x30, 0x18, 0x00];
    let bytes = build_container(0x05, b"IONPROG\0", &payload);
    emu.load_program(&mut regs, &bytes)
        .expect("ion program must load");
    // The vector block: an unconditional jump per shell vector.
    let l_vectors = 0x966e + 80;
    assert_eq!(emu.mem.read(l_vectors), 0xc3);
    assert_eq!(emu.mem.read_u16(l_vectors + 1), 0x4083);
    assert_eq!(emu.mem.read(l_vectors + 21), 0xc3);
    assert_eq!(emu.mem.read_u16(l_vectors + 22), 0x4098);
    // The loaded code begins with the patched prologue bytes: the return
    // became a no-op and the conditional jump became unconditional.
    assert_eq!(emu.mem.read(0x9d95), 0x00);
    assert_eq!(emu.mem.read(0x9d96), 0x18);
    assert_eq!(emu.mem.read(0x9d97), 0x18);
    assert_eq!(emu.mem.read(0x9d98), 0x00);
}
