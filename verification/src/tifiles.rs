//! The program container format: an 11-byte signature, a 42-byte comment, a
//! 16-bit length, one variable record (header, name, optional version/flags,
//! payload), and a trailing 16-bit checksum over the record's bytes.

use vstd::prelude::*;

verus! {

use vstd::slice::{slice_index_get, slice_subrange};

/// Parse failures, each tied to the exact malformation that raises it.
#[derive(Debug, Clone, Copy, PartialEq, Eq, Structural)]
pub enum Error {
    /// The stream ended before a required field.
    Truncated,
    /// The leading signature bytes are wrong.
    InvalidSignature,
    /// The variable's type byte names no known type.
    UnrecognizedVariableType,
    /// The variable header length is neither of the two defined layouts.
    UnexpectedVariableHeaderLength,
    /// The variable's two data-length fields disagree.
    LengthMismatch,
    /// The file's declared length does not match the variable record.
    DataLengthMismatch,
    /// The trailing checksum does not match the record's byte sum.
    IncorrectChecksum,
}

/// On-calculator variable types, by type byte.
#[derive(Debug, Clone, Copy, PartialEq, Eq, Structural)]
pub enum VariableType {
    Real,
    List,
    Matrix,
    Equation,
    String,
    Program,
    ProtectedProgram,
    Picture,
    GraphDatabase,
    NewEquation,
    Complex,
    ComplexList,
    Window,
    Backup,
    AppVar,
    TemporaryProgram,
    Group,
}

/// The type a type byte decodes to, if any.
pub open spec fn type_from_u8_spec(b: u8) -> Option<VariableType> {
    if b == 0x00 {
        Some(VariableType::Real)
    } else if b == 0x01 {
        Some(VariableType::List)
    } else if b == 0x02 {
        Some(VariableType::Matrix)
    } else if b == 0x03 {
        Some(VariableType::Equation)
    } else if b == 0x04 {
        Some(VariableType::String)
    } else if b == 0x05 {
        Some(VariableType::Program)
    } else if b == 0x06 {
        Some(VariableType::ProtectedProgram)
    } else if b == 0x07 {
        Some(VariableType::Picture)
    } else if b == 0x08 {
        Some(VariableType::GraphDatabase)
    } else if b == 0x0B {
        Some(VariableType::NewEquation)
    } else if b == 0x0C {
        Some(VariableType::Complex)
    } else if b == 0x0D {
        Some(VariableType::ComplexList)
    } else if b == 0x0F {
        Some(VariableType::Window)
    } else if b == 0x13 {
        Some(VariableType::Backup)
    } else if b == 0x15 {
        Some(VariableType::AppVar)
    } else if b == 0x16 {
        Some(VariableType::TemporaryProgram)
    } else if b == 0x17 {
        Some(VariableType::Group)
    } else {
        None
    }
}

impl VariableType {
    /// Decode a type byte.
    pub fn from_u8(b: u8) -> (r: Option<VariableType>)
        ensures
            r == type_from_u8_spec(b),
    {
        if b == 0x00 {
            Some(VariableType::Real)
        } else if b == 0x01 {
            Some(VariableType::List)
        } else if b == 0x02 {
            Some(VariableType::Matrix)
        } else if b == 0x03 {
            Some(VariableType::Equation)
        } else if b == 0x04 {
            Some(VariableType::String)
        } else if b == 0x05 {
            Some(VariableType::Program)
        } else if b == 0x06 {
            Some(VariableType::ProtectedProgram)
        } else if b == 0x07 {
            Some(VariableType::Picture)
        } else if b == 0x08 {
            Some(VariableType::GraphDatabase)
        } else if b == 0x0B {
            Some(VariableType::NewEquation)
        } else if b == 0x0C {
            Some(VariableType::Complex)
        } else if b == 0x0D {
            Some(VariableType::ComplexList)
        } else if b == 0x0F {
            Some(VariableType::Window)
        } else if b == 0x13 {
            Some(VariableType::Backup)
        } else if b == 0x15 {
            Some(VariableType::AppVar)
        } else if b == 0x16 {
            Some(VariableType::TemporaryProgram)
        } else if b == 0x17 {
            Some(VariableType::Group)
        } else {
            None
        }
    }
}

/// A parsed container file: the comment and its single variable.
#[derive(Debug, Clone, PartialEq)]
pub struct File {
    pub comment: Vec<u8>,
    pub var: Variable,
}

/// One variable record.
#[derive(Debug, Clone, PartialEq)]
pub struct Variable {
    pub name: Vec<u8>,
    pub ty: VariableType,
    pub version: Option<u8>,
    pub flags: Option<u8>,
    pub data: Vec<u8>,
}

/// The 16-bit little-endian value at offset `i`.
pub open spec fn le16_at(s: Seq<u8>, i: int) -> int {
    s[i] + 256 * s[i + 1]
}

/// The container signature.
pub open spec fn magic() -> Seq<u8> {
    seq![0x2Au8, 0x2A, 0x54, 0x49, 0x38, 0x33, 0x46, 0x2A, 0x1A, 0x0A, 0x00]
}

/// Byte sum of a record, kept to 16 bits at each step.
pub open spec fn sum16(s: Seq<u8>) -> int
    decreases s.len(),
{
    if s.len() == 0 {
        0
    } else {
        (sum16(s.drop_last()) + s.last()) % 0x10000
    }
}

/// Index of the first zero byte, or the length if there is none.
pub open spec fn first_zero(s: Seq<u8>, i: int) -> int
    decreases s.len() - i,
{
    if i < 0 || i >= s.len() {
        i
    } else if s[i] == 0 {
        i
    } else {
        first_zero(s, i + 1)
    }
}

/// Length of the optional version/flags pair in a variable record: 2 bytes
/// in the 13-byte header layout, none in the 11-byte layout.
pub open spec fn var_extra(v: Seq<u8>) -> int {
    if le16_at(v, 0) == 13 {
        2
    } else {
        0
    }
}

/// Total length of a variable record: the fixed fields, the optional
/// version/flags pair, and the payload.
pub open spec fn var_record_len(v: Seq<u8>) -> int {
    15 + var_extra(v) + le16_at(v, 2)
}

/// Whether `v` begins with a well-formed variable record.
pub open spec fn var_ok(v: Seq<u8>) -> bool {
    &&& v.len() >= 5
    &&& type_from_u8_spec(v[4]) is Some
    &&& v.len() >= 13
    &&& (le16_at(v, 0) == 11 || le16_at(v, 0) == 13)
    &&& v.len() >= 15 + var_extra(v)
    &&& le16_at(v, 13 + var_extra(v)) == le16_at(v, 2)
    &&& v.len() >= var_record_len(v)
}

/// Which error a malformed variable record raises, in the order the fields
/// are read.
pub open spec fn var_err(v: Seq<u8>) -> Error {
    if v.len() < 5 {
        Error::Truncated
    } else if type_from_u8_spec(v[4]) is None {
        Error::UnrecognizedVariableType
    } else if v.len() < 13 {
        Error::Truncated
    } else if !(le16_at(v, 0) == 11 || le16_at(v, 0) == 13) {
        Error::UnexpectedVariableHeaderLength
    } else if v.len() < 15 + var_extra(v) {
        Error::Truncated
    } else if le16_at(v, 13 + var_extra(v)) != le16_at(v, 2) {
        Error::LengthMismatch
    } else {
        Error::Truncated
    }
}

/// The name of the record's variable: the 8 name bytes up to the first zero.
pub open spec fn var_name(v: Seq<u8>) -> Seq<u8> {
    let raw = v.subrange(5, 13);
    raw.take(first_zero(raw, 0))
}

/// The record's payload bytes.
pub open spec fn var_payload(v: Seq<u8>) -> Seq<u8> {
    v.subrange(15 + var_extra(v), var_record_len(v))
}

/// Whether `s` is a well-formed container file. Bytes past the checksum are
/// ignored.
pub open spec fn file_ok(s: Seq<u8>) -> bool {
    &&& s.len() >= 11
    &&& s.subrange(0, 11) == magic()
    &&& s.len() >= 55
    &&& var_ok(s.skip(55))
    &&& var_record_len(s.skip(55)) == le16_at(s, 53)
    &&& s.len() >= 55 + var_record_len(s.skip(55)) + 2
    &&& sum16(s.subrange(55, 55 + var_record_len(s.skip(55)))) == le16_at(
        s,
        55 + var_record_len(s.skip(55)),
    )
}

/// Which error a malformed container raises, in the order the fields are
/// read and checked.
pub open spec fn file_err(s: Seq<u8>) -> Error {
    if s.len() < 11 {
        Error::Truncated
    } else if s.subrange(0, 11) != magic() {
        Error::InvalidSignature
    } else if s.len() < 55 {
        Error::Truncated
    } else if !var_ok(s.skip(55)) {
        var_err(s.skip(55))
    } else if var_record_len(s.skip(55)) != le16_at(s, 53) {
        Error::DataLengthMismatch
    } else if s.len() < 55 + var_record_len(s.skip(55)) + 2 {
        Error::Truncated
    } else {
        Error::IncorrectChecksum
    }
}

/// Read the byte at `at`, or report truncation.
pub fn read_u8(src: &[u8], at: usize) -> (r: Result<u8, Error>)
    ensures
        r is Ok <==> at + 1 <= src@.len(),
        r is Ok ==> r.unwrap() == src@[at as int],
        r is Err ==> r.unwrap_err() == Error::Truncated,
{
    if at < src.len() {
        Ok(*slice_index_get(src, at))
    } else {
        Err(Error::Truncated)
    }
}

/// Read the 16-bit little-endian value at `at`, or report truncation.
pub fn read_u16(src: &[u8], at: usize) -> (r: Result<u16, Error>)
    ensures
        r is Ok <==> at + 2 <= src@.len(),
        r is Ok ==> r.unwrap() == le16_at(src@, at as int),
        r is Err ==> r.unwrap_err() == Error::Truncated,
{
    if at < src.len() && at + 1 < src.len() {
        let lo = *slice_index_get(src, at);
        let hi = *slice_index_get(src, at + 1);
        Ok(lo as u16 + 256 * hi as u16)
    } else {
        Err(Error::Truncated)
    }
}

impl Variable {
    /// Parse one variable record from the front of `v`, returning it and the
    /// number of bytes it occupied.
    pub fn read_from(v: &[u8]) -> (r: Result<(Variable, usize), Error>)
        ensures
            r is Ok <==> var_ok(v@),
            r is Ok ==> ({
                let (var, used) = r.unwrap();
                &&& used == var_record_len(v@)
                &&& var.name@ == var_name(v@)
                &&& Some(var.ty) == type_from_u8_spec(v@[4])
                &&& var.version == if var_extra(v@) == 2 {
                    Some(v@[13])
                } else {
                    None::<u8>
                }
                &&& var.flags == if var_extra(v@) == 2 {
                    Some(v@[14])
                } else {
                    None::<u8>
                }
                &&& var.data@ == var_payload(v@)
            }),
            r is Err ==> r.unwrap_err() == var_err(v@),
    {
        let hdr_len = match read_u16(v, 0) {
            Ok(x) => x,
            Err(e) => {
                return Err(e);
            },
        };
        let data_len = match read_u16(v, 2) {
            Ok(x) => x,
            Err(e) => {
                return Err(e);
            },
        };
        let ty_byte = match read_u8(v, 4) {
            Ok(x) => x,
            Err(e) => {
                return Err(e);
            },
        };
        let ty = match VariableType::from_u8(ty_byte) {
            Some(t) => t,
            None => {
                return Err(Error::UnrecognizedVariableType);
            },
        };
        if v.len() < 13 {
            return Err(Error::Truncated);
        }
        let mut name: Vec<u8> = Vec::new();
        let mut i: usize = 5;
        while i < 13 && *slice_index_get(v, i) != 0
            invariant
                v@.len() >= 13,
                5 <= i <= 13,
                name@ =~= v@.subrange(5, i as int),
                forall|j: int| 5 <= j < i ==> v@[j] != 0,
            decreases 13 - i,
        {
            name.push(*slice_index_get(v, i));
            i += 1;
        }
        proof {
            let raw = v@.subrange(5, 13);
            assert(first_zero(raw, 0) == i - 5) by {
                lemma_first_zero_bound(raw, 0, i - 5);
            }
            assert(name@ =~= raw.take(first_zero(raw, 0)));
        }
        let (version, flags, extra): (Option<u8>, Option<u8>, usize) = if hdr_len == 11 {
            (None, None, 0)
        } else if hdr_len == 13 {
            let ver = match read_u8(v, 13) {
                Ok(x) => x,
                Err(e) => {
                    return Err(e);
                },
            };
            let flg = match read_u8(v, 14) {
                Ok(x) => x,
                Err(e) => {
                    return Err(e);
                },
            };
            (Some(ver), Some(flg), 2)
        } else {
            return Err(Error::UnexpectedVariableHeaderLength);
        };
        let data_len_2 = match read_u16(v, 13 + extra) {
            Ok(x) => x,
            Err(e) => {
                return Err(e);
            },
        };
        if data_len != data_len_2 {
            return Err(Error::LengthMismatch);
        }
        let payload_start = 15 + extra;
        if v.len() < payload_start + data_len as usize {
            return Err(Error::Truncated);
        }
        let payload = slice_subrange(v, payload_start, payload_start + data_len as usize);
        let mut data: Vec<u8> = Vec::new();
        let mut k: usize = 0;
        while k < payload.len()
            invariant
                k <= payload@.len(),
                data@ =~= payload@.subrange(0, k as int),
            decreases payload@.len() - k,
        {
            data.push(*slice_index_get(payload, k));
            k += 1;
        }
        proof {
            assert(data@ =~= var_payload(v@));
        }
        Ok((Variable { name, ty, version, flags, data }, payload_start + data_len as usize))
    }
}

impl File {
    /// Parse a container file from bytes. Bytes past the trailing checksum
    /// are ignored. Succeeds exactly on well-formed containers and reports
    /// the first malformation hit in reading order.
    pub fn read_from(src: &[u8]) -> (r: Result<File, Error>)
        ensures
            r is Ok <==> file_ok(src@),
            r is Ok ==> ({
                let f = r.unwrap();
                let v = src@.skip(55);
                &&& f.comment@ == src@.subrange(11, 53)
                &&& f.var.name@ == var_name(v)
                &&& Some(f.var.ty) == type_from_u8_spec(v[4])
                &&& f.var.version == if var_extra(v) == 2 {
                    Some(v[13])
                } else {
                    None::<u8>
                }
                &&& f.var.flags == if var_extra(v) == 2 {
                    Some(v[14])
                } else {
                    None::<u8>
                }
                &&& f.var.data@ == var_payload(v)
            }),
            r is Err ==> r.unwrap_err() == file_err(src@),
    {
        if src.len() < 11 {
            return Err(Error::Truncated);
        }
        let sig_ok = *slice_index_get(src, 0) == 0x2A && *slice_index_get(src, 1) == 0x2A
            && *slice_index_get(src, 2) == 0x54 && *slice_index_get(src, 3) == 0x49
            && *slice_index_get(src, 4) == 0x38 && *slice_index_get(src, 5) == 0x33
            && *slice_index_get(src, 6) == 0x46 && *slice_index_get(src, 7) == 0x2A
            && *slice_index_get(src, 8) == 0x1A && *slice_index_get(src, 9) == 0x0A
            && *slice_index_get(src, 10) == 0x00;
        proof {
            if sig_ok {
                assert(src@.subrange(0, 11) =~= magic());
            } else {
                assert(src@.subrange(0, 11)[0] == src@[0] && src@.subrange(0, 11)[1] == src@[1]
                    && src@.subrange(0, 11)[2] == src@[2] && src@.subrange(0, 11)[3] == src@[3]
                    && src@.subrange(0, 11)[4] == src@[4] && src@.subrange(0, 11)[5] == src@[5]
                    && src@.subrange(0, 11)[6] == src@[6] && src@.subrange(0, 11)[7] == src@[7]
                    && src@.subrange(0, 11)[8] == src@[8] && src@.subrange(0, 11)[9] == src@[9]
                    && src@.subrange(0, 11)[10] == src@[10]);
            }
        }
        if !sig_ok {
            return Err(Error::InvalidSignature);
        }
        if src.len() < 55 {
            return Err(Error::Truncated);
        }
        let data_len = match read_u16(src, 53) {
            Ok(x) => x,
            Err(e) => {
                return Err(e);
            },
        };
        let tail = slice_subrange(src, 55, src.len());
        proof {
            assert(tail@ =~= src@.skip(55));
        }
        let (var, used) = match Variable::read_from(tail) {
            Ok(x) => x,
            Err(e) => {
                return Err(e);
            },
        };
        if used != data_len as usize {
            return Err(Error::DataLengthMismatch);
        }
        let expected_sum = match read_u16(src, 55 + used) {
            Ok(x) => x,
            Err(e) => {
                return Err(e);
            },
        };
        let mut actual_sum: u16 = 0;
        let mut i: usize = 0;
        while i < used
            invariant
                used <= 0xFFFF,
                55 + used + 2 <= src@.len(),
                i <= used,
                actual_sum as int == sum16(src@.subrange(55, 55 + i as int)),
            decreases used - i,
        {
            let b = *slice_index_get(src, 55 + i);
            proof {
                let big = src@.subrange(55, 55 + (i + 1) as int);
                assert(big.drop_last() =~= src@.subrange(55, 55 + i as int));
                assert(big.last() == src@[55 + i]);
            }
            actual_sum = actual_sum.wrapping_add(b as u16);
            i += 1;
        }
        if actual_sum != expected_sum {
            return Err(Error::IncorrectChecksum);
        }
        let mut comment: Vec<u8> = Vec::new();
        let mut c: usize = 11;
        while c < 53
            invariant
                src@.len() >= 55,
                11 <= c <= 53,
                comment@ =~= src@.subrange(11, c as int),
            decreases 53 - c,
        {
            comment.push(*slice_index_get(src, c));
            c += 1;
        }
        proof {
            assert(comment@ =~= src@.subrange(11, 53));
        }
        Ok(File { comment, var })
    }
}

/// Whether a variable holds executable program data.
pub open spec fn is_program_type(t: VariableType) -> bool {
    t == VariableType::Program || t == VariableType::ProtectedProgram
}

/// Whether program data opens with the assembly signature followed by the
/// `ret`-then-relative-jump prologue that marks a program built against the
/// Ion shell's libraries.
pub open spec fn has_ion_prologue(data: Seq<u8>) -> bool {
    &&& data.len() >= 6
    &&& data[2] == 0xBB
    &&& data[3] == 0x6D
    &&& data[4] == 0xC9
    &&& data[5] == 0x30
}

impl Variable {
    /// The on-calculator contents of a program variable: the stored data
    /// without the two leading size bytes.
    pub fn calc_data(&self) -> (r: &[u8])
        requires
            is_program_type(self.ty),
            self.data@.len() >= 2,
        ensures
            r@ == self.data@.skip(2),
    {
        let r = slice_subrange(self.data.as_slice(), 2, self.data.len());
        proof {
            assert(r@ =~= self.data@.skip(2));
        }
        r
    }

    /// If this variable is an Ion program, patch its prologue to run as if it
    /// were shell-free: the `ret` becomes a no-op and the conditional jump
    /// becomes unconditional. Returns whether it was an Ion program; anything
    /// else is left untouched.
    pub fn patch_ion_program(&mut self) -> (r: bool)
        ensures
            r == (is_program_type(old(self).ty) && has_ion_prologue(old(self).data@)),
            final(self).name == old(self).name,
            final(self).ty == old(self).ty,
            final(self).version == old(self).version,
            final(self).flags == old(self).flags,
            r ==> final(self).data@ == old(self).data@.update(4, 0u8).update(5, 0x18u8),
            !r ==> final(self).data == old(self).data,
    {
        let is_prog = match self.ty {
            VariableType::Program | VariableType::ProtectedProgram => true,
            _ => false,
        };
        if !is_prog {
            return false;
        }
        if self.data.len() < 6 {
            return false;
        }
        if !(self.data[2] == 0xBB && self.data[3] == 0x6D && self.data[4] == 0xC9 && self.data[5]
            == 0x30) {
            return false;
        }
        self.data.set(4, 0);
        self.data.set(5, 0x18);
        true
    }
}

/// Mutating the stored checksum of a well-formed container, leaving every
/// other byte alone, makes parsing fail with a checksum mismatch: never a
/// silent partial read.
pub proof fn lemma_checksum_mutation_fails(s: Seq<u8>, s2: Seq<u8>)
    requires
        file_ok(s),
        s2.len() == s.len(),
        forall|i: int|
            0 <= i < s.len() && !(55 + var_record_len(s.skip(55)) <= i < 55 + var_record_len(
                s.skip(55),
            ) + 2) ==> s2[i] == s[i],
        le16_at(s2, 55 + var_record_len(s.skip(55))) != le16_at(s, 55 + var_record_len(s.skip(55))),
    ensures
        !file_ok(s2),
        file_err(s2) == Error::IncorrectChecksum,
{
    let v = s.skip(55);
    let v2 = s2.skip(55);
    let rec = var_record_len(v);
    assert(s2.subrange(0, 11) =~= s.subrange(0, 11));
    assert forall|i: int| 0 <= i < rec implies v2[i] == v[i] by {
        assert(s2[55 + i] == s[55 + i]);
    }
    assert(le16_at(v2, 0) == le16_at(v, 0));
    assert(le16_at(v2, 2) == le16_at(v, 2));
    assert(var_extra(v2) == var_extra(v));
    assert(var_record_len(v2) == rec);
    assert(le16_at(v2, 13 + var_extra(v2)) == le16_at(v, 13 + var_extra(v)));
    assert(var_ok(v2));
    assert(s2.subrange(55, 55 + rec) =~= s.subrange(55, 55 + rec));
    assert(sum16(s2.subrange(55, 55 + var_record_len(s2.skip(55)))) == sum16(
        s.subrange(55, 55 + rec),
    ));
    assert(file_err(s2) == Error::IncorrectChecksum);
}

/// `first_zero` finds exactly the scanned boundary: all bytes before it are
/// nonzero and it stops at a zero or the end.
proof fn lemma_first_zero_bound(raw: Seq<u8>, i: int, z: int)
    requires
        0 <= i <= z <= raw.len(),
        forall|j: int| i <= j < z ==> raw[j] != 0,
        z == raw.len() || raw[z] == 0,
    ensures
        first_zero(raw, i) == z,
    decreases z - i,
{
    if i < z {
        lemma_first_zero_bound(raw, i + 1, z);
    }
}

} // verus!
