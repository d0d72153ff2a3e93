use vstd::prelude::*;
use vstd::bytes::*;
use vstd::slice::slice_subrange;
use crate::error::SilError;
use crate::region::extend_bytes;

verus! {

/// The treatment class of a stake record, and of the containers that hold it.
#[derive(Debug, Clone, Copy, PartialEq, Eq, Structural)]
pub enum QueueType {
    LP,
    Priority,
    Pending,
}

/// The kind that a byte names: 0, 1 and 2 in declaration order.
pub open spec fn spec_queue_type_of(v: u8) -> Option<QueueType> {
    if v == 0 {
        Some(QueueType::LP)
    } else if v == 1 {
        Some(QueueType::Priority)
    } else if v == 2 {
        Some(QueueType::Pending)
    } else {
        None
    }
}

/// The byte that names a kind.
pub open spec fn spec_queue_type_byte(q: QueueType) -> u8 {
    match q {
        QueueType::LP => 0,
        QueueType::Priority => 1,
        QueueType::Pending => 2,
    }
}

impl QueueType {
    /// The kind named by `v`, if any.
    pub fn from_u8(v: u8) -> (r: Option<QueueType>)
        ensures
            r == spec_queue_type_of(v),
    {
        if v == 0 {
            Some(QueueType::LP)
        } else if v == 1 {
            Some(QueueType::Priority)
        } else if v == 2 {
            Some(QueueType::Pending)
        } else {
            None
        }
    }

    /// The byte that names this kind.
    pub fn to_u8(self) -> (r: u8)
        ensures
            r == spec_queue_type_byte(self),
    {
        match self {
            QueueType::LP => 0,
            QueueType::Priority => 1,
            QueueType::Pending => 2,
        }
    }
}

impl From<QueueType> for u8 {
    fn from(val: QueueType) -> (r: u8) {
        val.to_u8()
    }
}

impl vstd::std_specs::convert::FromSpecImpl<QueueType> for u8 {
    open spec fn obeys_from_spec() -> bool {
        true
    }

    open spec fn from_spec(v: QueueType) -> u8 {
        spec_queue_type_byte(v)
    }
}

/// The operations that an instruction buffer names. The leading byte is the
/// tag, 0 to 7 in declaration order; fixed fields follow it, integers
/// little-endian.
#[derive(Debug, Clone, Copy, PartialEq, Eq, Structural)]
pub enum SilInstruction {
    InitAdmin,
    InitQueue0(QueueType),
    InitQueue1(QueueType),
    InitMatchPair(u64, u64),
    InitUserIndex0,
    InitUserIndex1,
    Stake(bool, u64),
    Untake(u64, u64),
}

/// A little-endian `u64` read from the first eight bytes of `s`.
pub open spec fn le_u64_at(s: Seq<u8>, at: int) -> u64 {
    spec_u64_from_le_bytes(s.subrange(at, at + 8))
}

/// What decoding an instruction buffer gives. Bytes after the last field are ignored.
pub open spec fn spec_unpack_instruction(input: Seq<u8>) -> Result<SilInstruction, SilError> {
    let err = Err(SilError::InstructionUnpackError);
    if input.len() == 0 {
        err
    } else {
        let tag = input[0];
        let rest = input.drop_first();
        if tag == 0 {
            Ok(SilInstruction::InitAdmin)
        } else if tag == 1 || tag == 2 {
            if rest.len() == 0 || spec_queue_type_of(rest[0]) is None {
                err
            } else if tag == 1 {
                Ok(SilInstruction::InitQueue0(spec_queue_type_of(rest[0])->Some_0))
            } else {
                Ok(SilInstruction::InitQueue1(spec_queue_type_of(rest[0])->Some_0))
            }
        } else if tag == 3 {
            if rest.len() < 16 {
                err
            } else {
                Ok(SilInstruction::InitMatchPair(le_u64_at(rest, 0), le_u64_at(rest, 8)))
            }
        } else if tag == 4 {
            Ok(SilInstruction::InitUserIndex0)
        } else if tag == 5 {
            Ok(SilInstruction::InitUserIndex1)
        } else if tag == 6 {
            if rest.len() < 9 || rest[0] > 1 {
                err
            } else {
                Ok(SilInstruction::Stake(rest[0] == 1, le_u64_at(rest, 1)))
            }
        } else if tag == 7 {
            if rest.len() < 16 {
                err
            } else {
                Ok(SilInstruction::Untake(le_u64_at(rest, 0), le_u64_at(rest, 8)))
            }
        } else {
            err
        }
    }
}

/// The bytes that encode an instruction.
pub open spec fn spec_pack_instruction(ins: SilInstruction) -> Seq<u8> {
    match ins {
        SilInstruction::InitAdmin => seq![0u8],
        SilInstruction::InitQueue0(q) => seq![1u8, spec_queue_type_byte(q)],
        SilInstruction::InitQueue1(q) => seq![2u8, spec_queue_type_byte(q)],
        SilInstruction::InitMatchPair(a, b) => seq![3u8] + spec_u64_to_le_bytes(a) + spec_u64_to_le_bytes(b),
        SilInstruction::InitUserIndex0 => seq![4u8],
        SilInstruction::InitUserIndex1 => seq![5u8],
        SilInstruction::Stake(f, a) => seq![6u8, if f { 1u8 } else { 0u8 }] + spec_u64_to_le_bytes(a),
        SilInstruction::Untake(i, a) => seq![7u8] + spec_u64_to_le_bytes(i) + spec_u64_to_le_bytes(a),
    }
}

impl SilInstruction {
    /// Decodes an instruction buffer.
    pub fn unpack(input: &[u8]) -> (r: Result<SilInstruction, SilError>)
        ensures
            r == spec_unpack_instruction(input@),
    {
        if input.len() == 0 {
            return Err(SilError::InstructionUnpackError);
        }
        let tag = input[0];
        let rest = slice_subrange(input, 1, input.len());
        assert(rest@ =~= input@.drop_first());
        if tag == 0 {
            Ok(SilInstruction::InitAdmin)
        } else if tag == 1 {
            let (queue_type, _rest) = Self::unpack_queue_type(rest)?;
            Ok(SilInstruction::InitQueue0(queue_type))
        } else if tag == 2 {
            let (queue_type, _rest) = Self::unpack_queue_type(rest)?;
            Ok(SilInstruction::InitQueue1(queue_type))
        } else if tag == 3 {
            let (min_mint_token_0, rest2) = Self::unpack_u64(rest)?;
            let (min_mint_token_1, _rest) = Self::unpack_u64(rest2)?;
            assert(rest2@.subrange(0, 8) =~= rest@.subrange(8, 16));
            Ok(SilInstruction::InitMatchPair(min_mint_token_0, min_mint_token_1))
        } else if tag == 4 {
            Ok(SilInstruction::InitUserIndex0)
        } else if tag == 5 {
            Ok(SilInstruction::InitUserIndex1)
        } else if tag == 6 {
            let (is_first, rest2) = Self::unpack_bool(rest)?;
            let (amount, _rest) = Self::unpack_u64(rest2)?;
            assert(rest2@.subrange(0, 8) =~= rest@.subrange(1, 9));
            Ok(SilInstruction::Stake(is_first, amount))
        } else if tag == 7 {
            let (index, rest2) = Self::unpack_u64(rest)?;
            let (amount, _rest) = Self::unpack_u64(rest2)?;
            assert(rest2@.subrange(0, 8) =~= rest@.subrange(8, 16));
            Ok(SilInstruction::Untake(index, amount))
        } else {
            Err(SilError::InstructionUnpackError)
        }
    }

    fn unpack_queue_type(input: &[u8]) -> (r: Result<(QueueType, &[u8]), SilError>)
        ensures
            input@.len() == 0 || spec_queue_type_of(input@[0]) is None ==> r == Err::<(QueueType, &[u8]), SilError>(
                SilError::InstructionUnpackError,
            ),
            input@.len() > 0 && spec_queue_type_of(input@[0]) is Some ==> r is Ok && r->Ok_0.0
                == spec_queue_type_of(input@[0])->Some_0 && r->Ok_0.1@ == input@.drop_first(),
    {
        if input.len() == 0 {
            return Err(SilError::InstructionUnpackError);
        }
        let rest = slice_subrange(input, 1, input.len());
        assert(rest@ =~= input@.drop_first());
        match QueueType::from_u8(input[0]) {
            Some(q) => Ok((q, rest)),
            None => Err(SilError::InstructionUnpackError),
        }
    }

    fn unpack_bool(input: &[u8]) -> (r: Result<(bool, &[u8]), SilError>)
        ensures
            input@.len() == 0 || input@[0] > 1 ==> r == Err::<(bool, &[u8]), SilError>(
                SilError::InstructionUnpackError,
            ),
            input@.len() > 0 && input@[0] <= 1 ==> r is Ok && r->Ok_0.0 == (input@[0] == 1)
                && r->Ok_0.1@ == input@.drop_first(),
    {
        if input.len() == 0 {
            return Err(SilError::InstructionUnpackError);
        }
        let rest = slice_subrange(input, 1, input.len());
        assert(rest@ =~= input@.drop_first());
        match input[0] {
            0 => Ok((false, rest)),
            1 => Ok((true, rest)),
            _ => Err(SilError::InstructionUnpackError),
        }
    }

    fn unpack_u64(input: &[u8]) -> (r: Result<(u64, &[u8]), SilError>)
        ensures
            input@.len() < 8 ==> r == Err::<(u64, &[u8]), SilError>(SilError::InstructionUnpackError),
            input@.len() >= 8 ==> r is Ok && r->Ok_0.0 == le_u64_at(input@, 0) && r->Ok_0.1@
                == input@.subrange(8, input@.len() as int),
    {
        if input.len() < 8 {
            return Err(SilError::InstructionUnpackError);
        }
        let amount = u64_from_le_bytes(slice_subrange(input, 0, 8));
        let rest = slice_subrange(input, 8, input.len());
        Ok((amount, rest))
    }

    /// Encodes the instruction into a fresh buffer.
    pub fn pack(&self) -> (r: Vec<u8>)
        ensures
            r@ == spec_pack_instruction(*self),
    {
        let mut buf: Vec<u8> = Vec::new();
        match *self {
            SilInstruction::InitAdmin => buf.push(0),
            SilInstruction::InitQueue0(queue_type) => {
                buf.push(1);
                buf.push(u8::from(queue_type));
            },
            SilInstruction::InitQueue1(queue_type) => {
                buf.push(2);
                buf.push(u8::from(queue_type));
            },
            SilInstruction::InitMatchPair(min_mint_token_0, min_mint_token_1) => {
                buf.push(3);
                extend_bytes(&mut buf, &u64_to_le_bytes(min_mint_token_0));
                extend_bytes(&mut buf, &u64_to_le_bytes(min_mint_token_1));
            },
            SilInstruction::InitUserIndex0 => buf.push(4),
            SilInstruction::InitUserIndex1 => buf.push(5),
            SilInstruction::Stake(is_first, amount) => {
                buf.push(6);
                buf.push(if is_first { 1 } else { 0 });
                extend_bytes(&mut buf, &u64_to_le_bytes(amount));
            },
            SilInstruction::Untake(index, amount) => {
                buf.push(7);
                extend_bytes(&mut buf, &u64_to_le_bytes(index));
                extend_bytes(&mut buf, &u64_to_le_bytes(amount));
            },
        }
        assert(buf@ =~= spec_pack_instruction(*self));
        buf
    }
}

/// Decoding the encoding of an instruction gives the instruction back.
pub proof fn lemma_instruction_round_trip(ins: SilInstruction)
    ensures
        spec_unpack_instruction(spec_pack_instruction(ins)) == Ok::<SilInstruction, SilError>(ins),
{
    lemma_auto_spec_u64_to_from_le_bytes();
    let b = spec_pack_instruction(ins);
    let rest = b.drop_first();
    match ins {
        SilInstruction::InitMatchPair(a, c) => {
            assert(rest.subrange(0, 8) =~= spec_u64_to_le_bytes(a));
            assert(rest.subrange(8, 16) =~= spec_u64_to_le_bytes(c));
        },
        SilInstruction::Stake(f, a) => {
            assert(rest.subrange(1, 9) =~= spec_u64_to_le_bytes(a));
        },
        SilInstruction::Untake(i, a) => {
            assert(rest.subrange(0, 8) =~= spec_u64_to_le_bytes(i));
            assert(rest.subrange(8, 16) =~= spec_u64_to_le_bytes(a));
        },
        SilInstruction::InitQueue0(q) => {
            assert(rest[0] == spec_queue_type_byte(q));
        },
        SilInstruction::InitQueue1(q) => {
            assert(rest[0] == spec_queue_type_byte(q));
        },
        _ => {},
    }
}

} // verus!
