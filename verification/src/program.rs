//! The program model: an ordered sequence of decoded instructions and
//! the function table the front end fills in.  The execution engine
//! only reads it.

use vstd::prelude::*;

use crate::codec::{spec_decode, DecodingError};
use crate::instruction::Instruction;

verus! {

/// One entry of the function table.
#[derive(Debug, Clone, Copy, PartialEq, Eq, Structural)]
pub struct FunctionEntry {
    /// The unique type identifier the front end assigned.
    pub type_id: usize,
    /// The instruction offset where the function body starts.
    pub address: usize,
    /// The number of argument cells the function consumes.
    pub input_size: usize,
    /// The number of result cells the function leaves.
    pub output_size: usize,
    /// Whether this is the ordinary entry point.
    pub is_main: bool,
    /// Whether this is a contract entry point.
    pub is_contract_entry: bool,
}

/// A decoded program: immutable once produced by the front end.
#[derive(Debug, Clone, PartialEq, Eq)]
pub struct Program {
    pub instructions: Vec<Instruction>,
    pub functions: Vec<FunctionEntry>,
}

/// Reads a whole instruction stream, instruction by instruction, from
/// position `pos` on.
pub open spec fn spec_decode_all(bytes: Seq<u8>, pos: nat) -> Result<
    Seq<Instruction>,
    DecodingError,
>
    decreases bytes.len() - pos,
{
    if pos >= bytes.len() {
        Ok(Seq::empty())
    } else {
        match spec_decode(bytes.skip(pos as int)) {
            Err(e) => Err(e),
            Ok((i, n)) => if n == 0 || pos + n > bytes.len() {
                Err(DecodingError::UnexpectedEnd)
            } else {
                match spec_decode_all(bytes, pos + n) {
                    Err(e) => Err(e),
                    Ok(tail) => Ok(seq![i] + tail),
                }
            },
        }
    }
}

/// A successful single-instruction read consumes at least one byte.
proof fn lemma_decode_consumes(bytes: Seq<u8>)
    requires
        spec_decode(bytes) is Ok,
    ensures
        1 <= spec_decode(bytes)->Ok_0.1,
{
}

impl Program {
    /// An empty function table and no instructions.
    pub fn new() -> (r: Program)
        ensures
            r.instructions@ == Seq::<Instruction>::empty(),
            r.functions@ == Seq::<FunctionEntry>::empty(),
    {
        let r = Program { instructions: Vec::new(), functions: Vec::new() };
        proof {
            assert(r.instructions@ =~= Seq::<Instruction>::empty());
            assert(r.functions@ =~= Seq::<FunctionEntry>::empty());
        }
        r
    }

    /// Decodes a whole byte stream into a program with an empty
    /// function table.  Loading is all-or-nothing: a malformed
    /// instruction anywhere refuses the stream.
    pub fn from_bytes(bytes: &[u8]) -> (r: Result<Program, DecodingError>)
        ensures
            match spec_decode_all(bytes@, 0) {
                Ok(instrs) => r is Ok && r->Ok_0.instructions@ == instrs
                    && r->Ok_0.functions@ == Seq::<FunctionEntry>::empty(),
                Err(e) => r == Err::<Program, DecodingError>(e),
            },
    {
        let mut instructions: Vec<Instruction> = Vec::new();
        let mut pos: usize = 0;
        let n = bytes.len();
        proof {
            assert(instructions@ =~= Seq::<Instruction>::empty());
        }
        while pos < n
            invariant
                pos <= n,
                n == bytes@.len(),
                spec_decode_all(bytes@, 0) == (match spec_decode_all(bytes@, pos as nat) {
                    Ok(tail) => Ok::<Seq<Instruction>, DecodingError>(instructions@ + tail),
                    Err(e) => Err::<Seq<Instruction>, DecodingError>(e),
                }),
            decreases n - pos,
        {
            let ghost pre = instructions@;
            let tail = vstd::slice::slice_subrange(bytes, pos, n);
            let (i, used) = match Instruction::decode(tail) {
                Ok(x) => x,
                Err(e) => {
                    return Err(e);
                },
            };
            proof {
                assert(tail@ == bytes@.skip(pos as int));
                lemma_decode_consumes(bytes@.skip(pos as int));
            }
            instructions.push(i);
            pos = pos + used;
            proof {
                assert(pre + seq![i] =~= instructions@);
                if spec_decode_all(bytes@, pos as nat) is Ok {
                    assert(pre + (seq![i] + spec_decode_all(bytes@, pos as nat)->Ok_0)
                        =~= instructions@ + spec_decode_all(bytes@, pos as nat)->Ok_0);
                }
            }
        }
        proof {
            assert(bytes@.skip(pos as int).len() == 0);
            assert(instructions@ + Seq::<Instruction>::empty() =~= instructions@);
        }
        Ok(Program { instructions, functions: Vec::new() })
    }

    /// Appends one function-table entry.
    pub fn define_function(&mut self, entry: FunctionEntry)
        ensures
            final(self).instructions@ == old(self).instructions@,
            final(self).functions@ == old(self).functions@.push(entry),
    {
        self.functions.push(entry);
    }

    /// Looks up a function by its type identifier.
    pub fn function_by_id(&self, type_id: usize) -> (r: Option<FunctionEntry>)
        ensures
            match r {
                Some(e) => self.functions@.contains(e) && e.type_id == type_id,
                None => forall|k: int|
                    0 <= k < self.functions@.len() ==> self.functions@[k].type_id != type_id,
            },
    {
        let n = self.functions.len();
        let mut k: usize = 0;
        while k < n
            invariant
                k <= n,
                n == self.functions@.len(),
                forall|j: int| 0 <= j < k ==> self.functions@[j].type_id != type_id,
            decreases n - k,
        {
            if self.functions[k].type_id == type_id {
                return Some(self.functions[k]);
            }
            k = k + 1;
        }
        None
    }

    /// The ordinary entry point, when the table declares one.
    pub fn main_function(&self) -> (r: Option<FunctionEntry>)
        ensures
            match r {
                Some(e) => self.functions@.contains(e) && e.is_main,
                None => forall|k: int|
                    0 <= k < self.functions@.len() ==> !self.functions@[k].is_main,
            },
    {
        let n = self.functions.len();
        let mut k: usize = 0;
        while k < n
            invariant
                k <= n,
                n == self.functions@.len(),
                forall|j: int| 0 <= j < k ==> !self.functions@[j].is_main,
            decreases n - k,
        {
            if self.functions[k].is_main {
                return Some(self.functions[k]);
            }
            k = k + 1;
        }
        None
    }
}

} // verus!
