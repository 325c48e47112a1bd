//! The output of a program as far as a listener needs it: the machine runs
//! in batches until enough bytes have come, or the batches run out, and
//! what is missing is filled with zeros.

use crate::machine::Machine;
use crate::state::{lemma_run_in_batches, lemma_run_unfold, MachineState};
use vstd::prelude::*;

verus! {

/// The number of batches of `batch` cycles that run from state `s` where
/// `done` batches have run: batches go on until the output is longer than
/// `length` or `limit` batches have run.
pub open spec fn batches(s: MachineState, batch: nat, limit: nat, length: nat, done: nat) -> nat
    decreases limit - done,
{
    if done >= limit {
        done
    } else if s.run_output((done + 1) * batch).len() > length {
        done + 1
    } else {
        batches(s, batch, limit, length, done + 1)
    }
}

/// `output`, with zeros behind it where it is shorter than `length`.
pub open spec fn padded(output: Seq<u8>, length: nat) -> Seq<u8> {
    if output.len() < length {
        output + Seq::new((length - output.len()) as nat, |i: int| 0u8)
    } else {
        output
    }
}

/// What a program puts out in the batches that run.
pub open spec fn produced(program: Seq<u8>, batch: nat, limit: nat, length: nat) -> Seq<u8> {
    let start = MachineState::initial(program);
    start.run_output(batches(start, batch, limit, length, 0) * batch)
}

/// What a preview of a program holds: the output of the batches that run,
/// filled up to `length` bytes.
pub open spec fn previewed(program: Seq<u8>, batch: nat, limit: nat, length: nat) -> Seq<u8> {
    padded(produced(program, batch, limit, length), length)
}

/// Runs a program in batches of `batch` cycles, until it has put out more
/// than `length` bytes or `limit` batches have run, and fills the output
/// with zeros up to `length` bytes.
pub fn preview(program: Vec<u8>, batch: usize, limit: usize, length: usize) -> (output: Vec<u8>)
    requires
        program@.len() > 0,
    ensures
        output@ == previewed(program@, batch as nat, limit as nat, length as nat),
        output@.len() >= length,
{
    let ghost start = MachineState::initial(program@);
    let ghost raw = produced(program@, batch as nat, limit as nat, length as nat);
    let ghost total = batches(start, batch as nat, limit as nat, length as nat, 0);
    let ghost mut cycles: nat = 0;
    let mut machine = Machine::new(program);
    let mut output: Vec<u8> = Vec::new();
    let mut done: usize = 0;
    proof {
        lemma_run_unfold(start, 0);
    }
    while done < limit
        invariant_except_break
            done <= limit,
            cycles == done as nat * batch as nat,
            machine@ == start.run(cycles),
            output@ == start.run_output(cycles),
            batches(start, batch as nat, limit as nat, length as nat, done as nat) == total,
            raw == start.run_output(total * batch as nat),
        ensures
            output@ == raw,
        decreases limit - done,
    {
        let ghost next = cycles + batch as nat;
        proof {
            lemma_run_in_batches(start, cycles, batch as nat);
            assert(next == (done as nat + 1) * batch as nat) by (nonlinear_arith)
                requires
                    cycles == done as nat * batch as nat,
                    next == cycles + batch as nat,
            ;
        }
        machine.run(batch, &mut output);
        done = done + 1;
        proof {
            cycles = next;
        }
        if output.len() > length {
            break ;
        }
    }
    while output.len() < length
        invariant
            raw.len() <= output@.len(),
            output@.len() <= length || output@.len() == raw.len(),
            output@ == raw + Seq::new((output@.len() - raw.len()) as nat, |i: int| 0u8),
        decreases length - output@.len(),
    {
        output.push(0);
    }
    output
}

} // verus!
