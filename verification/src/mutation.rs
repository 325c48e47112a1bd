//! Random changes to a program: a byte inserted, erased or replaced, or one
//! bit flipped.

use rand::Rng;
use vstd::prelude::*;

verus! {

/// Out of this many draws one inserts a byte, one erases a byte, eight
/// replace a byte and ten flip a bit.
pub const DRAWS: usize = 20;

/// A program of at most this many bytes has no byte erased.
pub const SHORTEST_ERASABLE: usize = 16;

/// What a mutation does.
#[derive(Clone, Copy, Debug, PartialEq, Eq, Structural)]
pub enum Kind {
    Insert,
    Erase,
    Replace,
    Flip,
}

/// A change to a program.
#[derive(Clone, Copy, Debug, PartialEq, Eq, Structural)]
pub enum Mutation {
    /// Insert the byte before the index.
    Insert(usize, u8),
    /// Erase the byte at the index.
    Erase(usize),
    /// Replace the byte at the index by the given one.
    Replace(usize, u8),
    /// Flip, in the byte at the index, the bit of the given number.
    Flip(usize, u8),
}

impl Kind {
    /// The kind that a draw below `DRAWS` stands for.
    pub open spec fn of(draw: nat) -> Kind {
        if draw == 0 {
            Kind::Insert
        } else if draw == 1 {
            Kind::Erase
        } else if draw <= 9 {
            Kind::Replace
        } else {
            Kind::Flip
        }
    }

    /// The kind that a draw stands for.
    pub fn from_draw(draw: usize) -> (kind: Kind)
        ensures
            kind == Kind::of(draw as nat),
    {
        if draw == 0 {
            Kind::Insert
        } else if draw == 1 {
            Kind::Erase
        } else if draw <= 9 {
            Kind::Replace
        } else {
            Kind::Flip
        }
    }
}

impl Mutation {
    /// The mutation can be applied to a program of `len` bytes: its index
    /// lies in the program, or at its end for an insertion, and its bit in
    /// the byte.
    pub open spec fn fits(self, len: nat) -> bool {
        match self {
            Mutation::Insert(at, _) => at <= len,
            Mutation::Erase(at) => at < len,
            Mutation::Replace(at, _) => at < len,
            Mutation::Flip(at, bit) => at < len && bit < 8,
        }
    }

    /// The mutation may be drawn for a program of `len` bytes: it can be
    /// applied, and it erases nothing from a short program.
    pub open spec fn permitted(self, len: nat) -> bool {
        self.fits(len) && (self is Erase ==> len > SHORTEST_ERASABLE)
    }

    /// The program after the mutation.
    pub open spec fn applied(self, program: Seq<u8>) -> Seq<u8> {
        match self {
            Mutation::Insert(at, byte) => program.insert(at as int, byte),
            Mutation::Erase(at) => program.remove(at as int),
            Mutation::Replace(at, byte) => program.update(at as int, byte),
            Mutation::Flip(at, bit) => program.update(at as int, program[at as int] ^ (1u8 << bit)),
        }
    }

    /// Applies the mutation to a program.
    pub fn apply(self, program: &mut Vec<u8>)
        requires
            self.fits(old(program)@.len()),
        ensures
            final(program)@ == self.applied(old(program)@),
    {
        match self {
            Mutation::Insert(at, byte) => {
                program.insert(at, byte);
            },
            Mutation::Erase(at) => {
                program.remove(at);
            },
            Mutation::Replace(at, byte) => {
                program[at] = byte;
            },
            Mutation::Flip(at, bit) => {
                let flipped = program[at] ^ (1u8 << bit);
                program[at] = flipped;
            },
        }
    }
}

/// `after` is what one round of mutation can make of `before`: the result
/// of a permitted mutation, or `before` itself where it is too short to
/// have a byte erased.
pub open spec fn mutated(before: Seq<u8>, after: Seq<u8>) -> bool {
    ||| before.len() <= SHORTEST_ERASABLE && after == before
    ||| exists|m: Mutation| m.permitted(before.len()) && after == #[trigger] m.applied(before)
}

/// A mutation changes the length of a program by one at most and leaves no
/// program empty that was not.
pub proof fn lemma_mutated_len(before: Seq<u8>, after: Seq<u8>)
    requires
        mutated(before, after),
    ensures
        after.len() <= before.len() + 1,
        before.len() <= after.len() + 1,
        before.len() > 0 ==> after.len() > 0,
{
}

/// A number below `bound`, drawn by `rand::Rng::gen_range` from the
/// generator of the thread, `rand::thread_rng`. The range from zero up to
/// and without `bound` is not empty, so the draw does not panic, and it
/// lies in the range. Which number comes is not said.
#[verifier::external_body]
pub(crate) fn random_below(bound: usize) -> (n: usize)
    requires
        bound > 0,
    ensures
        n < bound,
{
    rand::thread_rng().gen_range(0..bound)
}

/// A byte drawn by `rand::Rng::gen` from the generator of the thread,
/// `rand::thread_rng`. Nothing is said of the byte.
#[verifier::external_body]
fn random_byte() -> u8 {
    rand::thread_rng().gen()
}

/// Draws a mutation for a program of `len` bytes; none where an erasure is
/// drawn for a short program.
pub fn draw_mutation(len: usize) -> (drawn: Option<Mutation>)
    requires
        0 < len < usize::MAX,
    ensures
        match drawn {
            Some(m) => m.permitted(len as nat),
            None => len <= SHORTEST_ERASABLE,
        },
{
    let kind = Kind::from_draw(random_below(DRAWS));
    let places = kind.count_places(len);
    if places == 0 {
        return None;
    }
    let at = random_below(places);
    let value = match kind {
        Kind::Insert => random_byte(),
        Kind::Erase => 0,
        Kind::Replace => random_byte(),
        Kind::Flip => random_below(8) as u8,
    };
    Some(Mutation::make(kind, at, value))
}

/// Changes a program by one random mutation.
pub fn mutate_program(program: &mut Vec<u8>)
    requires
        0 < old(program)@.len() < usize::MAX,
    ensures
        mutated(old(program)@, final(program)@),
{
    match draw_mutation(program.len()) {
        Some(m) => {
            m.apply(program);
        },
        None => {},
    }
}

/// A program of `length` random bytes.
pub fn random_program(length: usize) -> (program: Vec<u8>)
    ensures
        program@.len() == length,
{
    let mut program: Vec<u8> = Vec::new();
    let mut i: usize = 0;
    while i < length
        invariant
            i <= length,
            program@.len() == i,
        decreases length - i,
    {
        program.push(random_byte());
        i = i + 1;
    }
    program
}

impl Kind {
    /// The number of places at which a mutation of this kind may be made in
    /// a program of `len` bytes: before every byte and behind the last for
    /// an insertion, at every byte for the other kinds, and nowhere for an
    /// erasure from a short program.
    pub open spec fn places(self, len: nat) -> nat {
        match self {
            Kind::Insert => len + 1,
            Kind::Erase => if len > SHORTEST_ERASABLE {
                len
            } else {
                0
            },
            Kind::Replace => len,
            Kind::Flip => len,
        }
    }

    /// Counts the places at which a mutation of this kind may be made in a
    /// program of `len` bytes.
    pub fn count_places(self, len: usize) -> (n: usize)
        requires
            len < usize::MAX,
        ensures
            n == self.places(len as nat),
    {
        match self {
            Kind::Insert => len + 1,
            Kind::Erase => if len > SHORTEST_ERASABLE {
                len
            } else {
                0
            },
            Kind::Replace => len,
            Kind::Flip => len,
        }
    }
}

impl Mutation {
    /// The mutation of a kind at a place, with the value drawn for it: the
    /// byte that is inserted or that replaces another, or the number of the
    /// bit that is flipped. An erasure has no use for the value.
    pub open spec fn of(kind: Kind, at: usize, value: u8) -> Mutation {
        match kind {
            Kind::Insert => Mutation::Insert(at, value),
            Kind::Erase => Mutation::Erase(at),
            Kind::Replace => Mutation::Replace(at, value),
            Kind::Flip => Mutation::Flip(at, value),
        }
    }

    /// Makes the mutation of a kind at a place from the value drawn for it.
    pub fn make(kind: Kind, at: usize, value: u8) -> (m: Mutation)
        ensures
            m == Mutation::of(kind, at, value),
    {
        match kind {
            Kind::Insert => Mutation::Insert(at, value),
            Kind::Erase => Mutation::Erase(at),
            Kind::Replace => Mutation::Replace(at, value),
            Kind::Flip => Mutation::Flip(at, value),
        }
    }
}

/// A mutation made at one of the places of its kind, from a bit number
/// below eight where it is a flip, is permitted.
pub proof fn lemma_made_is_permitted(kind: Kind, at: usize, value: u8, len: nat)
    requires
        at < kind.places(len),
        kind is Flip ==> value < 8,
    ensures
        Mutation::of(kind, at, value).permitted(len),
{
}

/// Every permitted mutation is made so: what may be drawn for a program
/// is each permitted mutation, and nothing else.
pub proof fn lemma_permitted_is_made(m: Mutation, len: nat)
    requires
        m.permitted(len),
    ensures
        exists|kind: Kind, at: usize, value: u8|
            at < kind.places(len) && (kind is Flip ==> value < 8) && m == #[trigger] Mutation::of(
                kind,
                at,
                value,
            ),
{
    match m {
        Mutation::Insert(at, byte) => {
            assert(m == Mutation::of(Kind::Insert, at, byte));
        },
        Mutation::Erase(at) => {
            assert(m == Mutation::of(Kind::Erase, at, 0));
        },
        Mutation::Replace(at, byte) => {
            assert(m == Mutation::of(Kind::Replace, at, byte));
        },
        Mutation::Flip(at, bit) => {
            assert(m == Mutation::of(Kind::Flip, at, bit));
        },
    }
}

} // verus!
