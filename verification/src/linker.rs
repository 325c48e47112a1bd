//! The two passes of the assembler over a program text.

use crate::assembler::{
    assembled,
    code_part,
    definitions,
    has_undefined,
    image,
    layout,
    linked,
    lookup,
    offset_bytes,
    references,
    resolved,
    size,
    statement,
    statements,
    AssembleError,
    Entry,
    Statement,
};
use crate::bytes::u16_to_be;
use crate::parser::{parse_statement, Line};
use crate::text::{lines, same_word, scan, split_words, words, Class};
use vstd::prelude::*;
use vstd::slice::slice_subrange;

verus! {

/// A name with an offset in the code: a label with the place where it is
/// defined, or a reference with the place of its address bytes.
pub struct Mark {
    pub name: Vec<char>,
    pub offset: usize,
}

impl View for Mark {
    type V = Entry;

    open spec fn view(&self) -> Entry {
        (self.name@, self.offset as nat)
    }
}

/// What a sequence of marks holds.
pub open spec fn entries(marks: Seq<Mark>) -> Seq<Entry> {
    Seq::new(marks.len(), |i: int| marks[i]@)
}

/// `code` with the two address bytes at `location` set to those of
/// `offset`.
pub open spec fn patch(code: Seq<u8>, location: int, offset: nat) -> Seq<u8> {
    code.update(location, offset_bytes(offset)[0]).update(location + 1, offset_bytes(offset)[1])
}

/// `code` after the first `k` references were resolved against `table`,
/// one after the other.
pub open spec fn patched(code: Seq<u8>, uses: Seq<Entry>, table: Seq<Entry>, k: nat) -> Seq<u8>
    decreases k,
{
    if k == 0 {
        code
    } else {
        patch(
            patched(code, uses, table, (k - 1) as nat),
            uses[k - 1].1 as int,
            lookup(table, uses[k - 1].0).unwrap_or(0),
        )
    }
}

/// Every statement of a program is well-formed.
pub open spec fn all_wf(program: Seq<Statement>) -> bool {
    forall|i: int| 0 <= i < program.len() ==> (#[trigger] program[i]).wf()
}

/// Without its last statement a well-formed program is well-formed, and
/// so is the last statement.
pub proof fn lemma_wf_before(program: Seq<Statement>)
    requires
        all_wf(program),
        program.len() > 0,
    ensures
        all_wf(program.drop_last()),
        program.last().wf(),
{
    let before = program.drop_last();
    assert forall|i: int| 0 <= i < before.len() implies (#[trigger] before[i]).wf() by {
        assert(before[i] == program[i]);
    }
}

/// The statement of a line, where it has one, is well-formed.
pub proof fn lemma_statement_wf(operands: Seq<Seq<char>>)
    ensures
        statement(operands) matches Ok(s) ==> s.wf(),
{
}

/// An error in the statements of some lines is the error of every text
/// that begins with those lines.
pub proof fn lemma_statements_error(before: Seq<Seq<char>>, after: Seq<Seq<char>>)
    requires
        statements(before) is Err,
    ensures
        statements(before + after) == statements(before),
    decreases after.len(),
{
    if after.len() > 0 {
        lemma_statements_error(before, after.drop_last());
        assert((before + after).drop_last() =~= before + after.drop_last());
    }
}

/// The code that the first pass lays out has the size of the program.
pub proof fn lemma_layout_len(program: Seq<Statement>)
    ensures
        layout(program).len() == size(program),
    decreases program.len(),
{
    if program.len() > 0 {
        lemma_layout_len(program.drop_last());
    }
}

/// The resolved code has the size of the program.
pub proof fn lemma_image_len(program: Seq<Statement>, table: Seq<Entry>)
    requires
        all_wf(program),
    ensures
        image(program, table).len() == size(program),
    decreases program.len(),
{
    if program.len() > 0 {
        let before = program.drop_last();
        lemma_wf_before(program);
        lemma_image_len(before, table);
    }
}

/// The address bytes of every reference lie inside the code, behind the
/// first byte of an instruction.
pub proof fn lemma_references_inside(program: Seq<Statement>)
    requires
        all_wf(program),
    ensures
        forall|j: int|
            0 <= j < references(program).len() ==> 1 <= (#[trigger] references(program)[j]).1
                && references(program)[j].1 + 2 <= size(program),
    decreases program.len(),
{
    if program.len() > 0 {
        let before = program.drop_last();
        lemma_wf_before(program);
        lemma_references_inside(before);
        assert forall|j: int| 0 <= j < references(program).len() implies 1 <= (
        #[trigger] references(program)[j]).1 && references(program)[j].1 + 2 <= size(program) by {
            if j < references(before).len() {
                assert(references(program)[j] == references(before)[j]);
            }
        }
    }
}

/// Resolving references keeps the length of the code.
pub proof fn lemma_patched_len(code: Seq<u8>, uses: Seq<Entry>, table: Seq<Entry>, k: nat)
    requires
        k <= uses.len(),
        forall|j: int| 0 <= j < k ==> (#[trigger] uses[j]).1 + 2 <= code.len(),
    ensures
        patched(code, uses, table, k).len() == code.len(),
    decreases k,
{
    if k > 0 {
        lemma_patched_len(code, uses, table, (k - 1) as nat);
    }
}

/// Resolving references inside the code leaves what follows the code as
/// it is.
pub proof fn lemma_patched_append(
    code: Seq<u8>,
    more: Seq<u8>,
    uses: Seq<Entry>,
    table: Seq<Entry>,
    k: nat,
)
    requires
        k <= uses.len(),
        forall|j: int| 0 <= j < k ==> (#[trigger] uses[j]).1 + 2 <= code.len(),
    ensures
        patched(code + more, uses, table, k) == patched(code, uses, table, k) + more,
    decreases k,
{
    if k > 0 {
        let j = (k - 1) as nat;
        lemma_patched_append(code, more, uses, table, j);
        lemma_patched_len(code, uses, table, j);
        let inner = patched(code, uses, table, j);
        let offset = lookup(table, uses[j as int].0).unwrap_or(0);
        assert(patch(inner + more, uses[j as int].1 as int, offset) =~= patch(
            inner,
            uses[j as int].1 as int,
            offset,
        ) + more);
    }
}

/// The first `k` references are resolved alike whatever references follow
/// them.
pub proof fn lemma_patched_more_uses(
    code: Seq<u8>,
    uses: Seq<Entry>,
    last: Entry,
    table: Seq<Entry>,
    k: nat,
)
    requires
        k <= uses.len(),
    ensures
        patched(code, uses.push(last), table, k) == patched(code, uses, table, k),
    decreases k,
{
    if k > 0 {
        lemma_patched_more_uses(code, uses, last, table, (k - 1) as nat);
    }
}

/// Writing the offset of its label into every reference, one after the
/// other, gives the code in which every statement stands resolved.
pub proof fn lemma_patched_is_image(program: Seq<Statement>, table: Seq<Entry>)
    requires
        all_wf(program),
    ensures
        patched(layout(program), references(program), table, references(program).len()) == image(
            program,
            table,
        ),
    decreases program.len(),
{
    if program.len() > 0 {
        let before = program.drop_last();
        let s = program.last();
        lemma_wf_before(program);
        let uses = references(before);
        let n = uses.len();
        lemma_patched_is_image(before, table);
        lemma_references_inside(before);
        lemma_layout_len(before);
        lemma_image_len(before, table);
        lemma_patched_append(layout(before), s.code, uses, table, n);
        match s.target {
            None => {},
            Some(name) => {
                let entry = (name, size(before) + 1);
                lemma_patched_more_uses(layout(program), uses, entry, table, n);
                let offset = lookup(table, name).unwrap_or(0);
                assert(patch(image(before, table) + s.code, size(before) as int + 1, offset) =~= image(
                    before,
                    table,
                ) + resolved(s, table));
            },
        }
    }
}

/// The statements before index `i` take no more room than the whole
/// program without the room of the statement at `i`.
pub proof fn lemma_size_take(program: Seq<Statement>, i: int)
    requires
        0 <= i < program.len(),
    ensures
        size(program.take(i)) + program[i].code.len() <= size(program),
    decreases program.len(),
{
    let before = program.drop_last();
    if i < program.len() - 1 {
        lemma_size_take(before, i);
        assert(before.take(i) =~= program.take(i));
    }
}

/// In the resolved code every statement stands at the offset that the
/// statements before it take up.
pub proof fn lemma_image_at(program: Seq<Statement>, table: Seq<Entry>, i: int)
    requires
        all_wf(program),
        0 <= i < program.len(),
    ensures
        size(program.take(i)) + program[i].code.len() <= image(program, table).len(),
        image(program, table).subrange(
            size(program.take(i)) as int,
            size(program.take(i)) as int + program[i].code.len(),
        ) == resolved(program[i], table),
    decreases program.len(),
{
    let before = program.drop_last();
    lemma_wf_before(program);
    lemma_image_len(program, table);
    lemma_image_len(before, table);
    lemma_size_take(program, i);
    let at = size(program.take(i)) as int;
    let n = program[i].code.len() as int;
    if i < program.len() - 1 {
        lemma_image_at(before, table, i);
        lemma_size_take(before, i);
        assert(before.take(i) =~= program.take(i));
        assert(image(program, table).subrange(at, at + n) =~= image(before, table).subrange(
            at,
            at + n,
        ));
    }
}

/// Where a label is defined does not enter the encoding of an instruction
/// that refers to it. Two instructions of a program with the same first
/// byte, each referring to a label, stand in the assembled code as the
/// same three bytes whenever their labels resolve to the same offset: be
/// the one label defined before its reference and the other after it.
pub proof fn lemma_reference_encoding(program: Seq<Statement>, i: int, j: int)
    requires
        all_wf(program),
        0 <= i < program.len(),
        0 <= j < program.len(),
        program[i].target is Some,
        program[j].target is Some,
        program[i].code[0] == program[j].code[0],
        lookup(definitions(program), program[i].target->0) == lookup(
            definitions(program),
            program[j].target->0,
        ),
        linked(program) is Ok,
    ensures
        size(program.take(i)) + 3 <= linked(program)->Ok_0.len(),
        size(program.take(j)) + 3 <= linked(program)->Ok_0.len(),
        linked(program)->Ok_0.subrange(
            size(program.take(i)) as int,
            size(program.take(i)) as int + 3,
        ) == linked(program)->Ok_0.subrange(
            size(program.take(j)) as int,
            size(program.take(j)) as int + 3,
        ),
{
    let table = definitions(program);
    lemma_image_at(program, table, i);
    lemma_image_at(program, table, j);
}

/// An instruction that refers to a label stands in the assembled code as
/// its first byte followed by the low 16 bits of the offset at which the
/// label was last defined, the high byte first.
pub proof fn lemma_reference_resolved(program: Seq<Statement>, i: int)
    requires
        all_wf(program),
        0 <= i < program.len(),
        program[i].target is Some,
        linked(program) is Ok,
    ensures
        lookup(definitions(program), program[i].target->0) is Some,
        size(program.take(i)) + 3 <= linked(program)->Ok_0.len(),
        linked(program)->Ok_0.subrange(
            size(program.take(i)) as int,
            size(program.take(i)) as int + 3,
        ) == seq![program[i].code[0]] + offset_bytes(
            lookup(definitions(program), program[i].target->0)->0,
        ),
{
    let table = definitions(program);
    lemma_image_at(program, table, i);
    lemma_reference_listed(program, i);
}

/// The label that a statement refers to is among the references of the
/// program.
pub proof fn lemma_reference_listed(program: Seq<Statement>, i: int)
    requires
        0 <= i < program.len(),
        program[i].target is Some,
    ensures
        exists|k: int|
            0 <= k < references(program).len() && (#[trigger] references(program)[k]).0
                == program[i].target->0,
    decreases program.len(),
{
    let before = program.drop_last();
    if i == program.len() - 1 {
        let k = references(program).len() - 1;
        assert(references(program)[k].0 == program[i].target->0);
    } else {
        lemma_reference_listed(before, i);
        let k = choose|k: int|
            0 <= k < references(before).len() && (#[trigger] references(before)[k]).0
                == before[i].target->0;
        assert(references(program)[k] == references(before)[k]);
    }
}

/// Looks up the offset of a label: that of its last definition.
pub fn find_label(labels: &Vec<Mark>, name: &[char]) -> (found: Option<usize>)
    ensures
        match found {
            Some(offset) => lookup(entries(labels@), name@) == Some(offset as nat),
            None => lookup(entries(labels@), name@) is None,
        },
{
    let mut i = labels.len();
    assert(entries(labels@).take(i as int) =~= entries(labels@));
    while i > 0
        invariant
            i <= labels@.len(),
            lookup(entries(labels@), name@) == lookup(entries(labels@).take(i as int), name@),
        decreases i,
    {
        i = i - 1;
        let ghost upto = entries(labels@).take(i + 1);
        assert(upto.drop_last() =~= entries(labels@).take(i as int));
        if same_word(labels[i].name.as_slice(), name) {
            return Some(labels[i].offset);
        }
    }
    None
}

/// Assembles a program text.
pub fn assemble_text(text: &[char]) -> (r: Result<Vec<u8>, AssembleError>)
    ensures
        match r {
            Ok(code) => assembled(text@) == Ok::<Seq<u8>, AssembleError>(code@),
            Err(e) => assembled(text@) == Err::<Seq<u8>, AssembleError>(e),
        },
{
    let mut code: Vec<u8> = Vec::new();
    let mut labels: Vec<Mark> = Vec::new();
    let mut uses: Vec<Mark> = Vec::new();
    let ghost mut done: Seq<Seq<char>> = Seq::empty();
    let ghost mut program: Seq<Statement> = Seq::empty();
    let mut at: usize = 0;
    let mut more = true;
    proof {
        assert(text@.skip(0) =~= text@);
        assert(done + lines(text@) =~= lines(text@));
        assert(entries(labels@) =~= definitions(program));
        assert(entries(uses@) =~= references(program));
    }
    while more
        invariant
            at <= text@.len(),
            more ==> lines(text@) == done + lines(text@.skip(at as int)),
            !more ==> lines(text@) == done,
            statements(done) == Ok::<Seq<Statement>, AssembleError>(program),
            all_wf(program),
            code@ == layout(program),
            entries(labels@) == definitions(program),
            entries(uses@) == references(program),
        decreases
                text@.len() - at + if more {
                    1int
                } else {
                    0
                },
    {
        let end = scan(text, at, Class::Except('\n'));
        let line = slice_subrange(text, at, end);
        let stop = scan(line, 0, Class::Except(';'));
        let part = slice_subrange(line, 0, stop);
        let operands = split_words(part);
        let ghost tail = text@.skip(at as int);
        let ghost rest = if end < text@.len() {
            lines(text@.skip(end + 1))
        } else {
            Seq::<Seq<char>>::empty()
        };
        proof {
            assert(line@ =~= tail.take(end - at));
            if end < text@.len() {
                assert(tail.skip(end - at + 1) =~= text@.skip(end + 1));
            }
            assert(done + (seq![line@] + rest) =~= done.push(line@) + rest);
            assert(line@.skip(0) =~= line@);
            assert(done.push(line@).drop_last() =~= done);
            lemma_statement_wf(words(part@));
            lemma_layout_len(program);
        }
        match parse_statement(&operands) {
            Err(e) => {
                proof {
                    lemma_statements_error(done.push(line@), rest);
                }
                return Err(e);
            },
            Ok(parsed) => {
                let ghost s = parsed@;
                let ghost before = program;
                let Line { label, code: mut bytes, target } = parsed;
                match label {
                    Some(name) => {
                        labels.push(Mark { name, offset: code.len() });
                    },
                    None => {},
                }
                code.append(&mut bytes);
                match target {
                    Some(name) => {
                        uses.push(Mark { name, offset: code.len() - 2 });
                    },
                    None => {},
                }
                proof {
                    program = before.push(s);
                    done = done.push(line@);
                    assert(program.drop_last() =~= before);
                }
            },
        }
        if end < text.len() {
            at = end + 1;
        } else {
            more = false;
        }
    }
    let ghost table = definitions(program);
    let ghost targets = references(program);
    proof {
        lemma_references_inside(program);
        lemma_layout_len(program);
    }
    let mut k: usize = 0;
    while k < uses.len()
        invariant
            k <= uses@.len(),
            statements(lines(text@)) == Ok::<Seq<Statement>, AssembleError>(program),
            table == definitions(program),
            targets == references(program),
            entries(uses@) == targets,
            entries(labels@) == table,
            code@.len() == size(program),
            code@ == patched(layout(program), targets, table, k as nat),
            forall|j: int| 0 <= j < k ==> lookup(table, (#[trigger] targets[j]).0) is Some,
            forall|j: int|
                0 <= j < targets.len() ==> 1 <= (#[trigger] targets[j]).1 && targets[j].1 + 2
                    <= size(program),
        decreases uses@.len() - k,
    {
        assert(targets[k as int] == uses@[k as int]@);
        let location = uses[k].offset;
        assert(location == targets[k as int].1 && location + 2 <= code.len());
        match find_label(&labels, uses[k].name.as_slice()) {
            None => {
                return Err(AssembleError::UndefinedLabel);
            },
            Some(offset) => {
                let bytes = u16_to_be((offset % 0x1_0000) as u16);
                let next = location + 1;
                code[location] = bytes[0];
                code[next] = bytes[1];
            },
        }
        k = k + 1;
    }
    proof {
        lemma_patched_is_image(program, table);
    }
    Ok(code)
}

} // verus!
