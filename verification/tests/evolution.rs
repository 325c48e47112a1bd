use lemurs::machine::Machine;
use lemurs::mutation::{draw_mutation, mutate_program, random_program, Kind, Mutation};
use lemurs::playback::{next_chunk, Chunk, Queued};
use lemurs::population::{next_generation, offspring, selected_indices, Candidate};
use lemurs::preview::preview;

#[test]
fn draws_map_to_kinds() {
    assert_eq!(Kind::from_draw(0), Kind::Insert);
    assert_eq!(Kind::from_draw(1), Kind::Erase);
    for draw in 2..=9 {
        assert_eq!(Kind::from_draw(draw), Kind::Replace);
    }
    for draw in 10..20 {
        assert_eq!(Kind::from_draw(draw), Kind::Flip);
    }
}

#[test]
fn places_of_each_kind() {
    for len in [0usize, 1, 16, 17, 300] {
        assert_eq!(Kind::Insert.count_places(len), len + 1);
        assert_eq!(Kind::Replace.count_places(len), len);
        assert_eq!(Kind::Flip.count_places(len), len);
        assert_eq!(Kind::Erase.count_places(len), if len > 16 { len } else { 0 });
    }
}

#[test]
fn mutations_are_made_from_draws() {
    assert_eq!(Mutation::make(Kind::Insert, 3, 9), Mutation::Insert(3, 9));
    assert_eq!(Mutation::make(Kind::Erase, 3, 9), Mutation::Erase(3));
    assert_eq!(Mutation::make(Kind::Replace, 0, 255), Mutation::Replace(0, 255));
    assert_eq!(Mutation::make(Kind::Flip, 7, 5), Mutation::Flip(7, 5));
}

#[test]
fn mutations_apply() {
    let mut program = vec![1u8, 2, 3];
    Mutation::Insert(0, 9).apply(&mut program);
    assert_eq!(program, vec![9, 1, 2, 3]);
    Mutation::Insert(4, 8).apply(&mut program);
    assert_eq!(program, vec![9, 1, 2, 3, 8]);
    Mutation::Insert(2, 7).apply(&mut program);
    assert_eq!(program, vec![9, 1, 7, 2, 3, 8]);
    Mutation::Erase(0).apply(&mut program);
    assert_eq!(program, vec![1, 7, 2, 3, 8]);
    Mutation::Erase(4).apply(&mut program);
    assert_eq!(program, vec![1, 7, 2, 3]);
    Mutation::Replace(1, 0xF0).apply(&mut program);
    assert_eq!(program, vec![1, 0xF0, 2, 3]);
    Mutation::Flip(1, 7).apply(&mut program);
    assert_eq!(program, vec![1, 0x70, 2, 3]);
    Mutation::Flip(0, 0).apply(&mut program);
    assert_eq!(program, vec![0, 0x70, 2, 3]);
    Mutation::Flip(3, 3).apply(&mut program);
    assert_eq!(program, vec![0, 0x70, 2, 11]);
}

fn permitted(m: Mutation, len: usize) -> bool {
    match m {
        Mutation::Insert(at, _) => at <= len,
        Mutation::Erase(at) => at < len && len > 16,
        Mutation::Replace(at, _) => at < len,
        Mutation::Flip(at, bit) => at < len && bit < 8,
    }
}

#[test]
fn drawn_mutations_are_permitted() {
    let mut kinds = [false; 4];
    for len in [1usize, 2, 16, 17, 300] {
        for _ in 0..2000 {
            match draw_mutation(len) {
                Some(m) => {
                    assert!(permitted(m, len));
                    match m {
                        Mutation::Insert(_, _) => kinds[0] = true,
                        Mutation::Erase(_) => kinds[1] = true,
                        Mutation::Replace(_, _) => kinds[2] = true,
                        Mutation::Flip(_, _) => kinds[3] = true,
                    }
                }
                None => assert!(len <= 16),
            }
        }
    }
    assert_eq!(kinds, [true; 4]);
}

fn one_round_apart(before: &[u8], after: &[u8]) -> bool {
    if after.len() == before.len() + 1 {
        (0..after.len()).any(|at| before[..at] == after[..at] && before[at..] == after[at + 1..])
    } else if after.len() + 1 == before.len() {
        before.len() > 16
            && (0..before.len())
                .any(|at| before[..at] == after[..at] && before[at + 1..] == after[at..])
    } else if after.len() == before.len() {
        before.iter().zip(after.iter()).filter(|(x, y)| x != y).count() <= 1
    } else {
        false
    }
}

#[test]
fn a_mutated_program_is_one_round_away() {
    for len in [1usize, 5, 16, 17, 64] {
        let mut program = random_program(len);
        for _ in 0..3000 {
            let before = program.clone();
            mutate_program(&mut program);
            assert!(one_round_apart(&before, &program));
            assert!(!program.is_empty());
        }
    }
}

#[test]
fn short_programs_do_not_shrink() {
    let mut program = random_program(16);
    for _ in 0..2000 {
        let before = program.len();
        mutate_program(&mut program);
        assert!(program.len() >= before.min(16));
        if program.len() > 16 {
            program.truncate(16);
        }
    }
}

#[test]
fn random_programs_have_the_length_asked_for() {
    assert_eq!(random_program(0).len(), 0);
    assert_eq!(random_program(1).len(), 1);
    assert_eq!(random_program(256).len(), 256);
    let a = random_program(64);
    let b = random_program(64);
    let c = random_program(64);
    assert!(a != b || b != c);
}

fn candidate(program: &[u8], selected: bool) -> Candidate {
    Candidate { program: program.to_vec(), selected }
}

#[test]
fn selected_indices_in_rising_order() {
    let population = vec![
        candidate(&[1], false),
        candidate(&[2], true),
        candidate(&[3], true),
        candidate(&[4], false),
        candidate(&[5], true),
    ];
    assert_eq!(selected_indices(&population), vec![1, 2, 4]);
    assert_eq!(selected_indices(&population[..1].iter().map(|c| candidate(&c.program, c.selected)).collect()), Vec::<usize>::new());
    assert_eq!(selected_indices(&Vec::new()), Vec::<usize>::new());
}

#[test]
fn offspring_without_rounds_is_a_copy() {
    let parent = vec![1u8, 2, 3];
    assert_eq!(offspring(&parent, 0), parent);
    let child = offspring(&parent, 5);
    assert!(!child.is_empty() && child.len() <= 8);
}

#[test]
fn the_next_generation_comes_of_the_selected() {
    let population = vec![
        candidate(&[1, 1], false),
        candidate(&[2, 2], true),
        candidate(&[3, 3], false),
        candidate(&[4, 4], true),
    ];
    let children = next_generation(&population, 200, 0);
    assert_eq!(children.len(), 200);
    assert!(children.iter().all(|c| c == &vec![2, 2] || c == &vec![4, 4]));
    assert!(children.iter().any(|c| c == &vec![2, 2]));
    assert!(children.iter().any(|c| c == &vec![4, 4]));
    assert_eq!(next_generation(&population, 0, 3).len(), 0);
    let mutants = next_generation(&population, 50, 8);
    assert_eq!(mutants.len(), 50);
    assert!(mutants.iter().all(|c| !c.is_empty() && c.len() <= 10));
}

#[test]
fn where_none_is_selected_all_have_offspring() {
    let population = vec![candidate(&[1], false), candidate(&[2], false), candidate(&[3], false)];
    let children = next_generation(&population, 300, 0);
    assert_eq!(children.len(), 300);
    for byte in 1..=3u8 {
        assert!(children.iter().any(|c| c == &vec![byte]));
    }
    assert!(children.iter().all(|c| c.len() == 1 && (1..=3).contains(&c[0])));
}

#[test]
fn a_preview_runs_in_batches_and_is_filled_with_zeros() {
    // Two bytes a cycle.
    let program = vec![0x10u8];
    assert_eq!(preview(program.clone(), 3, 10, 4), vec![0; 6]);
    // One byte a cycle; register zero holds zero.
    let silent = vec![0x00u8];
    assert_eq!(preview(silent.clone(), 3, 2, 4), vec![0; 6]);
    assert_eq!(preview(silent.clone(), 3, 1, 4), vec![0; 4]);
    assert_eq!(preview(silent.clone(), 3, 0, 4), vec![0; 4]);
    assert_eq!(preview(silent.clone(), 0, 5, 2), vec![0; 2]);
    assert_eq!(preview(silent, 2, 100, 4), vec![0; 6]);
    // A program that never puts anything out.
    assert_eq!(preview(vec![0x60, 0x00, 0x00], 10, 10, 5), vec![0; 5]);
}

#[test]
fn a_preview_is_the_output_of_the_machine() {
    let program = vec![
        0xD0, 0x11, 0x00, 0x00, 0x00, 0x07, // r1 <- r1 + 7, wrapping
        0x01, // output r1
    ];
    let output = preview(program.clone(), 5, 100, 20);
    let mut machine = Machine::new(program);
    let mut expected: Vec<u8> = Vec::new();
    while expected.len() <= 20 {
        machine.run(5, &mut expected);
    }
    assert_eq!(output, expected);
    assert_eq!(&output[..3], &[7, 14, 21]);
}

#[test]
fn queued_output_is_sent_once() {
    let mut queued = Queued::new();
    assert_eq!(queued.current, None);
    assert!(queued.select(3));
    assert_eq!(queued.current, Some(3));
    assert!(!queued.select(3));
    assert!(queued.select(4));
    assert!(queued.select(3));
    assert!(!queued.select(3));
}

#[test]
fn chunks_of_an_output() {
    assert_eq!(next_chunk(10, 0, 4), Chunk { from: 0, to: 4, next: Some(4) });
    assert_eq!(next_chunk(10, 4, 4), Chunk { from: 4, to: 8, next: Some(8) });
    assert_eq!(next_chunk(10, 8, 4), Chunk { from: 8, to: 9, next: None });
    assert_eq!(next_chunk(8, 4, 4), Chunk { from: 4, to: 7, next: None });
    assert_eq!(next_chunk(9, 4, 4), Chunk { from: 4, to: 8, next: Some(8) });
    assert_eq!(next_chunk(9, 8, 4), Chunk { from: 8, to: 8, next: None });
    assert_eq!(next_chunk(1, 0, 4096), Chunk { from: 0, to: 0, next: None });
    assert_eq!(next_chunk(5, 2, 0), Chunk { from: 2, to: 2, next: Some(2) });
    assert_eq!(
        next_chunk(usize::MAX, usize::MAX - 1, usize::MAX),
        Chunk { from: usize::MAX - 1, to: usize::MAX - 1, next: None }
    );
}
