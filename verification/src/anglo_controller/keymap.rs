//! Which note each button plays: the anglo concertina sounds a different note for a button
//! depending on whether the bellows are pushed or pulled. Buttons are numbered as the
//! keyboards report them, bit 0 first.
use vstd::prelude::*;
use crate::midi::Note;
use crate::anglo_controller::bellows::Direction;

verus! {

/// The number of buttons on the left keyboard.
pub const NUM_LEFT: usize = 15;

/// The number of buttons on the right keyboard.
pub const NUM_RIGHT: usize = 15;

/// A keyboard of the instrument.
#[derive(Debug, Clone, Copy, PartialEq, Eq)]
pub enum Side {
    Left,
    Right,
}

/// The notes of the left keyboard's buttons while the bellows are pushed.
pub open spec fn left_push() -> Seq<Note> {
    seq![Note::E3, Note::A3, Note::Db4, Note::A4, Note::Ab4, Note::C3, Note::G3, Note::C4, Note::E4, Note::G4, Note::B3, Note::D4, Note::G4, Note::B4, Note::D5]
}

/// The notes of the left keyboard's buttons while the bellows are pulled.
pub open spec fn left_pull() -> Seq<Note> {
    seq![Note::F3, Note::Bb3, Note::Eb4, Note::G4, Note::Bb4, Note::G3, Note::B3, Note::D4, Note::F4, Note::A4, Note::A3, Note::Gb4, Note::A4, Note::C5, Note::E5]
}

/// The notes of the right keyboard's buttons while the bellows are pushed.
pub open spec fn right_push() -> Seq<Note> {
    seq![Note::Db5, Note::A5, Note::Ab5, Note::Db6, Note::A6, Note::C5, Note::E5, Note::G5, Note::C6, Note::E6, Note::G5, Note::B5, Note::D6, Note::G6, Note::B6]
}

/// The notes of the right keyboard's buttons while the bellows are pulled.
pub open spec fn right_pull() -> Seq<Note> {
    seq![Note::Eb5, Note::G5, Note::Bb5, Note::Eb6, Note::F6, Note::B4, Note::D5, Note::F5, Note::A5, Note::B5, Note::Gb5, Note::A5, Note::C6, Note::E6, Note::Gb6]
}

/// The notes of a keyboard's buttons for a bellows direction; still bellows play nothing.
pub open spec fn keymap(side: Side, direction: Direction) -> Seq<Note> {
    match (side, direction) {
        (_, Direction::Still) => Seq::empty(),
        (Side::Left, Direction::Push) => left_push(),
        (Side::Left, Direction::Pull) => left_pull(),
        (Side::Right, Direction::Push) => right_push(),
        (Side::Right, Direction::Pull) => right_pull(),
    }
}

/// The notes of the left keyboard's buttons while the bellows are pushed.
pub fn left_push_notes() -> (r: [Note; 15])
    ensures
        r@ == left_push(),
{
    let r = [Note::E3, Note::A3, Note::Db4, Note::A4, Note::Ab4, Note::C3, Note::G3, Note::C4, Note::E4, Note::G4, Note::B3, Note::D4, Note::G4, Note::B4, Note::D5];
    assert(r@ =~= left_push());
    r
}

/// The notes of the left keyboard's buttons while the bellows are pulled.
pub fn left_pull_notes() -> (r: [Note; 15])
    ensures
        r@ == left_pull(),
{
    let r = [Note::F3, Note::Bb3, Note::Eb4, Note::G4, Note::Bb4, Note::G3, Note::B3, Note::D4, Note::F4, Note::A4, Note::A3, Note::Gb4, Note::A4, Note::C5, Note::E5];
    assert(r@ =~= left_pull());
    r
}

/// The notes of the right keyboard's buttons while the bellows are pushed.
pub fn right_push_notes() -> (r: [Note; 15])
    ensures
        r@ == right_push(),
{
    let r = [Note::Db5, Note::A5, Note::Ab5, Note::Db6, Note::A6, Note::C5, Note::E5, Note::G5, Note::C6, Note::E6, Note::G5, Note::B5, Note::D6, Note::G6, Note::B6];
    assert(r@ =~= right_push());
    r
}

/// The notes of the right keyboard's buttons while the bellows are pulled.
pub fn right_pull_notes() -> (r: [Note; 15])
    ensures
        r@ == right_pull(),
{
    let r = [Note::Eb5, Note::G5, Note::Bb5, Note::Eb6, Note::F6, Note::B4, Note::D5, Note::F5, Note::A5, Note::B5, Note::Gb5, Note::A5, Note::C6, Note::E6, Note::Gb6];
    assert(r@ =~= right_pull());
    r
}

/// The notes of a keyboard's buttons for a bellows direction.
pub fn notes(side: Side, direction: Direction) -> (r: Vec<Note>)
    ensures
        r@ == keymap(side, direction),
{
    let row: [Note; 15] = match (side, direction) {
        (_, Direction::Still) => return Vec::new(),
        (Side::Left, Direction::Push) => left_push_notes(),
        (Side::Left, Direction::Pull) => left_pull_notes(),
        (Side::Right, Direction::Push) => right_push_notes(),
        (Side::Right, Direction::Pull) => right_pull_notes(),
    };
    let mut r: Vec<Note> = Vec::new();
    let mut i: usize = 0;
    while i < 15
        invariant
            i <= 15,
            r@ == row@.subrange(0, i as int),
        decreases 15 - i,
    {
        r.push(row[i]);
        assert(row@.subrange(0, i + 1) =~= row@.subrange(0, i as int).push(row@[i as int]));
        i += 1;
    }
    assert(row@.subrange(0, 15) =~= row@);
    r
}

/// The MIDI note number each button plays.
pub open spec fn note_numbers(notes: Seq<Note>) -> Seq<u8> {
    notes.map_values(|n: Note| n.spec_number())
}

/// The instrument's layout, by MIDI note number, button by button from bit 0: what each
/// keyboard plays pushed and pulled. Still bellows play nothing.
pub proof fn lemma_keymap_layout(side: Side)
    ensures
        note_numbers(keymap(Side::Left, Direction::Push)) == seq![52u8, 57u8, 61u8, 69u8, 68u8, 48u8, 55u8, 60u8, 64u8, 67u8, 59u8, 62u8, 67u8, 71u8, 74u8],
        note_numbers(keymap(Side::Left, Direction::Pull)) == seq![53u8, 58u8, 63u8, 67u8, 70u8, 55u8, 59u8, 62u8, 65u8, 69u8, 57u8, 66u8, 69u8, 72u8, 76u8],
        note_numbers(keymap(Side::Right, Direction::Push)) == seq![73u8, 81u8, 80u8, 85u8, 93u8, 72u8, 76u8, 79u8, 84u8, 88u8, 79u8, 83u8, 86u8, 91u8, 95u8],
        note_numbers(keymap(Side::Right, Direction::Pull)) == seq![75u8, 79u8, 82u8, 87u8, 89u8, 71u8, 74u8, 77u8, 81u8, 83u8, 78u8, 81u8, 84u8, 88u8, 90u8],
        keymap(side, Direction::Still).len() == 0,
        keymap(Side::Left, Direction::Push).len() == NUM_LEFT,
        keymap(Side::Left, Direction::Pull).len() == NUM_LEFT,
        keymap(Side::Right, Direction::Push).len() == NUM_RIGHT,
        keymap(Side::Right, Direction::Pull).len() == NUM_RIGHT,
{
    assert(note_numbers(keymap(Side::Left, Direction::Push)) =~= seq![52u8, 57u8, 61u8, 69u8, 68u8, 48u8, 55u8, 60u8, 64u8, 67u8, 59u8, 62u8, 67u8, 71u8, 74u8]);
    assert(note_numbers(keymap(Side::Left, Direction::Pull)) =~= seq![53u8, 58u8, 63u8, 67u8, 70u8, 55u8, 59u8, 62u8, 65u8, 69u8, 57u8, 66u8, 69u8, 72u8, 76u8]);
    assert(note_numbers(keymap(Side::Right, Direction::Push)) =~= seq![73u8, 81u8, 80u8, 85u8, 93u8, 72u8, 76u8, 79u8, 84u8, 88u8, 79u8, 83u8, 86u8, 91u8, 95u8]);
    assert(note_numbers(keymap(Side::Right, Direction::Pull)) =~= seq![75u8, 79u8, 82u8, 87u8, 89u8, 71u8, 74u8, 77u8, 81u8, 83u8, 78u8, 81u8, 84u8, 88u8, 90u8]);
}

} // verus!
