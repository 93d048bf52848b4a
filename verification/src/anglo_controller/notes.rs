//! Turning the keyboards' button states and the bellows into MIDI: a button plays the note the
//! keymap gives it for the bellows' direction while it is held; when the bellows change
//! direction every held note stops and the buttons count as released; the bellows' magnitude
//! sets the channel volume.
use vstd::prelude::*;
use crate::midi::{cc, ControlData, Message, Note, NoteData};
use crate::anglo_controller::bellows::{abs, direction_of, Direction, State};
use crate::anglo_controller::keymap::{keymap, notes, Side};

verus! {

/// The MIDI channel the instrument plays on.
pub const MIDI_CHANNEL: u8 = 0;

/// The velocity of every note.
pub const VELOCITY: u8 = 127;

/// Whether bit `i` of a button state is set: whether button `i` is held.
pub open spec fn held(buttons: u16, i: int) -> bool {
    (buttons >> (i as u16)) & 1u16 == 1u16
}

/// The message that starts a note.
pub open spec fn note_on(note: Note) -> Message {
    Message::NoteOn(NoteData { channel: MIDI_CHANNEL, note, velocity: VELOCITY })
}

/// The message that stops a note.
pub open spec fn note_off(note: Note) -> Message {
    Message::NoteOff(NoteData { channel: MIDI_CHANNEL, note, velocity: VELOCITY })
}

/// The messages for a change of button state from `old` to `new`, button by button in order: a
/// note starts for each button newly held and stops for each one released.
pub open spec fn note_changes(notes: Seq<Note>, old: u16, new: u16) -> Seq<Message>
    decreases notes.len(),
{
    if notes.len() == 0 {
        Seq::empty()
    } else {
        let i = notes.len() - 1;
        note_changes(notes.drop_last(), old, new) + if held(old ^ new, i) {
            seq![if held(new, i) { note_on(notes[i]) } else { note_off(notes[i]) }]
        } else {
            Seq::empty()
        }
    }
}

/// The messages that stop the notes of every held button, in order.
pub open spec fn releases(notes: Seq<Note>, buttons: u16) -> Seq<Message>
    decreases notes.len(),
{
    if notes.len() == 0 {
        Seq::empty()
    } else {
        let i = notes.len() - 1;
        releases(notes.drop_last(), buttons) + if held(buttons, i) {
            seq![note_off(notes[i])]
        } else {
            Seq::empty()
        }
    }
}

/// The two messages that set the channel volume to a bellows magnitude: its upper seven bits,
/// then its lower seven.
pub open spec fn volume_messages(value: int) -> Seq<Message> {
    seq![
        Message::ControlChange(ControlData { channel: MIDI_CHANNEL, control: cc::CHANNEL_VOLUME_MSB, value: (abs(value) / 128) as u8 }),
        Message::ControlChange(ControlData { channel: MIDI_CHANNEL, control: cc::CHANNEL_VOLUME_LSB, value: (abs(value) % 128) as u8 }),
    ]
}

/// What the instrument last sent MIDI for: both keyboards' button states and the bellows value.
pub struct PlayerView {
    pub left: u16,
    pub right: u16,
    pub bellows: int,
}

/// One round of playing: the new button states of the left and right keyboard and the new
/// bellows value come in; the result is what is remembered afterwards and the messages sent,
/// in order.
pub open spec fn play_spec(p: PlayerView, left: u16, right: u16, bellows: int) -> (PlayerView, Seq<Message>) {
    let dir = direction_of(p.bellows);
    let left_notes = keymap(Side::Left, dir);
    let right_notes = keymap(Side::Right, dir);
    let keys = note_changes(left_notes, p.left, left) + note_changes(right_notes, p.right, right);
    if bellows == p.bellows {
        (PlayerView { left, right, bellows }, keys)
    } else if direction_of(bellows) != dir {
        (
            PlayerView { left: 0, right: 0, bellows },
            keys + releases(left_notes, left) + releases(right_notes, right) + volume_messages(bellows),
        )
    } else {
        (PlayerView { left, right, bellows }, keys + volume_messages(bellows))
    }
}

/// Appends the messages for a change of button state.
fn push_note_changes(out: &mut Vec<Message>, notes: &Vec<Note>, before: u16, after: u16)
    requires
        notes@.len() <= 16,
    ensures
        final(out)@ == old(out)@ + note_changes(notes@, before, after),
{
    let changes = before ^ after;
    let mut i: usize = 0;
    while i < notes.len()
        invariant
            i <= notes@.len() <= 16,
            changes == before ^ after,
            out@ == old(out)@ + note_changes(notes@.subrange(0, i as int), before, after),
        decreases notes.len() - i,
    {
                let k: u16 = i as u16;
        assert(notes@.subrange(0, i + 1).drop_last() =~= notes@.subrange(0, i as int));
        if (changes >> k) & 1 == 1 {
            if (after >> k) & 1 == 1 {
                out.push(Message::note_on(MIDI_CHANNEL, notes[i], VELOCITY));
            } else {
                out.push(Message::note_off(MIDI_CHANNEL, notes[i], VELOCITY));
            }
            assert(out@ =~= old(out)@ + note_changes(notes@.subrange(0, i + 1), before, after));
        } else {
            assert(out@ =~= old(out)@ + note_changes(notes@.subrange(0, i + 1), before, after));
        }
        i += 1;
    }
    assert(notes@.subrange(0, i as int) =~= notes@);
}

/// Appends the messages that stop the notes of every held button.
fn push_releases(out: &mut Vec<Message>, notes: &Vec<Note>, buttons: u16)
    requires
        notes@.len() <= 16,
    ensures
        final(out)@ == old(out)@ + releases(notes@, buttons),
{
    let mut i: usize = 0;
    while i < notes.len()
        invariant
            i <= notes@.len() <= 16,
            out@ == old(out)@ + releases(notes@.subrange(0, i as int), buttons),
        decreases notes.len() - i,
    {
        let k: u16 = i as u16;
        assert(notes@.subrange(0, i + 1).drop_last() =~= notes@.subrange(0, i as int));
        if (buttons >> k) & 1 == 1 {
            out.push(Message::note_off(MIDI_CHANNEL, notes[i], VELOCITY));
        }
        assert(out@ =~= old(out)@ + releases(notes@.subrange(0, i + 1), buttons));
        i += 1;
    }
    assert(notes@.subrange(0, i as int) =~= notes@);
}

/// What the instrument last sent MIDI for.
pub struct Player {
    left: u16,
    right: u16,
    bellows: State,
}

impl Player {
    /// What this player remembers.
    pub closed spec fn view(&self) -> PlayerView {
        PlayerView { left: self.left, right: self.right, bellows: self.bellows.value() }
    }

    /// Nothing held and still bellows.
    pub fn new() -> (r: Self)
        ensures
            r@ == (PlayerView { left: 0, right: 0, bellows: 0 }),
    {
        Player { left: 0, right: 0, bellows: State::default() }
    }

    /// Plays one round: takes the new button states and bellows state and returns the MIDI
    /// messages to send, in order.
    pub fn play(&mut self, left: u16, right: u16, bellows: State) -> (r: Vec<Message>)
        ensures
            (final(self)@, r@) == play_spec(old(self)@, left, right, bellows.value()),
    {
        let dir = self.bellows.direction();
        let left_notes = notes(Side::Left, dir);
        let right_notes = notes(Side::Right, dir);
        let mut out: Vec<Message> = Vec::new();
        push_note_changes(&mut out, &left_notes, self.left, left);
        self.left = left;
        push_note_changes(&mut out, &right_notes, self.right, right);
        self.right = right;
        if !bellows.same_as(&self.bellows) {
            if bellows.direction() != dir {
                push_releases(&mut out, &left_notes, self.left);
                push_releases(&mut out, &right_notes, self.right);
                self.left = 0;
                self.right = 0;
            }
            self.bellows = bellows;
            out.push(Message::control_change(MIDI_CHANNEL, cc::CHANNEL_VOLUME_MSB, self.bellows.magnitude_msb()));
            out.push(Message::control_change(MIDI_CHANNEL, cc::CHANNEL_VOLUME_LSB, self.bellows.magnitude_lsb()));
        }
        proof {
            assert(out@ =~= play_spec(old(self)@, left, right, bellows.value()).1);
        }
        out
    }
}

/// Buttons that did not change start and stop no notes.
proof fn lemma_no_changes(notes: Seq<Note>, buttons: u16)
    ensures
        note_changes(notes, buttons, buttons) == Seq::<Message>::empty(),
    decreases notes.len(),
{
    if notes.len() > 0 {
        lemma_no_changes(notes.drop_last(), buttons);
        let i = (notes.len() - 1) as u16;
        assert(((buttons ^ buttons) >> i) & 1u16 == 0u16) by (bit_vector);
        assert(note_changes(notes, buttons, buttons) =~= Seq::<Message>::empty());
    }
}

/// A round in which neither the buttons nor the bellows changed sends nothing and leaves the
/// player as it was.
pub proof fn lemma_unchanged_round_is_silent(p: PlayerView)
    ensures
        play_spec(p, p.left, p.right, p.bellows).0 == p,
        play_spec(p, p.left, p.right, p.bellows).1 == Seq::<Message>::empty(),
{
    let dir = direction_of(p.bellows);
    lemma_no_changes(keymap(Side::Left, dir), p.left);
    lemma_no_changes(keymap(Side::Right, dir), p.right);
    assert(Seq::<Message>::empty() + Seq::<Message>::empty() =~= Seq::<Message>::empty());
}

/// When the bellows change direction, every button counts as released afterwards, so a
/// button held on through the turn starts the note of the new direction in the next round.
pub proof fn lemma_turn_releases_all(p: PlayerView, left: u16, right: u16, bellows: int)
    requires
        direction_of(bellows) != direction_of(p.bellows),
    ensures
        play_spec(p, left, right, bellows).0.left == 0,
        play_spec(p, left, right, bellows).0.right == 0,
{
}

/// Whether a message starts or stops a note.
pub open spec fn is_note_message(m: Message) -> bool {
    m is NoteOn || m is NoteOff
}

proof fn lemma_note_changes_are_notes(notes: Seq<Note>, old: u16, new: u16)
    ensures
        forall|i: int| 0 <= i < note_changes(notes, old, new).len() ==> is_note_message(
            #[trigger] note_changes(notes, old, new)[i],
        ),
    decreases notes.len(),
{
    if notes.len() > 0 {
        let k = notes.len() - 1;
        let front = note_changes(notes.drop_last(), old, new);
        let last = if held(old ^ new, k) {
            seq![if held(new, k) { note_on(notes[k]) } else { note_off(notes[k]) }]
        } else {
            Seq::<Message>::empty()
        };
        lemma_note_changes_are_notes(notes.drop_last(), old, new);
        assert(note_changes(notes, old, new) == front + last);
        assert forall|i: int| 0 <= i < (front + last).len() implies is_note_message(#[trigger] (front + last)[i]) by {
            if i < front.len() {
                assert((front + last)[i] == front[i]);
            } else {
                assert((front + last)[i] == last[i - front.len()]);
            }
        }
    }
}

proof fn lemma_releases_are_notes(notes: Seq<Note>, buttons: u16)
    ensures
        forall|i: int| 0 <= i < releases(notes, buttons).len() ==> is_note_message(
            #[trigger] releases(notes, buttons)[i],
        ),
    decreases notes.len(),
{
    if notes.len() > 0 {
        let k = notes.len() - 1;
        let front = releases(notes.drop_last(), buttons);
        let last = if held(buttons, k) { seq![note_off(notes[k])] } else { Seq::<Message>::empty() };
        lemma_releases_are_notes(notes.drop_last(), buttons);
        assert(releases(notes, buttons) == front + last);
        assert forall|i: int| 0 <= i < (front + last).len() implies is_note_message(#[trigger] (front + last)[i]) by {
            if i < front.len() {
                assert((front + last)[i] == front[i]);
            } else {
                assert((front + last)[i] == last[i - front.len()]);
            }
        }
    }
}

/// The channel volume follows the bellows: whenever the bellows value changes, the round's
/// messages end with the two channel volume control changes (controls 7 and 39) on channel 0
/// for the new magnitude, its upper seven bits and then its lower seven, whether or not the
/// direction changed; every message before them starts or stops a note. When the value stays,
/// every message starts or stops a note. The new value is remembered.
pub proof fn lemma_volume_follows_bellows(p: PlayerView, left: u16, right: u16, bellows: int)
    ensures
        ({
            let (after, msgs) = play_spec(p, left, right, bellows);
            let magnitude = if bellows < 0 { -bellows } else { bellows };
            let volume = if bellows != p.bellows { 2int } else { 0int };
            &&& after.bellows == bellows
            &&& msgs.len() >= volume
            &&& bellows != p.bellows ==> msgs[msgs.len() - 2] == Message::ControlChange(
                ControlData { channel: 0, control: 7, value: (magnitude / 128) as u8 },
            ) && msgs[msgs.len() - 1] == Message::ControlChange(
                ControlData { channel: 0, control: 39, value: (magnitude % 128) as u8 },
            )
            &&& forall|i: int| 0 <= i < msgs.len() - volume ==> is_note_message(#[trigger] msgs[i])
        }),
{
    let dir = direction_of(p.bellows);
    let ln = keymap(Side::Left, dir);
    let rn = keymap(Side::Right, dir);
    let a = note_changes(ln, p.left, left);
    let b = note_changes(rn, p.right, right);
    let c = releases(ln, left);
    let d = releases(rn, right);
    lemma_note_changes_are_notes(ln, p.left, left);
    lemma_note_changes_are_notes(rn, p.right, right);
    lemma_releases_are_notes(ln, left);
    lemma_releases_are_notes(rn, right);
    let (after, msgs) = play_spec(p, left, right, bellows);
    let volume = if bellows != p.bellows { 2int } else { 0int };
    let notes_part = if bellows != p.bellows && direction_of(bellows) != dir { a + b + c + d } else { a + b };
    assert(msgs.subrange(0, msgs.len() - volume) =~= notes_part);
    assert forall|i: int| 0 <= i < msgs.len() - volume implies is_note_message(#[trigger] msgs[i]) by {
        assert(msgs[i] == notes_part[i]);
        if i < a.len() {
            assert(notes_part[i] == a[i]);
        } else if i < a.len() + b.len() {
            assert(notes_part[i] == b[i - a.len()]);
        } else if i < a.len() + b.len() + c.len() {
            assert(notes_part[i] == c[i - a.len() - b.len()]);
        } else {
            assert(notes_part[i] == d[i - a.len() - b.len() - c.len()]);
        }
    }
}

proof fn lemma_single_bit(b: u16, i: int, k: int)
    requires
        0 <= i < 16,
        0 <= k < 16,
        b == 1u16 << (i as u16),
    ensures
        held(b, k) <==> k == i,
{
    let iu = i as u16;
    let ku = k as u16;
    assert(((1u16 << iu) >> ku) & 1u16 == 1u16 <==> iu == ku) by (bit_vector)
        requires
            iu < 16,
            ku < 16,
    ;
}

proof fn lemma_one_change(notes: Seq<Note>, old: u16, new: u16, i: int)
    requires
        notes.len() <= 16,
        0 <= i < 16,
        old ^ new == 1u16 << (i as u16),
    ensures
        i < notes.len() ==> note_changes(notes, old, new) == seq![
            if held(new, i) { note_on(notes[i]) } else { note_off(notes[i]) },
        ],
        i >= notes.len() ==> note_changes(notes, old, new) == Seq::<Message>::empty(),
    decreases notes.len(),
{
    if notes.len() > 0 {
        let k = notes.len() - 1;
        lemma_one_change(notes.drop_last(), old, new, i);
        lemma_single_bit(old ^ new, i, k);
        if k == i {
            assert(notes.drop_last().len() <= i);
        }
        assert(note_changes(notes, old, new) =~= (if i < notes.len() {
            seq![if held(new, i) { note_on(notes[i]) } else { note_off(notes[i]) }]
        } else {
            Seq::<Message>::empty()
        }));
    }
}

proof fn lemma_one_release(notes: Seq<Note>, buttons: u16, i: int)
    requires
        notes.len() <= 16,
        0 <= i < 16,
        buttons == 1u16 << (i as u16),
    ensures
        i < notes.len() ==> releases(notes, buttons) == seq![note_off(notes[i])],
        i >= notes.len() ==> releases(notes, buttons) == Seq::<Message>::empty(),
    decreases notes.len(),
{
    if notes.len() > 0 {
        let k = notes.len() - 1;
        lemma_one_release(notes.drop_last(), buttons, i);
        lemma_single_bit(buttons, i, k);
        assert(releases(notes, buttons) =~= (if i < notes.len() {
            seq![note_off(notes[i])]
        } else {
            Seq::<Message>::empty()
        }));
    }
}

/// Pressing or releasing one button of the left keyboard while the bellows stay as they are
/// and move sends one message: the note that button plays in the bellows' direction starts, on
/// channel 0 at velocity 127, when the button is now held, and stops when it is now released.
pub proof fn lemma_one_left_button(p: PlayerView, left: u16, i: int)
    requires
        0 <= i < 15,
        p.left ^ left == 1u16 << (i as u16),
        direction_of(p.bellows) != Direction::Still,
    ensures
        ({
            let note = keymap(Side::Left, direction_of(p.bellows))[i];
            let data = NoteData { channel: 0, note, velocity: 127 };
            &&& play_spec(p, left, p.right, p.bellows).1 == seq![
                if held(left, i) { Message::NoteOn(data) } else { Message::NoteOff(data) },
            ]
            &&& play_spec(p, left, p.right, p.bellows).0 == (PlayerView { left, right: p.right, bellows: p.bellows })
        }),
{
    let dir = direction_of(p.bellows);
    lemma_one_change(keymap(Side::Left, dir), p.left, left, i);
    lemma_no_changes(keymap(Side::Right, dir), p.right);
    let a = note_changes(keymap(Side::Left, dir), p.left, left);
    assert(a + Seq::<Message>::empty() =~= a);
}

/// The same for one button of the right keyboard.
pub proof fn lemma_one_right_button(p: PlayerView, right: u16, i: int)
    requires
        0 <= i < 15,
        p.right ^ right == 1u16 << (i as u16),
        direction_of(p.bellows) != Direction::Still,
    ensures
        ({
            let note = keymap(Side::Right, direction_of(p.bellows))[i];
            let data = NoteData { channel: 0, note, velocity: 127 };
            &&& play_spec(p, p.left, right, p.bellows).1 == seq![
                if held(right, i) { Message::NoteOn(data) } else { Message::NoteOff(data) },
            ]
            &&& play_spec(p, p.left, right, p.bellows).0 == (PlayerView { left: p.left, right, bellows: p.bellows })
        }),
{
    let dir = direction_of(p.bellows);
    lemma_no_changes(keymap(Side::Left, dir), p.left);
    lemma_one_change(keymap(Side::Right, dir), p.right, right, i);
    let b = note_changes(keymap(Side::Right, dir), p.right, right);
    assert(Seq::<Message>::empty() + b =~= b);
}

/// While the bellows stay still, no button sounds: a round that leaves the bellows still
/// sends nothing, whatever the buttons do.
pub proof fn lemma_still_bellows_are_silent(p: PlayerView, left: u16, right: u16)
    requires
        direction_of(p.bellows) == Direction::Still,
    ensures
        play_spec(p, left, right, p.bellows).1 == Seq::<Message>::empty(),
{
    assert(keymap(Side::Left, Direction::Still) =~= Seq::<Note>::empty());
    assert(Seq::<Message>::empty() + Seq::<Message>::empty() =~= Seq::<Message>::empty());
}

/// Turning the bellows stops the note of a held button: with one left button held on through
/// the turn and nothing else, the round stops the note it played in the old direction, then
/// sets the channel volume for the new value.
pub proof fn lemma_turn_stops_held_note(p: PlayerView, bellows: int, i: int)
    requires
        0 <= i < 15,
        p.left == 1u16 << (i as u16),
        p.right == 0,
        direction_of(p.bellows) != Direction::Still,
        direction_of(bellows) != direction_of(p.bellows),
    ensures
        ({
            let note = keymap(Side::Left, direction_of(p.bellows))[i];
            let msgs = play_spec(p, p.left, 0, bellows).1;
            &&& msgs.len() == 3
            &&& msgs[0] == Message::NoteOff(NoteData { channel: 0, note, velocity: 127 })
            &&& msgs[1] is ControlChange
            &&& msgs[2] is ControlChange
        }),
{
    let dir = direction_of(p.bellows);
    lemma_no_changes(keymap(Side::Left, dir), p.left);
    lemma_no_changes(keymap(Side::Right, dir), 0);
    lemma_one_release(keymap(Side::Left, dir), p.left, i);
    assert(releases(keymap(Side::Right, dir), 0) =~= Seq::<Message>::empty()) by {
        lemma_releases_none(keymap(Side::Right, dir));
    }
    let msgs = play_spec(p, p.left, 0, bellows).1;
    assert(msgs =~= seq![note_off(keymap(Side::Left, dir)[i])] + volume_messages(bellows));
}

proof fn lemma_releases_none(notes: Seq<Note>)
    ensures
        releases(notes, 0) == Seq::<Message>::empty(),
    decreases notes.len(),
{
    if notes.len() > 0 {
        lemma_releases_none(notes.drop_last());
        let k = (notes.len() - 1) as u16;
        assert((0u16 >> k) & 1u16 == 0u16) by (bit_vector);
        assert(releases(notes, 0) =~= Seq::<Message>::empty());
    }
}

} // verus!
