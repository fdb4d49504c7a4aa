//! The two modes of the compose box: typing, and commands by key.

use crate::chords::{
    begins_chord, chord_outcome, completes_chord, is_strict_prefix, lemma_first_key_is_held,
    lemma_unmatched_key_starts_afresh, lemma_whole_sequence_is_matched, sequences,
    ChordOutcome, KeyChords,
};
use crate::keys::{KeyCode, KeyEvent};
use vstd::prelude::*;

verus! {

/// What the keys mean in the compose box.
#[derive(Debug, Clone, Copy, PartialEq, Eq, Structural)]
pub enum Mode {
    /// Keys are commands.
    Normal,
    /// Keys are typed into the text.
    Insert,
}

/// What the compose box is told to do.
#[derive(Debug, Clone, Copy, PartialEq, Eq, Structural)]
pub enum EditorCommand {
    MoveBack,
    MoveForward,
    MoveUp,
    MoveDown,
    MoveWordForward,
    MoveWordBack,
    MoveHead,
    MoveEnd,
    MoveTop,
    MoveBottom,
    DeleteNextChar,
    DeleteToLineEnd,
    DeleteLine,
    ClearLine,
    YankLine,
    Paste,
    Undo,
    Redo,
    OpenLineBelow,
    OpenLineAbove,
    /// The key is typed into the text.
    Type(KeyEvent),
}

/// What a key does to the mode.
#[derive(Debug, Clone, Copy, PartialEq, Eq, Structural)]
pub enum Transition {
    Nop,
    Mode(Mode),
    /// The key is held back until the next key shows what is meant.
    Pending,
}

/// What a key brings about: a command for the compose box, if any, and
/// what becomes of the mode.
#[derive(Debug, Clone, Copy, PartialEq, Eq, Structural)]
pub struct Step {
    pub command: Option<EditorCommand>,
    pub transition: Transition,
}

/// The mode of the compose box and the command keys held back.
#[derive(Debug)]
pub struct Vim {
    pub mode: Mode,
    /// The commands of several keys, and the keys held back towards one.
    pub chords: KeyChords,
    /// What each of the registered commands brings about, in the order in
    /// which they are registered.
    pub bindings: Vec<Step>,
}

/// The commands of two keys, in the order in which they are registered:
/// `gg`, `dd`, `yy` and `cc`.
pub open spec fn default_chords() -> Seq<Seq<char>> {
    seq![seq!['g', 'g'], seq!['d', 'd'], seq!['y', 'y'], seq!['c', 'c']]
}

/// What the commands of `default_chords` bring about: `gg` goes to the
/// top, `dd` deletes the line, `yy` copies it, `cc` clears it for typing.
pub open spec fn default_bindings() -> Seq<Step> {
    seq![
        Step { command: Some(EditorCommand::MoveTop), transition: Transition::Nop },
        Step { command: Some(EditorCommand::DeleteLine), transition: Transition::Nop },
        Step { command: Some(EditorCommand::YankLine), transition: Transition::Nop },
        Step { command: Some(EditorCommand::ClearLine), transition: Transition::Mode(Mode::Insert) },
    ]
}

/// What a letter that belongs to no command of several keys brings about
/// in normal mode.
pub open spec fn normal_step_of(letter: char) -> Step {
    let stay = Transition::Nop;
    let insert = Transition::Mode(Mode::Insert);
    if letter == 'h' {
        Step { command: Some(EditorCommand::MoveBack), transition: stay }
    } else if letter == 'j' {
        Step { command: Some(EditorCommand::MoveDown), transition: stay }
    } else if letter == 'k' {
        Step { command: Some(EditorCommand::MoveUp), transition: stay }
    } else if letter == 'l' {
        Step { command: Some(EditorCommand::MoveForward), transition: stay }
    } else if letter == 'w' {
        Step { command: Some(EditorCommand::MoveWordForward), transition: stay }
    } else if letter == 'b' {
        Step { command: Some(EditorCommand::MoveWordBack), transition: stay }
    } else if letter == '^' {
        Step { command: Some(EditorCommand::MoveHead), transition: stay }
    } else if letter == '$' {
        Step { command: Some(EditorCommand::MoveEnd), transition: stay }
    } else if letter == 'G' {
        Step { command: Some(EditorCommand::MoveBottom), transition: stay }
    } else if letter == 'x' {
        Step { command: Some(EditorCommand::DeleteNextChar), transition: stay }
    } else if letter == 'D' {
        Step { command: Some(EditorCommand::DeleteToLineEnd), transition: stay }
    } else if letter == 'p' {
        Step { command: Some(EditorCommand::Paste), transition: stay }
    } else if letter == 'u' {
        Step { command: Some(EditorCommand::Undo), transition: stay }
    } else if letter == 'i' {
        Step { command: None, transition: insert }
    } else if letter == 'a' {
        Step { command: Some(EditorCommand::MoveForward), transition: insert }
    } else if letter == 'A' {
        Step { command: Some(EditorCommand::MoveEnd), transition: insert }
    } else if letter == 'I' {
        Step { command: Some(EditorCommand::MoveHead), transition: insert }
    } else if letter == 'o' {
        Step { command: Some(EditorCommand::OpenLineBelow), transition: insert }
    } else if letter == 'O' {
        Step { command: Some(EditorCommand::OpenLineAbove), transition: insert }
    } else if letter == 'C' {
        Step { command: Some(EditorCommand::DeleteToLineEnd), transition: insert }
    } else {
        Step { command: None, transition: stay }
    }
}

/// The mode after a step taken in normal mode.
pub open spec fn mode_after(step: Step) -> Mode {
    match step.transition {
        Transition::Mode(mode) => mode,
        _ => Mode::Normal,
    }
}

/// Whether the key is a letter with no modifier but, at most, shift.
pub open spec fn is_plain_letter(key: KeyEvent) -> bool {
    key.code is Char && !key.modifiers.control && !key.modifiers.alt && !key.modifiers.other
}

/// What a key brings about in a mode with some keys held back: the step,
/// the mode after it, and the keys held back after it.
///
/// While typing, `Esc` and control-c lead to normal mode and every other
/// key is typed. In normal mode a letter may complete, begin or continue
/// one of the `registered` commands of several keys; one that it completes
/// brings about what `bindings` holds for it. A letter that does none of
/// these is a command by itself or means nothing. `Esc` and every other
/// key drop the keys held back; control-r also redoes.
pub open spec fn vim_step(
    registered: Seq<Seq<char>>,
    bindings: Seq<Step>,
    mode: Mode,
    held: Seq<char>,
    key: KeyEvent,
) -> (Step, Mode, Seq<char>) {
    match mode {
        Mode::Insert => if key.code == KeyCode::Esc || key.is_ctrl('c') {
            (Step { command: None, transition: Transition::Mode(Mode::Normal) }, Mode::Normal, held)
        } else {
            (
                Step {
                    command: Some(EditorCommand::Type(key)),
                    transition: Transition::Mode(Mode::Insert),
                },
                Mode::Insert,
                held,
            )
        },
        Mode::Normal => if is_plain_letter(key) {
            let (outcome, kept) = chord_outcome(registered, held, key.code->Char_0);
            let step = match outcome {
                ChordOutcome::Matched(index) => bindings[index as int],
                ChordOutcome::Pending => Step { command: None, transition: Transition::Pending },
                ChordOutcome::Unbound => normal_step_of(key.code->Char_0),
            };
            (step, mode_after(step), kept)
        } else if key.is_ctrl('r') {
            (
                Step { command: Some(EditorCommand::Redo), transition: Transition::Nop },
                Mode::Normal,
                Seq::empty(),
            )
        } else {
            (Step { command: None, transition: Transition::Nop }, Mode::Normal, Seq::empty())
        },
    }
}

/// What a letter that belongs to no command of several keys brings about
/// in normal mode.
pub fn normal_step(letter: char) -> (step: Step)
    ensures
        step == normal_step_of(letter),
{
    let stay = Transition::Nop;
    let insert = Transition::Mode(Mode::Insert);
    match letter {
        'h' => Step { command: Some(EditorCommand::MoveBack), transition: stay },
        'j' => Step { command: Some(EditorCommand::MoveDown), transition: stay },
        'k' => Step { command: Some(EditorCommand::MoveUp), transition: stay },
        'l' => Step { command: Some(EditorCommand::MoveForward), transition: stay },
        'w' => Step { command: Some(EditorCommand::MoveWordForward), transition: stay },
        'b' => Step { command: Some(EditorCommand::MoveWordBack), transition: stay },
        '^' => Step { command: Some(EditorCommand::MoveHead), transition: stay },
        '$' => Step { command: Some(EditorCommand::MoveEnd), transition: stay },
        'G' => Step { command: Some(EditorCommand::MoveBottom), transition: stay },
        'x' => Step { command: Some(EditorCommand::DeleteNextChar), transition: stay },
        'D' => Step { command: Some(EditorCommand::DeleteToLineEnd), transition: stay },
        'p' => Step { command: Some(EditorCommand::Paste), transition: stay },
        'u' => Step { command: Some(EditorCommand::Undo), transition: stay },
        'i' => Step { command: None, transition: insert },
        'a' => Step { command: Some(EditorCommand::MoveForward), transition: insert },
        'A' => Step { command: Some(EditorCommand::MoveEnd), transition: insert },
        'I' => Step { command: Some(EditorCommand::MoveHead), transition: insert },
        'o' => Step { command: Some(EditorCommand::OpenLineBelow), transition: insert },
        'O' => Step { command: Some(EditorCommand::OpenLineAbove), transition: insert },
        'C' => Step { command: Some(EditorCommand::DeleteToLineEnd), transition: insert },
        _ => Step { command: None, transition: stay },
    }
}

/// In normal mode the first letter of a registered command is held back
/// and brings nothing about, unless it is a command of one key itself.
pub proof fn lemma_first_letter_is_held(
    registered: Seq<Seq<char>>,
    bindings: Seq<Step>,
    key: KeyEvent,
)
    requires
        is_plain_letter(key),
        begins_chord(registered, seq![key.code->Char_0]),
        !completes_chord(registered, seq![key.code->Char_0]),
    ensures
        vim_step(registered, bindings, Mode::Normal, Seq::empty(), key) == (
            Step { command: None, transition: Transition::Pending },
            Mode::Normal,
            seq![key.code->Char_0],
        ),
{
    lemma_first_key_is_held(registered, key.code->Char_0);
}

/// In normal mode the letter that completes a registered command brings
/// about what is bound to that command, and to no other, and nothing is
/// held back any more. `index` is the first place at which the command is
/// registered.
pub proof fn lemma_last_letter_fires(
    registered: Seq<Seq<char>>,
    bindings: Seq<Step>,
    held: Seq<char>,
    key: KeyEvent,
    index: int,
)
    requires
        is_plain_letter(key),
        0 <= index < registered.len(),
        index <= usize::MAX,
        registered[index] == held.push(key.code->Char_0),
        forall|j: int| 0 <= j < index ==> registered[j] != held.push(key.code->Char_0),
    ensures
        vim_step(registered, bindings, Mode::Normal, held, key) == (
            bindings[index],
            mode_after(bindings[index]),
            Seq::<char>::empty(),
        ),
{
    lemma_whole_sequence_is_matched(registered, held, key.code->Char_0, index);
}

/// In normal mode a letter that neither completes nor continues what is
/// held back drops the keys held back and is then taken exactly as if
/// nothing had been held back.
pub proof fn lemma_other_letter_starts_afresh(
    registered: Seq<Seq<char>>,
    bindings: Seq<Step>,
    held: Seq<char>,
    key: KeyEvent,
)
    requires
        is_plain_letter(key),
        !completes_chord(registered, held.push(key.code->Char_0)),
        !begins_chord(registered, held.push(key.code->Char_0)),
    ensures
        vim_step(registered, bindings, Mode::Normal, held, key) == vim_step(
            registered,
            bindings,
            Mode::Normal,
            Seq::empty(),
            key,
        ),
        vim_step(registered, bindings, Mode::Normal, held, key).2 == Seq::<char>::empty()
            || vim_step(registered, bindings, Mode::Normal, held, key).2 == seq![
            key.code->Char_0,
        ],
{
    lemma_unmatched_key_starts_afresh(registered, held, key.code->Char_0);
}

fn pair(letter: char) -> (keys: Vec<char>)
    ensures
        keys@ == seq![letter, letter],
{
    let mut keys: Vec<char> = Vec::new();
    keys.push(letter);
    keys.push(letter);
    keys
}

impl Vim {
    /// Each registered command has what it brings about, and the keys held
    /// back begin one of the commands.
    pub open spec fn wf(&self) -> bool {
        self.chords.wf() && self.bindings@.len() == self.chords.registered@.len()
    }

    /// A compose box in the given mode with the usual commands of two keys
    /// and no key held back.
    pub fn new(mode: Mode) -> (vim: Self)
        ensures
            vim.wf(),
            vim.mode == mode,
            vim.chords.buffer@.len() == 0,
            sequences(vim.chords.registered@) == default_chords(),
            vim.bindings@ == default_bindings(),
    {
        let mut registered: Vec<Vec<char>> = Vec::new();
        registered.push(pair('g'));
        registered.push(pair('d'));
        registered.push(pair('y'));
        registered.push(pair('c'));
        let mut bindings: Vec<Step> = Vec::new();
        bindings.push(Step { command: Some(EditorCommand::MoveTop), transition: Transition::Nop });
        bindings.push(
            Step { command: Some(EditorCommand::DeleteLine), transition: Transition::Nop },
        );
        bindings.push(Step { command: Some(EditorCommand::YankLine), transition: Transition::Nop });
        bindings.push(
            Step {
                command: Some(EditorCommand::ClearLine),
                transition: Transition::Mode(Mode::Insert),
            },
        );
        proof {
            assert(sequences(registered@) =~= default_chords());
            assert(bindings@ =~= default_bindings());
        }
        Vim { mode, chords: KeyChords::new(registered), bindings }
    }

    /// Registers one more command of several keys and what it brings about,
    /// behind those registered already. The mode and the keys held back
    /// stay.
    pub fn register(&mut self, keys: Vec<char>, step: Step)
        requires
            old(self).wf(),
        ensures
            final(self).wf(),
            sequences(final(self).chords.registered@) == sequences(
                old(self).chords.registered@,
            ).push(keys@),
            final(self).bindings@ == old(self).bindings@.push(step),
            final(self).mode == old(self).mode,
            final(self).chords.buffer == old(self).chords.buffer,
    {
        let ghost before = sequences(self.chords.registered@);
        self.chords.registered.push(keys);
        self.bindings.push(step);
        proof {
            let after = sequences(self.chords.registered@);
            assert(after =~= before.push(keys@));
            if self.chords.buffer@.len() > 0 {
                let i = choose|i: int|
                    0 <= i < before.len() && is_strict_prefix(
                        self.chords.buffer@,
                        #[trigger] before[i],
                    );
                assert(is_strict_prefix(self.chords.buffer@, after[i]));
            }
        }
    }

    /// Takes a key: says what it brings about, and moves to the mode and
    /// the keys held back that follow from it.
    pub fn transition(&mut self, key: KeyEvent) -> (step: Step)
        requires
            old(self).wf(),
        ensures
            final(self).wf(),
            final(self).chords.registered == old(self).chords.registered,
            final(self).bindings == old(self).bindings,
            (step, final(self).mode, final(self).chords.buffer@) == vim_step(
                sequences(old(self).chords.registered@),
                old(self).bindings@,
                old(self).mode,
                old(self).chords.buffer@,
                key,
            ),
    {
        match self.mode {
            Mode::Insert => {
                let leave = match key.code {
                    KeyCode::Esc => true,
                    _ => key.has_ctrl('c'),
                };
                if leave {
                    self.mode = Mode::Normal;
                    Step { command: None, transition: Transition::Mode(Mode::Normal) }
                } else {
                    Step {
                        command: Some(EditorCommand::Type(key)),
                        transition: Transition::Mode(Mode::Insert),
                    }
                }
            },
            Mode::Normal => {
                let plain = !key.modifiers.control && !key.modifiers.alt && !key.modifiers.other;
                match key.code {
                    KeyCode::Char(letter) if plain => {
                        let step = match self.chords.press(letter) {
                            ChordOutcome::Matched(index) => self.bindings[index],
                            ChordOutcome::Pending => Step {
                                command: None,
                                transition: Transition::Pending,
                            },
                            ChordOutcome::Unbound => normal_step(letter),
                        };
                        match step.transition {
                            Transition::Mode(mode) => {
                                self.mode = mode;
                            },
                            _ => {},
                        }
                        step
                    },
                    _ => {
                        self.chords.abort();
                        if key.has_ctrl('r') {
                            Step { command: Some(EditorCommand::Redo), transition: Transition::Nop }
                        } else {
                            Step { command: None, transition: Transition::Nop }
                        }
                    },
                }
            },
        }
    }
}

} // verus!
