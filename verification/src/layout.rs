//! How the keys of a computer keyboard map to pitches.
//!
//! Besides a piano with white and black keys there are two grids of four rows, an octave
//! apart: one with the twelve tempered semitones and one that divides the octave into
//! seven equal steps. A step of the latter is 12/7 of a semitone, so pitches are counted
//! exactly, in sevenths of a semitone.
use vstd::prelude::*;

verus! {

/// A key of the computer keyboard.
#[derive(Clone, Copy, Debug, PartialEq, Eq, Structural)]
pub enum Key {
    A,
    B,
    C,
    D,
    E,
    F,
    G,
    H,
    I,
    J,
    K,
    L,
    M,
    N,
    O,
    P,
    Q,
    R,
    S,
    T,
    U,
    V,
    W,
    X,
    Y,
    Z,
    Num0,
    Num1,
    Num2,
    Num3,
    Num4,
    Num5,
    Num6,
    Num7,
    Num8,
    Num9,
    Backtick,
    Minus,
    OpenBracket,
    Semicolon,
    Quote,
    Comma,
    Period,
    Slash,
    Tab,
    Escape,
    Space,
    Backspace,
    Delete,
    PageUp,
    PageDown,
    Other,
}

/// A key as the keyboard piano sees it; some have no name in text input.
#[derive(Clone, Copy, Debug, PartialEq, Eq, Structural)]
pub enum PianoKey {
    Key(Key),
    CapsLock,
    ShiftLeft,
    ShiftRight,
}

/// A layout of the keyboard piano.
#[derive(Clone, Copy, Debug, PartialEq, Eq, Structural)]
pub enum Layout {
    Piano,
    Chromatic,
    SevenEdo,
}

impl Default for Layout {
    fn default() -> (layout: Self)
        ensures
            layout == Layout::Piano,
    {
        Layout::Piano
    }
}

/// A note, and by how many sevenths of a semitone the pitch is off it.
#[derive(Clone, Copy, Debug, PartialEq, Eq, Structural)]
pub struct Pitch {
    pub note: u8,
    pub sevenths: i8,
}

/// The keys of the piano, from the lowest on.
pub open spec fn piano_keys() -> Seq<Key> {
    seq![
        Key::A,
        Key::W,
        Key::S,
        Key::E,
        Key::D,
        Key::F,
        Key::T,
        Key::G,
        Key::Y,
        Key::H,
        Key::U,
        Key::J,
        Key::K,
        Key::O,
        Key::L,
        Key::P,
        Key::Semicolon,
    ]
}

/// The keys of a row of the grid, from the left; row 0 is at the top.
pub open spec fn grid_row(row: int) -> Seq<PianoKey> {
    if row == 0 {
        seq![
            PianoKey::Key(Key::Backtick),
            PianoKey::Key(Key::Num1),
            PianoKey::Key(Key::Num2),
            PianoKey::Key(Key::Num3),
            PianoKey::Key(Key::Num4),
            PianoKey::Key(Key::Num5),
            PianoKey::Key(Key::Num6),
            PianoKey::Key(Key::Num7),
            PianoKey::Key(Key::Num8),
            PianoKey::Key(Key::Num9),
            PianoKey::Key(Key::Num0),
            PianoKey::Key(Key::Minus),
        ]
    } else if row == 1 {
        seq![
            PianoKey::Key(Key::Tab),
            PianoKey::Key(Key::Q),
            PianoKey::Key(Key::W),
            PianoKey::Key(Key::E),
            PianoKey::Key(Key::R),
            PianoKey::Key(Key::T),
            PianoKey::Key(Key::Y),
            PianoKey::Key(Key::U),
            PianoKey::Key(Key::I),
            PianoKey::Key(Key::O),
            PianoKey::Key(Key::P),
            PianoKey::Key(Key::OpenBracket),
        ]
    } else if row == 2 {
        seq![
            PianoKey::CapsLock,
            PianoKey::Key(Key::A),
            PianoKey::Key(Key::S),
            PianoKey::Key(Key::D),
            PianoKey::Key(Key::F),
            PianoKey::Key(Key::G),
            PianoKey::Key(Key::H),
            PianoKey::Key(Key::J),
            PianoKey::Key(Key::K),
            PianoKey::Key(Key::L),
            PianoKey::Key(Key::Semicolon),
            PianoKey::Key(Key::Quote),
        ]
    } else {
        seq![
            PianoKey::ShiftLeft,
            PianoKey::Key(Key::Z),
            PianoKey::Key(Key::X),
            PianoKey::Key(Key::C),
            PianoKey::Key(Key::V),
            PianoKey::Key(Key::B),
            PianoKey::Key(Key::N),
            PianoKey::Key(Key::M),
            PianoKey::Key(Key::Comma),
            PianoKey::Key(Key::Period),
            PianoKey::Key(Key::Slash),
            PianoKey::ShiftRight,
        ]
    }
}

/// Whether the grid has a key at a place.
pub open spec fn on_grid(key: PianoKey, row: int, column: int) -> bool {
    0 <= row < 4 && 0 <= column < 12 && grid_row(row)[column] == key
}

/// The columns of a layout's grid.
pub open spec fn column_count(layout: Layout) -> int {
    if layout == Layout::SevenEdo {
        7
    } else {
        12
    }
}

/// Sevenths of a semitone between neighbours in a row.
pub open spec fn column_step(layout: Layout) -> int {
    if layout == Layout::SevenEdo {
        12
    } else {
        7
    }
}

/// Whether a key plays a pitch that many sevenths of a semitone above the root.
pub open spec fn plays_above_root(layout: Layout, key: PianoKey, sevenths: int) -> bool {
    if layout == Layout::Piano {
        exists|offset: int|
            0 <= offset < piano_keys().len() && key == PianoKey::Key(
                #[trigger] piano_keys()[offset],
            ) && sevenths == 7 * offset
    } else {
        exists|row: int, column: int|
            #[trigger] on_grid(key, row, column) && column < column_count(layout) && sevenths == 84
                * (3 - row) + column_step(layout) * column
    }
}

/// The note nearest to a pitch, and how far the pitch is off it.
pub open spec fn nearest(pitch: int) -> Pitch {
    Pitch { note: ((pitch + 3) / 7) as u8, sevenths: (pitch - 7 * ((pitch + 3) / 7)) as i8 }
}

/// The place of a key on the piano.
pub fn piano_offset(key: Key) -> (offset: Option<u8>)
    ensures
        offset matches Some(place) ==> place < 17 && piano_keys()[place as int] == key,
        offset is None ==> !piano_keys().contains(key),
{
    match key {
        Key::A => Some(0),
        Key::W => Some(1),
        Key::S => Some(2),
        Key::E => Some(3),
        Key::D => Some(4),
        Key::F => Some(5),
        Key::T => Some(6),
        Key::G => Some(7),
        Key::Y => Some(8),
        Key::H => Some(9),
        Key::U => Some(10),
        Key::J => Some(11),
        Key::K => Some(12),
        Key::O => Some(13),
        Key::L => Some(14),
        Key::P => Some(15),
        Key::Semicolon => Some(16),
        _ => None,
    }
}

/// The white keys of the piano, by their semitones above the lowest one.
pub open spec fn white(offset: int) -> bool {
    let degree = offset % 12;
    degree == 0 || degree == 2 || degree == 4 || degree == 5 || degree == 7 || degree == 9
        || degree == 11
}

/// How many white keys lie below a key.
pub open spec fn whites_below(offset: nat) -> nat
    decreases offset,
{
    if offset == 0 {
        0
    } else if white(offset - 1) {
        whites_below((offset - 1) as nat) + 1
    } else {
        whites_below((offset - 1) as nat)
    }
}

/// Where a key of the piano is drawn: whether it is a white one, and how many white ones lie
/// below it. The black ones are drawn over the white ones.
pub fn piano_place(offset: u8) -> (place: (bool, u8))
    requires
        offset < 17,
    ensures
        place.0 == white(offset as int),
        place.1 == whites_below(offset as nat),
{
    let mut below: u8 = 0;
    let mut at: u8 = 0;
    while at < offset
        invariant
            at <= offset < 17,
            below <= at,
            below == whites_below(at as nat),
        decreases offset - at,
    {
        if is_white(at) {
            below += 1;
        }
        at += 1;
    }
    (is_white(offset), below)
}

fn is_white(offset: u8) -> (yes: bool)
    ensures
        yes == white(offset as int),
{
    let degree: u8 = offset % 12;
    degree == 0 || degree == 2 || degree == 4 || degree == 5 || degree == 7 || degree == 9
        || degree == 11
}

/// The place of a key on the grid: its row and column.
pub fn grid_place(key: PianoKey) -> (place: Option<(u8, u8)>)
    ensures
        place matches Some(found) ==> on_grid(key, found.0 as int, found.1 as int),
        place is None ==> forall|row: int, column: int| !on_grid(key, row, column),
{
    match key {
        PianoKey::CapsLock => Some((2, 0)),
        PianoKey::ShiftLeft => Some((3, 0)),
        PianoKey::ShiftRight => Some((3, 11)),
        PianoKey::Key(key) => match key {
            Key::Backtick => Some((0, 0)),
            Key::Num1 => Some((0, 1)),
            Key::Num2 => Some((0, 2)),
            Key::Num3 => Some((0, 3)),
            Key::Num4 => Some((0, 4)),
            Key::Num5 => Some((0, 5)),
            Key::Num6 => Some((0, 6)),
            Key::Num7 => Some((0, 7)),
            Key::Num8 => Some((0, 8)),
            Key::Num9 => Some((0, 9)),
            Key::Num0 => Some((0, 10)),
            Key::Minus => Some((0, 11)),
            Key::Tab => Some((1, 0)),
            Key::Q => Some((1, 1)),
            Key::W => Some((1, 2)),
            Key::E => Some((1, 3)),
            Key::R => Some((1, 4)),
            Key::T => Some((1, 5)),
            Key::Y => Some((1, 6)),
            Key::U => Some((1, 7)),
            Key::I => Some((1, 8)),
            Key::O => Some((1, 9)),
            Key::P => Some((1, 10)),
            Key::OpenBracket => Some((1, 11)),
            Key::A => Some((2, 1)),
            Key::S => Some((2, 2)),
            Key::D => Some((2, 3)),
            Key::F => Some((2, 4)),
            Key::G => Some((2, 5)),
            Key::H => Some((2, 6)),
            Key::J => Some((2, 7)),
            Key::K => Some((2, 8)),
            Key::L => Some((2, 9)),
            Key::Semicolon => Some((2, 10)),
            Key::Quote => Some((2, 11)),
            Key::Z => Some((3, 1)),
            Key::X => Some((3, 2)),
            Key::C => Some((3, 3)),
            Key::V => Some((3, 4)),
            Key::B => Some((3, 5)),
            Key::N => Some((3, 6)),
            Key::M => Some((3, 7)),
            Key::Comma => Some((3, 8)),
            Key::Period => Some((3, 9)),
            Key::Slash => Some((3, 10)),
            _ => None,
        },
    }
}

/// A key is at one place of the grid only.
proof fn lemma_grid_is_injective(key: PianoKey, row: int, column: int, other_row: int, other_column: int)
    requires
        on_grid(key, row, column),
        on_grid(key, other_row, other_column),
    ensures
        row == other_row && column == other_column,
{
}

/// A key is at one place of the piano only.
proof fn lemma_piano_is_injective(place: int, other: int)
    requires
        0 <= place < 17,
        0 <= other < 17,
        piano_keys()[place] == piano_keys()[other],
    ensures
        place == other,
{
}

impl Layout {
    /// The layouts, in the order in which they are offered.
    pub fn all() -> (layouts: [Layout; 3])
        ensures
            layouts@ == seq![Layout::Piano, Layout::Chromatic, Layout::SevenEdo],
    {
        [Layout::Piano, Layout::Chromatic, Layout::SevenEdo]
    }

    /// The name of the layout.
    pub fn label(self) -> (label: &'static str)
        ensures
            label@ == (match self {
                Layout::Piano => "Piano"@,
                Layout::Chromatic => "4 × 12"@,
                Layout::SevenEdo => "7EDO"@,
            }),
    {
        match self {
            Layout::Piano => "Piano",
            Layout::Chromatic => "4 × 12",
            Layout::SevenEdo => "7EDO",
        }
    }

    /// The columns of the layout's grid.
    pub fn columns(self) -> (columns: usize)
        ensures
            columns == column_count(self),
    {
        if self == Layout::SevenEdo {
            7
        } else {
            12
        }
    }

    /// The highest root of the layout.
    pub open spec fn highest_root(self) -> int {
        if self == Layout::Piano {
            108
        } else {
            72
        }
    }

    /// The highest root of the layout.
    pub fn max_root(self) -> (root: u8)
        ensures
            root == self.highest_root(),
    {
        if self == Layout::Piano {
            108
        } else {
            72
        }
    }

    /// The pitch that a key plays above a root. A key that is not part of the layout plays
    /// none, and neither does one whose note would lie above the highest note there is.
    pub fn pitch(self, key: PianoKey, root: u8) -> (pitch: Option<Pitch>)
        ensures
            pitch is Some <==> exists|sevenths: int|
                plays_above_root(self, key, sevenths) && (7 * root + sevenths + 3) / 7 <= 127,
            forall|sevenths: int|
                #[trigger] plays_above_root(self, key, sevenths) && pitch is Some ==> pitch
                    == Some(nearest(7 * root + sevenths)),
            pitch matches Some(played) ==> played.note <= 127 && -3 <= played.sevenths <= 3,
    {
        let above: u32;
        if self == Layout::Piano {
            match key {
                PianoKey::Key(key) => match piano_offset(key) {
                    Some(offset) => {
                        assert(plays_above_root(self, PianoKey::Key(key), 7 * offset)) by {
                            assert(piano_keys()[offset as int] == key);
                        }
                        proof {
                            assert forall|sevenths: int|
                                #[trigger] plays_above_root(self, PianoKey::Key(key), sevenths)
                                implies sevenths == 7 * offset by {
                                let other = choose|other: int|
                                    0 <= other < piano_keys().len() && PianoKey::Key(key)
                                        == PianoKey::Key(#[trigger] piano_keys()[other])
                                        && sevenths == 7 * other;
                                lemma_piano_is_injective(other, offset as int);
                            }
                        }
                        above = 7 * offset as u32;
                    },
                    None => {
                        assert forall|sevenths: int| !#[trigger] plays_above_root(
                            self,
                            PianoKey::Key(key),
                            sevenths,
                        ) by {
                            if plays_above_root(self, PianoKey::Key(key), sevenths) {
                                let other = choose|other: int|
                                    0 <= other < piano_keys().len() && PianoKey::Key(key)
                                        == PianoKey::Key(#[trigger] piano_keys()[other])
                                        && sevenths == 7 * other;
                                assert(piano_keys().contains(key));
                            }
                        }
                        return None;
                    },
                },
                _ => {
                    return None;
                },
            }
        } else {
            match grid_place(key) {
                Some((row, column)) => {
                    if (column as usize) < self.columns() {
                        let step: u32 = if self == Layout::SevenEdo {
                            12
                        } else {
                            7
                        };
                        assert(plays_above_root(
                            self,
                            key,
                            84 * (3 - row) + column_step(self) * column,
                        )) by {
                            assert(on_grid(key, row as int, column as int));
                        }
                        proof {
                            assert forall|sevenths: int| #[trigger]
                                plays_above_root(self, key, sevenths) implies sevenths == 84 * (3
                                - row) + column_step(self) * column by {
                                let (r, c) = choose|r: int, c: int|
                                    #[trigger] on_grid(key, r, c) && c < column_count(self)
                                        && sevenths == 84 * (3 - r) + column_step(self) * c;
                                lemma_grid_is_injective(key, r, c, row as int, column as int);
                            }
                            assert(step * column <= 12 * 11) by (nonlinear_arith)
                                requires
                                    step <= 12,
                                    column <= 11,
                            ;
                        }
                        above = 84 * (3 - row as u32) + step * column as u32;
                    } else {
                        assert forall|sevenths: int| !#[trigger] plays_above_root(
                            self,
                            key,
                            sevenths,
                        ) by {
                            if plays_above_root(self, key, sevenths) {
                                let (r, c) = choose|r: int, c: int|
                                    #[trigger] on_grid(key, r, c) && c < column_count(self)
                                        && sevenths == 84 * (3 - r) + column_step(self) * c;
                                lemma_grid_is_injective(key, r, c, row as int, column as int);
                            }
                        }
                        return None;
                    }
                },
                None => {
                    return None;
                },
            }
        }
        let exact: u32 = 7 * root as u32 + above;
        let note: u32 = (exact + 3) / 7;
        if note > 127 {
            return None;
        }
        let off: i32 = exact as i32 - 7 * note as i32;
        Some(Pitch { note: note as u8, sevenths: off as i8 })
    }

    /// Whether a key moves the keyboard by an octave.
    pub open spec fn moves_octave(self, key: Key) -> bool {
        key == Key::PageDown || key == Key::PageUp || (self == Layout::Piano && (key == Key::Z
            || key == Key::X))
    }

    /// Whether a key moves the keyboard up or down an octave. On the grids the letters play
    /// notes, so only the paging keys do.
    pub fn octave_key(self, key: Key) -> (up: Option<bool>)
        ensures
            up == (if key == Key::PageDown || (key == Key::Z && self == Layout::Piano) {
                Some(false)
            } else if key == Key::PageUp || (key == Key::X && self == Layout::Piano) {
                Some(true)
            } else {
                None
            }),
    {
        match key {
            Key::PageDown => Some(false),
            Key::PageUp => Some(true),
            Key::Z => if self == Layout::Piano {
                Some(false)
            } else {
                None
            },
            Key::X => if self == Layout::Piano {
                Some(true)
            } else {
                None
            },
            _ => None,
        }
    }
}

/// The text on a key of the grid.
pub fn key_label(key: PianoKey) -> (label: &'static str)
    ensures
        label@ == label_of(key),
{
    match key {
        PianoKey::CapsLock => "Hyper",
        PianoKey::ShiftLeft => "LShift",
        PianoKey::ShiftRight => "RShift",
        PianoKey::Key(key) => match key {
            Key::A => "A",
            Key::B => "B",
            Key::C => "C",
            Key::D => "D",
            Key::E => "E",
            Key::F => "F",
            Key::G => "G",
            Key::H => "H",
            Key::I => "I",
            Key::J => "J",
            Key::K => "K",
            Key::L => "L",
            Key::M => "M",
            Key::N => "N",
            Key::O => "O",
            Key::P => "P",
            Key::Q => "Q",
            Key::R => "R",
            Key::S => "S",
            Key::T => "T",
            Key::U => "U",
            Key::V => "V",
            Key::W => "W",
            Key::X => "X",
            Key::Y => "Y",
            Key::Z => "Z",
            Key::Num0 => "0",
            Key::Num1 => "1",
            Key::Num2 => "2",
            Key::Num3 => "3",
            Key::Num4 => "4",
            Key::Num5 => "5",
            Key::Num6 => "6",
            Key::Num7 => "7",
            Key::Num8 => "8",
            Key::Num9 => "9",
            Key::Backtick => "`",
            Key::Minus => "-",
            Key::OpenBracket => "[",
            Key::Semicolon => ";",
            Key::Quote => "'",
            Key::Comma => ",",
            Key::Period => ".",
            Key::Slash => "/",
            Key::Tab => "Tab",
            _ => "",
        },
    }
}

/// The text on a key of the grid; other keys have none.
pub open spec fn label_of(key: PianoKey) -> Seq<char> {
    match key {
        PianoKey::CapsLock => "Hyper"@,
        PianoKey::ShiftLeft => "LShift"@,
        PianoKey::ShiftRight => "RShift"@,
        PianoKey::Key(key) => match key {
            Key::A => "A"@,
            Key::B => "B"@,
            Key::C => "C"@,
            Key::D => "D"@,
            Key::E => "E"@,
            Key::F => "F"@,
            Key::G => "G"@,
            Key::H => "H"@,
            Key::I => "I"@,
            Key::J => "J"@,
            Key::K => "K"@,
            Key::L => "L"@,
            Key::M => "M"@,
            Key::N => "N"@,
            Key::O => "O"@,
            Key::P => "P"@,
            Key::Q => "Q"@,
            Key::R => "R"@,
            Key::S => "S"@,
            Key::T => "T"@,
            Key::U => "U"@,
            Key::V => "V"@,
            Key::W => "W"@,
            Key::X => "X"@,
            Key::Y => "Y"@,
            Key::Z => "Z"@,
            Key::Num0 => "0"@,
            Key::Num1 => "1"@,
            Key::Num2 => "2"@,
            Key::Num3 => "3"@,
            Key::Num4 => "4"@,
            Key::Num5 => "5"@,
            Key::Num6 => "6"@,
            Key::Num7 => "7"@,
            Key::Num8 => "8"@,
            Key::Num9 => "9"@,
            Key::Backtick => "`"@,
            Key::Minus => "-"@,
            Key::OpenBracket => "["@,
            Key::Semicolon => ";"@,
            Key::Quote => "'"@,
            Key::Comma => ","@,
            Key::Period => "."@,
            Key::Slash => "/"@,
            Key::Tab => "Tab"@,
            _ => ""@,
        },
    }
}

/// No key of the grid is at two places.
pub proof fn grid_keys_are_distinct(row: int, column: int, other_row: int, other_column: int)
    requires
        0 <= row < 4,
        0 <= column < 12,
        0 <= other_row < 4,
        0 <= other_column < 12,
        grid_row(row)[column] == grid_row(other_row)[other_column],
    ensures
        row == other_row && column == other_column,
{
    lemma_grid_is_injective(grid_row(row)[column], row, column, other_row, other_column);
}

/// A row of a grid lies exactly an octave above the one below it, whatever the root.
pub proof fn rows_are_an_octave_apart(layout: Layout, root: int, row: int, column: int)
    requires
        layout != Layout::Piano,
        0 <= root <= 72,
        0 <= row < 3,
        0 <= column < column_count(layout),
    ensures
        ({
            let upper = nearest(7 * root + 84 * (3 - row) + column_step(layout) * column);
            let lower = nearest(7 * root + 84 * (3 - (row + 1)) + column_step(layout) * column);
            upper.note == lower.note + 12 && upper.sevenths == lower.sevenths
        }),
{
    assert(0 <= column_step(layout) * column <= 77) by (nonlinear_arith)
        requires
            column_step(layout) == 12 && column < 7 || column_step(layout) == 7 && column < 12,
            0 <= column,
    ;
}

/// The columns of a row divide the octave into equal steps.
pub proof fn columns_divide_the_octave(layout: Layout, column: int)
    ensures
        column_count(layout) * column_step(layout) == 84,
        column_step(layout) * (column + 1) - column_step(layout) * column == column_step(layout),
{
    assert(column_step(layout) * (column + 1) - column_step(layout) * column == column_step(layout))
        by (nonlinear_arith);
}

/// Every key of the piano lies in the range of notes, up to the highest root.
pub proof fn piano_stays_in_range(root: int, offset: int)
    requires
        0 <= root <= Layout::Piano.highest_root(),
        0 <= offset < piano_keys().len(),
    ensures
        (7 * root + 7 * offset + 3) / 7 <= 127,
{
}

/// Every pitch of a grid lies in the range of notes, up to the highest root.
pub proof fn grids_stay_in_range(layout: Layout, root: int, row: int, column: int)
    requires
        layout != Layout::Piano,
        0 <= root <= layout.highest_root(),
        0 <= row < 4,
        0 <= column < column_count(layout),
    ensures
        (7 * root + 84 * (3 - row) + column_step(layout) * column + 3) / 7 <= 127,
{
    assert(0 <= column_step(layout) * column <= 77) by (nonlinear_arith)
        requires
            column_step(layout) == 12 && column < 7 || column_step(layout) == 7 && column < 12,
            0 <= column,
    ;
}

/// A pitch in sevenths of a semitone is the nearest note and what is left.
pub proof fn pitches_are_the_nearest_note(pitch: int)
    requires
        0 <= pitch <= 7 * 127 + 3,
    ensures
        7 * nearest(pitch).note + nearest(pitch).sevenths == pitch,
        -3 <= nearest(pitch).sevenths <= 3,
{
}

/// The keys of the piano are those of a real one: the middle row the white keys from the root up,
/// the row above the black ones.
pub proof fn piano_keys_lie_like_those_of_a_piano()
    ensures
        plays_above_root(Layout::Piano, PianoKey::Key(Key::A), 0),
        plays_above_root(Layout::Piano, PianoKey::Key(Key::S), 14),
        plays_above_root(Layout::Piano, PianoKey::Key(Key::D), 28),
        plays_above_root(Layout::Piano, PianoKey::Key(Key::F), 35),
        plays_above_root(Layout::Piano, PianoKey::Key(Key::G), 49),
        plays_above_root(Layout::Piano, PianoKey::Key(Key::H), 63),
        plays_above_root(Layout::Piano, PianoKey::Key(Key::J), 77),
        plays_above_root(Layout::Piano, PianoKey::Key(Key::K), 84),
        plays_above_root(Layout::Piano, PianoKey::Key(Key::L), 98),
        plays_above_root(Layout::Piano, PianoKey::Key(Key::Semicolon), 112),
        plays_above_root(Layout::Piano, PianoKey::Key(Key::W), 7),
        plays_above_root(Layout::Piano, PianoKey::Key(Key::E), 21),
        plays_above_root(Layout::Piano, PianoKey::Key(Key::T), 42),
        plays_above_root(Layout::Piano, PianoKey::Key(Key::Y), 56),
        plays_above_root(Layout::Piano, PianoKey::Key(Key::U), 70),
        plays_above_root(Layout::Piano, PianoKey::Key(Key::O), 91),
        plays_above_root(Layout::Piano, PianoKey::Key(Key::P), 105),
{
    assert(piano_keys()[0] == Key::A);
    assert(piano_keys()[1] == Key::W);
    assert(piano_keys()[2] == Key::S);
    assert(piano_keys()[3] == Key::E);
    assert(piano_keys()[4] == Key::D);
    assert(piano_keys()[5] == Key::F);
    assert(piano_keys()[6] == Key::T);
    assert(piano_keys()[7] == Key::G);
    assert(piano_keys()[8] == Key::Y);
    assert(piano_keys()[9] == Key::H);
    assert(piano_keys()[10] == Key::U);
    assert(piano_keys()[11] == Key::J);
    assert(piano_keys()[12] == Key::K);
    assert(piano_keys()[13] == Key::O);
    assert(piano_keys()[14] == Key::L);
    assert(piano_keys()[15] == Key::P);
    assert(piano_keys()[16] == Key::Semicolon);
}

/// The keys of the grid lie like those of the keyboard, in four rows of twelve.
pub proof fn grid_keys_lie_like_those_of_the_keyboard()
    ensures
        on_grid(PianoKey::Key(Key::Backtick), 0, 0),
        on_grid(PianoKey::Key(Key::Num1), 0, 1),
        on_grid(PianoKey::Key(Key::Num2), 0, 2),
        on_grid(PianoKey::Key(Key::Num3), 0, 3),
        on_grid(PianoKey::Key(Key::Num4), 0, 4),
        on_grid(PianoKey::Key(Key::Num5), 0, 5),
        on_grid(PianoKey::Key(Key::Num6), 0, 6),
        on_grid(PianoKey::Key(Key::Num7), 0, 7),
        on_grid(PianoKey::Key(Key::Num8), 0, 8),
        on_grid(PianoKey::Key(Key::Num9), 0, 9),
        on_grid(PianoKey::Key(Key::Num0), 0, 10),
        on_grid(PianoKey::Key(Key::Minus), 0, 11),
        on_grid(PianoKey::Key(Key::Tab), 1, 0),
        on_grid(PianoKey::Key(Key::Q), 1, 1),
        on_grid(PianoKey::Key(Key::W), 1, 2),
        on_grid(PianoKey::Key(Key::E), 1, 3),
        on_grid(PianoKey::Key(Key::R), 1, 4),
        on_grid(PianoKey::Key(Key::T), 1, 5),
        on_grid(PianoKey::Key(Key::Y), 1, 6),
        on_grid(PianoKey::Key(Key::U), 1, 7),
        on_grid(PianoKey::Key(Key::I), 1, 8),
        on_grid(PianoKey::Key(Key::O), 1, 9),
        on_grid(PianoKey::Key(Key::P), 1, 10),
        on_grid(PianoKey::Key(Key::OpenBracket), 1, 11),
        on_grid(PianoKey::CapsLock, 2, 0),
        on_grid(PianoKey::Key(Key::A), 2, 1),
        on_grid(PianoKey::Key(Key::S), 2, 2),
        on_grid(PianoKey::Key(Key::D), 2, 3),
        on_grid(PianoKey::Key(Key::F), 2, 4),
        on_grid(PianoKey::Key(Key::G), 2, 5),
        on_grid(PianoKey::Key(Key::H), 2, 6),
        on_grid(PianoKey::Key(Key::J), 2, 7),
        on_grid(PianoKey::Key(Key::K), 2, 8),
        on_grid(PianoKey::Key(Key::L), 2, 9),
        on_grid(PianoKey::Key(Key::Semicolon), 2, 10),
        on_grid(PianoKey::Key(Key::Quote), 2, 11),
        on_grid(PianoKey::ShiftLeft, 3, 0),
        on_grid(PianoKey::Key(Key::Z), 3, 1),
        on_grid(PianoKey::Key(Key::X), 3, 2),
        on_grid(PianoKey::Key(Key::C), 3, 3),
        on_grid(PianoKey::Key(Key::V), 3, 4),
        on_grid(PianoKey::Key(Key::B), 3, 5),
        on_grid(PianoKey::Key(Key::N), 3, 6),
        on_grid(PianoKey::Key(Key::M), 3, 7),
        on_grid(PianoKey::Key(Key::Comma), 3, 8),
        on_grid(PianoKey::Key(Key::Period), 3, 9),
        on_grid(PianoKey::Key(Key::Slash), 3, 10),
        on_grid(PianoKey::ShiftRight, 3, 11),
{
}

/// There are seven white keys to the octave, as on a piano that starts with a C.
pub proof fn octaves_have_seven_white_keys(offset: nat)
    ensures
        whites_below(offset + 12) == whites_below(offset) + 7,
        white(0) && !white(1) && white(2) && !white(3) && white(4) && white(5) && !white(6)
            && white(7) && !white(8) && white(9) && !white(10) && white(11),
        white(offset as int + 12) == white(offset as int),
    decreases offset,
{
    if offset == 0 {
        reveal_with_fuel(whites_below, 13);
        assert(whites_below(1) == 1);
        assert(whites_below(2) == 1);
        assert(whites_below(3) == 2);
        assert(whites_below(4) == 2);
        assert(whites_below(5) == 3);
        assert(whites_below(6) == 4);
        assert(whites_below(7) == 4);
        assert(whites_below(8) == 5);
        assert(whites_below(9) == 5);
        assert(whites_below(10) == 6);
        assert(whites_below(11) == 6);
        assert(whites_below(12) == 7);
    } else {
        octaves_have_seven_white_keys((offset - 1) as nat);
        assert((offset - 1 + 12) % 12 == (offset - 1) % 12);
    }
}

/// Page up and page down move by an octave in every layout, Z and X only where they play no note.
pub proof fn octave_keys_play_no_note(layout: Layout, key: Key, sevenths: int)
    requires
        layout.moves_octave(key),
    ensures
        key == Key::PageUp || key == Key::PageDown || key == Key::Z || key == Key::X,
        key == Key::Z || key == Key::X ==> layout == Layout::Piano,
        !plays_above_root(layout, PianoKey::Key(key), sevenths),
        layout.moves_octave(Key::PageUp) && layout.moves_octave(Key::PageDown),
{
}

/// The highest root is the last octave from which all keys can be played.
pub proof fn highest_roots_leave_room_for_every_key(layout: Layout)
    ensures
        layout == Layout::Piano ==> layout.highest_root() + 16 <= 127 < layout.highest_root() + 12
            + 16,
        layout != Layout::Piano ==> layout.highest_root() + 47 <= 127 < layout.highest_root() + 12
            + 47,
        layout.highest_root() % 12 == 0,
{
}

/// The grids play upwards from the lowest row: a row is an octave above the one below, a column a
/// semitone, or a seventh of the octave where it is divided in seven; the columns beyond that
/// play nothing.
pub proof fn grid_keys_play_by_row_and_column(
    key: PianoKey,
    row: int,
    column: int,
    sevenths: int,
)
    requires
        on_grid(key, row, column),
    ensures
        plays_above_root(Layout::Chromatic, key, sevenths) <==> sevenths == 84 * (3 - row) + 7
            * column,
        column < 7 ==> (plays_above_root(Layout::SevenEdo, key, sevenths) <==> sevenths == 84 * (3
            - row) + 12 * column),
        column >= 7 ==> !plays_above_root(Layout::SevenEdo, key, sevenths),
{
    if plays_above_root(Layout::Chromatic, key, sevenths) {
        let (r, c) = choose|r: int, c: int|
            #[trigger] on_grid(key, r, c) && c < column_count(Layout::Chromatic) && sevenths == 84
                * (3 - r) + column_step(Layout::Chromatic) * c;
        lemma_grid_is_injective(key, row, column, r, c);
    }
    if plays_above_root(Layout::SevenEdo, key, sevenths) {
        let (r, c) = choose|r: int, c: int|
            #[trigger] on_grid(key, r, c) && c < column_count(Layout::SevenEdo) && sevenths == 84
                * (3 - r) + column_step(Layout::SevenEdo) * c;
        lemma_grid_is_injective(key, row, column, r, c);
    }
}

} // verus!
