//! File names of the catalog: what the name of a character's file tells.
//!
//! A character's file is named `Pl`, a two-letter code of the character, what
//! the file holds, and `.dat`. What the file holds is nothing for the data
//! that the costumes of a character share, a two-letter code of the colour
//! for a costume, or the name of an animation. Kirby has files for the powers
//! that he copies from another character too: `Cp` and the code of that
//! character, with or without the code of a colour in front.

use crate::search::{has_dat_suffix, is_dat_name};
use vstd::prelude::*;

verus! {

/// The character that a two-letter code stands for.
pub open spec fn character_name_spec(a: char, b: char) -> Option<&'static str> {
    match (a, b) {
        ('B', 'o') => Some("Male Wireframe"),
        ('C', 'a') => Some("Captain Falcon"),
        ('C', 'h') => Some("Crazy Hand"),
        ('C', 'l') => Some("Young Link"),
        ('C', 'o') => Some("Common"),
        ('D', 'k') => Some("Donkey Kong"),
        ('D', 'r') => Some("Dr. Mario"),
        ('F', 'c') => Some("Falco"),
        ('F', 'e') => Some("Roy"),
        ('F', 'x') => Some("Fox"),
        ('G', 'k') => Some("GigaBowser"),
        ('G', 'l') => Some("Female Wireframe"),
        ('G', 'n') => Some("Ganondorf"),
        ('G', 'w') => Some("Game 'n Watch"),
        ('I', 'c') => Some("Ice Climbers"),
        ('K', 'b') => Some("Kirby"),
        ('K', 'p') => Some("Bowser"),
        ('L', 'g') => Some("Luigi"),
        ('L', 'k') => Some("Link"),
        ('M', 'h') => Some("Master Hand"),
        ('M', 'n') => Some("Menus Data"),
        ('M', 'r') => Some("Mario"),
        ('M', 's') => Some("Marth"),
        ('M', 't') => Some("Mewtwo"),
        ('N', 'n') => Some("[Nana] Ice Climbers"),
        ('N', 's') => Some("Ness"),
        ('P', 'c') => Some("Pichu"),
        ('P', 'e') => Some("Peach"),
        ('P', 'k') => Some("Pikachu"),
        ('P', 'n') => Some("[Popo/Nana] Ice Climbers"),
        ('P', 'p') => Some("[Popo] Ice Climbers"),
        ('P', 'r') => Some("Jigglypuff"),
        ('S', 'b') => Some("SandBag"),
        ('S', 'k') => Some("Sheik"),
        ('S', 's') => Some("Samus"),
        ('W', 'f') => Some("Wolf"),
        ('Y', 's') => Some("Yoshi"),
        ('Z', 'd') => Some("Zelda"),
        _ => None,
    }
}

/// The colour that a two-letter code stands for.
pub open spec fn color_name_spec(a: char, b: char) -> Option<&'static str> {
    match (a, b) {
        ('A', 'q') => Some("Aqua"),
        ('B', 'k') => Some("Black"),
        ('B', 'u') => Some("Blue"),
        ('G', 'r') => Some("Green"),
        ('G', 'y') => Some("Gray"),
        ('L', 'a') => Some("Lavender"),
        ('N', 'r') => Some("Neutral"),
        ('O', 'r') => Some("Orange"),
        ('P', 'i') => Some("Pink"),
        ('R', 'e') => Some("Red"),
        ('W', 'h') => Some("White"),
        ('Y', 'e') => Some("Yellow"),
        _ => None,
    }
}

/// Looks up the character that a two-letter code stands for.
pub fn character_name(a: char, b: char) -> (name: Option<&'static str>)
    ensures
        name == character_name_spec(a, b),
{
    match (a, b) {
        ('B', 'o') => Some("Male Wireframe"),
        ('C', 'a') => Some("Captain Falcon"),
        ('C', 'h') => Some("Crazy Hand"),
        ('C', 'l') => Some("Young Link"),
        ('C', 'o') => Some("Common"),
        ('D', 'k') => Some("Donkey Kong"),
        ('D', 'r') => Some("Dr. Mario"),
        ('F', 'c') => Some("Falco"),
        ('F', 'e') => Some("Roy"),
        ('F', 'x') => Some("Fox"),
        ('G', 'k') => Some("GigaBowser"),
        ('G', 'l') => Some("Female Wireframe"),
        ('G', 'n') => Some("Ganondorf"),
        ('G', 'w') => Some("Game 'n Watch"),
        ('I', 'c') => Some("Ice Climbers"),
        ('K', 'b') => Some("Kirby"),
        ('K', 'p') => Some("Bowser"),
        ('L', 'g') => Some("Luigi"),
        ('L', 'k') => Some("Link"),
        ('M', 'h') => Some("Master Hand"),
        ('M', 'n') => Some("Menus Data"),
        ('M', 'r') => Some("Mario"),
        ('M', 's') => Some("Marth"),
        ('M', 't') => Some("Mewtwo"),
        ('N', 'n') => Some("[Nana] Ice Climbers"),
        ('N', 's') => Some("Ness"),
        ('P', 'c') => Some("Pichu"),
        ('P', 'e') => Some("Peach"),
        ('P', 'k') => Some("Pikachu"),
        ('P', 'n') => Some("[Popo/Nana] Ice Climbers"),
        ('P', 'p') => Some("[Popo] Ice Climbers"),
        ('P', 'r') => Some("Jigglypuff"),
        ('S', 'b') => Some("SandBag"),
        ('S', 'k') => Some("Sheik"),
        ('S', 's') => Some("Samus"),
        ('W', 'f') => Some("Wolf"),
        ('Y', 's') => Some("Yoshi"),
        ('Z', 'd') => Some("Zelda"),
        _ => None,
    }
}

/// Looks up the colour that a two-letter code stands for.
pub fn color_name(a: char, b: char) -> (name: Option<&'static str>)
    ensures
        name == color_name_spec(a, b),
{
    match (a, b) {
        ('A', 'q') => Some("Aqua"),
        ('B', 'k') => Some("Black"),
        ('B', 'u') => Some("Blue"),
        ('G', 'r') => Some("Green"),
        ('G', 'y') => Some("Gray"),
        ('L', 'a') => Some("Lavender"),
        ('N', 'r') => Some("Neutral"),
        ('O', 'r') => Some("Orange"),
        ('P', 'i') => Some("Pink"),
        ('R', 'e') => Some("Red"),
        ('W', 'h') => Some("White"),
        ('Y', 'e') => Some("Yellow"),
        _ => None,
    }
}

/// What the name of a character's file tells.
#[derive(Debug, Clone, PartialEq, Eq)]
pub struct CharacterFile {
    /// The name of the file.
    pub filename: String,
    /// The name of the character.
    pub name: String,
    /// The colour of the costume, if the file holds a costume.
    pub color: Option<String>,
    /// The character that Kirby copies a power from, if the file holds one.
    pub kirby_copy: Option<String>,
}

/// The mathematical value of a [`CharacterFile`].
pub struct CharacterFileView {
    pub filename: Seq<char>,
    pub name: Seq<char>,
    pub color: Option<Seq<char>>,
    pub kirby_copy: Option<Seq<char>>,
}

impl View for CharacterFile {
    type V = CharacterFileView;

    open spec fn view(&self) -> CharacterFileView {
        CharacterFileView {
            filename: self.filename@,
            name: self.name@,
            color: match self.color {
                Some(color) => Some(color@),
                None => None,
            },
            kirby_copy: match self.kirby_copy {
                Some(copied) => Some(copied@),
                None => None,
            },
        }
    }
}

/// The view of a name that may be missing.
pub open spec fn name_view(name: Option<&'static str>) -> Option<Seq<char>> {
    match name {
        Some(name) => Some(name@),
        None => None,
    }
}

/// Whether what the file holds is shared data or an animation, which have
/// neither a colour nor a copied power: nothing, `AJ` or `DViWaitAJ`.
pub open spec fn is_plain(rest: Seq<char>) -> bool {
    rest.len() == 0 || rest == seq!['A', 'J'] || rest == seq![
        'D',
        'V',
        'i',
        'W',
        'a',
        'i',
        't',
        'A',
        'J',
    ]
}

/// The colour and the copied power that the part `rest` of a file name
/// stands for, between the code of the character and `.dat`, or `None` if it
/// stands for nothing that the catalog knows.
pub open spec fn contents_spec(kirby: bool, rest: Seq<char>) -> Option<
    (Option<&'static str>, Option<&'static str>),
> {
    if is_plain(rest) {
        Some((None, None))
    } else if rest.len() == 2 {
        match color_name_spec(rest[0], rest[1]) {
            Some(color) => Some((Some(color), None)),
            None => None,
        }
    } else if kirby && rest.len() == 4 && rest[0] == 'C' && rest[1] == 'p' {
        match character_name_spec(rest[2], rest[3]) {
            Some(copied) => Some((None, Some(copied))),
            None => None,
        }
    } else if kirby && rest.len() == 6 && rest[2] == 'C' && rest[3] == 'p' {
        match (color_name_spec(rest[0], rest[1]), character_name_spec(rest[4], rest[5])) {
            (Some(color), Some(copied)) => Some((Some(color), Some(copied))),
            _ => None,
        }
    } else {
        None
    }
}

/// What the file name tells, or `None` if it is not the name of a
/// character's file that the catalog knows.
pub open spec fn classify_spec(filename: Seq<char>) -> Option<CharacterFileView> {
    if filename.len() < 8 || filename[0] != 'P' || filename[1] != 'l' || !is_dat_name(filename) {
        None
    } else {
        match character_name_spec(filename[2], filename[3]) {
            None => None,
            Some(name) => match contents_spec(
                filename[2] == 'K' && filename[3] == 'b',
                filename.subrange(4, filename.len() - 4),
            ) {
                None => None,
                Some((color, copied)) => Some(
                    CharacterFileView {
                        filename,
                        name: name@,
                        color: name_view(color),
                        kirby_copy: name_view(copied),
                    },
                ),
            },
        }
    }
}

/// The characters of a string.
fn chars_of(text: &str) -> (chars: Vec<char>)
    ensures
        chars@ == text@,
{
    let length = text.unicode_len();
    let mut chars: Vec<char> = Vec::new();
    let mut i: usize = 0;
    while i < length
        invariant
            i <= length,
            length == text@.len(),
            chars@ == text@.subrange(0, i as int),
        decreases length - i,
    {
        chars.push(text.get_char(i));
        assert(chars@ =~= text@.subrange(0, i + 1));
        i = i + 1;
    }
    assert(chars@ =~= text@);
    chars
}

/// Tells whether the characters are those of `AJ` or `DViWaitAJ`, or none.
fn plain_contents(rest: &[char]) -> (plain: bool)
    ensures
        plain == is_plain(rest@),
{
    let n = rest.len();
    if n == 0 {
        true
    } else if n == 2 {
        let plain = rest[0] == 'A' && rest[1] == 'J';
        proof {
            if plain {
                assert(rest@ =~= seq!['A', 'J']);
            } else {
                assert(seq!['A', 'J'][0] == 'A' && seq!['A', 'J'][1] == 'J');
            }
        }
        plain
    } else if n == 9 {
        let plain = rest[0] == 'D' && rest[1] == 'V' && rest[2] == 'i' && rest[3] == 'W' && rest[4]
            == 'a' && rest[5] == 'i' && rest[6] == 't' && rest[7] == 'A' && rest[8] == 'J';
        proof {
            let wait = seq!['D', 'V', 'i', 'W', 'a', 'i', 't', 'A', 'J'];
            if plain {
                assert(rest@ =~= wait);
            } else {
                assert(wait[0] == 'D' && wait[1] == 'V' && wait[2] == 'i' && wait[3] == 'W'
                    && wait[4] == 'a' && wait[5] == 'i' && wait[6] == 't' && wait[7] == 'A'
                    && wait[8] == 'J');
            }
        }
        plain
    } else {
        proof {
            assert(seq!['A', 'J'].len() == 2);
            assert(seq!['D', 'V', 'i', 'W', 'a', 'i', 't', 'A', 'J'].len() == 9);
        }
        false
    }
}

/// Works out the colour and the copied power that a part of a file name
/// stands for.
pub fn contents(kirby: bool, rest: &[char]) -> (found: Option<
    (Option<&'static str>, Option<&'static str>),
>)
    ensures
        found == contents_spec(kirby, rest@),
{
    if plain_contents(rest) {
        return Some((None, None));
    }
    let n = rest.len();
    if n == 2 {
        match color_name(rest[0], rest[1]) {
            Some(color) => Some((Some(color), None)),
            None => None,
        }
    } else if kirby && n == 4 && rest[0] == 'C' && rest[1] == 'p' {
        match character_name(rest[2], rest[3]) {
            Some(copied) => Some((None, Some(copied))),
            None => None,
        }
    } else if kirby && n == 6 && rest[2] == 'C' && rest[3] == 'p' {
        match (color_name(rest[0], rest[1]), character_name(rest[4], rest[5])) {
            (Some(color), Some(copied)) => Some((Some(color), Some(copied))),
            _ => None,
        }
    } else {
        None
    }
}

/// A name as an owned string, if there is one.
fn owned(name: Option<&'static str>) -> (text: Option<String>)
    ensures
        match text {
            Some(text) => name_view(name) == Some(text@),
            None => name is None,
        },
{
    match name {
        Some(name) => Some(name.to_owned()),
        None => None,
    }
}

impl CharacterFile {
    /// Reads off the name of a file what the file holds.
    ///
    /// Returns `None` exactly when the name is not that of a character's
    /// file that the catalog knows.
    pub fn from_str(filename: &str) -> (file: Option<CharacterFile>)
        ensures
            match classify_spec(filename@) {
                Some(view) => file matches Some(f) && f@ == view,
                None => file is None,
            },
    {
        let chars = chars_of(filename);
        let n = chars.len();
        if n < 8 || chars[0] != 'P' || chars[1] != 'l' || !has_dat_suffix(filename) {
            return None;
        }
        let name = match character_name(chars[2], chars[3]) {
            Some(name) => name,
            None => {
                return None;
            },
        };
        let kirby = chars[2] == 'K' && chars[3] == 'b';
        let rest = vstd::slice::slice_subrange(chars.as_slice(), 4, n - 4);
        match contents(kirby, rest) {
            None => None,
            Some((color, copied)) => Some(
                CharacterFile {
                    filename: filename.to_owned(),
                    name: name.to_owned(),
                    color: owned(color),
                    kirby_copy: owned(copied),
                },
            ),
        }
    }
}

} // verus!
