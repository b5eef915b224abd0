//! The text form of a chord: parsing and canonical printing.
//!
//! A chord is written as modifiers and at most one ordinary key joined by
//! `+`. Parsing ignores case and the order of the parts, and tolerates white
//! space around each part. `""`, white space alone and `None` all mean the
//! binding that binds nothing. Modifier spellings: `Super`/`Meta`/`Cmd`/`Win`,
//! `Ctrl`/`Control`, `Alt`/`Option`, `Shift`. Keys are written by their labels
//! (`A`, `1`, `F5`, `Space`, `Left`, `PageUp`, `Slash`, ...). Printing is
//! canonical: `Super`, `Ctrl`, `Alt`, `Shift`, then the key, and `None` for
//! the empty binding.

use vstd::prelude::*;

use crate::hotkey::{spec_union, union};
use crate::keys::{KeyCode, Keybind, Mods};

verus! {

/// Why a chord's text does not parse.
#[derive(Debug, Clone, Copy, PartialEq, Eq, Structural)]
pub enum KeybindError {
    /// A part between two `+` (or at either end) is empty.
    EmptyPart,
    /// A part is neither a modifier nor a key label.
    UnknownName,
    /// More than one ordinary key.
    TwoKeys,
}

// --- MARK: characters ---

/// Unicode `White_Space`, the set `char::is_whitespace` tests.
pub open spec fn is_space(c: char) -> bool {
    ||| '\u{9}' <= c <= '\u{d}'
    ||| c == ' '
    ||| c == '\u{85}'
    ||| c == '\u{a0}'
    ||| c == '\u{1680}'
    ||| '\u{2000}' <= c <= '\u{200a}'
    ||| c == '\u{2028}'
    ||| c == '\u{2029}'
    ||| c == '\u{202f}'
    ||| c == '\u{205f}'
    ||| c == '\u{3000}'
}

/// Whether `c` is white space (the test `char::is_whitespace` makes).
pub fn char_is_space(c: char) -> (r: bool)
    ensures
        r == is_space(c),
{
    ('\u{9}' <= c && c <= '\u{d}') || c == ' ' || c == '\u{85}' || c == '\u{a0}' || c == '\u{1680}'
        || ('\u{2000}' <= c && c <= '\u{200a}') || c == '\u{2028}' || c == '\u{2029}' || c == '\u{202f}'
        || c == '\u{205f}' || c == '\u{3000}'
}

/// ASCII lower case of one character.
pub open spec fn lower_char(c: char) -> char {
    if 'A' <= c <= 'Z' {
        ((c as int) + 32) as char
    } else {
        c
    }
}

pub open spec fn lower(s: Seq<char>) -> Seq<char> {
    s.map_values(|c: char| lower_char(c))
}

pub open spec fn trim_start(s: Seq<char>) -> Seq<char>
    decreases s.len(),
{
    if s.len() > 0 && is_space(s[0]) {
        trim_start(s.drop_first())
    } else {
        s
    }
}

pub open spec fn trim_end(s: Seq<char>) -> Seq<char>
    decreases s.len(),
{
    if s.len() > 0 && is_space(s.last()) {
        trim_end(s.drop_last())
    } else {
        s
    }
}

/// `s` without leading and trailing white space.
pub open spec fn trim(s: Seq<char>) -> Seq<char> {
    trim_end(trim_start(s))
}

// --- MARK: names ---

/// The canonical label of a key.
pub open spec fn spec_label(key: KeyCode) -> Seq<char> {
    match key {
        KeyCode::A => seq!['A'],
        KeyCode::B => seq!['B'],
        KeyCode::C => seq!['C'],
        KeyCode::D => seq!['D'],
        KeyCode::E => seq!['E'],
        KeyCode::F => seq!['F'],
        KeyCode::G => seq!['G'],
        KeyCode::H => seq!['H'],
        KeyCode::I => seq!['I'],
        KeyCode::J => seq!['J'],
        KeyCode::K => seq!['K'],
        KeyCode::L => seq!['L'],
        KeyCode::M => seq!['M'],
        KeyCode::N => seq!['N'],
        KeyCode::O => seq!['O'],
        KeyCode::P => seq!['P'],
        KeyCode::Q => seq!['Q'],
        KeyCode::R => seq!['R'],
        KeyCode::S => seq!['S'],
        KeyCode::T => seq!['T'],
        KeyCode::U => seq!['U'],
        KeyCode::V => seq!['V'],
        KeyCode::W => seq!['W'],
        KeyCode::X => seq!['X'],
        KeyCode::Y => seq!['Y'],
        KeyCode::Z => seq!['Z'],
        KeyCode::Digit0 => seq!['0'],
        KeyCode::Digit1 => seq!['1'],
        KeyCode::Digit2 => seq!['2'],
        KeyCode::Digit3 => seq!['3'],
        KeyCode::Digit4 => seq!['4'],
        KeyCode::Digit5 => seq!['5'],
        KeyCode::Digit6 => seq!['6'],
        KeyCode::Digit7 => seq!['7'],
        KeyCode::Digit8 => seq!['8'],
        KeyCode::Digit9 => seq!['9'],
        KeyCode::F1 => seq!['F', '1'],
        KeyCode::F2 => seq!['F', '2'],
        KeyCode::F3 => seq!['F', '3'],
        KeyCode::F4 => seq!['F', '4'],
        KeyCode::F5 => seq!['F', '5'],
        KeyCode::F6 => seq!['F', '6'],
        KeyCode::F7 => seq!['F', '7'],
        KeyCode::F8 => seq!['F', '8'],
        KeyCode::F9 => seq!['F', '9'],
        KeyCode::F10 => seq!['F', '1', '0'],
        KeyCode::F11 => seq!['F', '1', '1'],
        KeyCode::F12 => seq!['F', '1', '2'],
        KeyCode::Space => seq!['S', 'p', 'a', 'c', 'e'],
        KeyCode::Enter => seq!['E', 'n', 't', 'e', 'r'],
        KeyCode::Tab => seq!['T', 'a', 'b'],
        KeyCode::Escape => seq!['E', 's', 'c', 'a', 'p', 'e'],
        KeyCode::Backspace => seq!['B', 'a', 'c', 'k', 's', 'p', 'a', 'c', 'e'],
        KeyCode::Delete => seq!['D', 'e', 'l', 'e', 't', 'e'],
        KeyCode::Insert => seq!['I', 'n', 's', 'e', 'r', 't'],
        KeyCode::Home => seq!['H', 'o', 'm', 'e'],
        KeyCode::End => seq!['E', 'n', 'd'],
        KeyCode::PageUp => seq!['P', 'a', 'g', 'e', 'U', 'p'],
        KeyCode::PageDown => seq!['P', 'a', 'g', 'e', 'D', 'o', 'w', 'n'],
        KeyCode::CapsLock => seq!['C', 'a', 'p', 's', 'L', 'o', 'c', 'k'],
        KeyCode::ArrowUp => seq!['U', 'p'],
        KeyCode::ArrowDown => seq!['D', 'o', 'w', 'n'],
        KeyCode::ArrowLeft => seq!['L', 'e', 'f', 't'],
        KeyCode::ArrowRight => seq!['R', 'i', 'g', 'h', 't'],
        KeyCode::Minus => seq!['M', 'i', 'n', 'u', 's'],
        KeyCode::Equal => seq!['E', 'q', 'u', 'a', 'l'],
        KeyCode::LeftBracket => seq!['L', 'e', 'f', 't', 'B', 'r', 'a', 'c', 'k', 'e', 't'],
        KeyCode::RightBracket => seq!['R', 'i', 'g', 'h', 't', 'B', 'r', 'a', 'c', 'k', 'e', 't'],
        KeyCode::Backslash => seq!['B', 'a', 'c', 'k', 's', 'l', 'a', 's', 'h'],
        KeyCode::Semicolon => seq!['S', 'e', 'm', 'i', 'c', 'o', 'l', 'o', 'n'],
        KeyCode::Quote => seq!['Q', 'u', 'o', 't', 'e'],
        KeyCode::Backquote => seq!['B', 'a', 'c', 'k', 'q', 'u', 'o', 't', 'e'],
        KeyCode::Comma => seq!['C', 'o', 'm', 'm', 'a'],
        KeyCode::Period => seq!['P', 'e', 'r', 'i', 'o', 'd'],
        KeyCode::Slash => seq!['S', 'l', 'a', 's', 'h'],
    }
}

/// What one part of a chord's text names.
#[derive(Debug, Clone, Copy, PartialEq, Eq, Structural)]
pub enum Part {
    Modifier(Mods),
    Key(KeyCode),
}

/// What a trimmed, lower-case part names, if anything.
pub open spec fn spec_part_named(t: Seq<char>) -> Option<Part> {
    if t.len() == 1 {
        if t[0] == '0' {
            Some(Part::Key(KeyCode::Digit0))
        } else if t[0] == '1' {
            Some(Part::Key(KeyCode::Digit1))
        } else if t[0] == '2' {
            Some(Part::Key(KeyCode::Digit2))
        } else if t[0] == '3' {
            Some(Part::Key(KeyCode::Digit3))
        } else if t[0] == '4' {
            Some(Part::Key(KeyCode::Digit4))
        } else if t[0] == '5' {
            Some(Part::Key(KeyCode::Digit5))
        } else if t[0] == '6' {
            Some(Part::Key(KeyCode::Digit6))
        } else if t[0] == '7' {
            Some(Part::Key(KeyCode::Digit7))
        } else if t[0] == '8' {
            Some(Part::Key(KeyCode::Digit8))
        } else if t[0] == '9' {
            Some(Part::Key(KeyCode::Digit9))
        } else if t[0] == 'a' {
            Some(Part::Key(KeyCode::A))
        } else if t[0] == 'b' {
            Some(Part::Key(KeyCode::B))
        } else if t[0] == 'c' {
            Some(Part::Key(KeyCode::C))
        } else if t[0] == 'd' {
            Some(Part::Key(KeyCode::D))
        } else if t[0] == 'e' {
            Some(Part::Key(KeyCode::E))
        } else if t[0] == 'f' {
            Some(Part::Key(KeyCode::F))
        } else if t[0] == 'g' {
            Some(Part::Key(KeyCode::G))
        } else if t[0] == 'h' {
            Some(Part::Key(KeyCode::H))
        } else if t[0] == 'i' {
            Some(Part::Key(KeyCode::I))
        } else if t[0] == 'j' {
            Some(Part::Key(KeyCode::J))
        } else if t[0] == 'k' {
            Some(Part::Key(KeyCode::K))
        } else if t[0] == 'l' {
            Some(Part::Key(KeyCode::L))
        } else if t[0] == 'm' {
            Some(Part::Key(KeyCode::M))
        } else if t[0] == 'n' {
            Some(Part::Key(KeyCode::N))
        } else if t[0] == 'o' {
            Some(Part::Key(KeyCode::O))
        } else if t[0] == 'p' {
            Some(Part::Key(KeyCode::P))
        } else if t[0] == 'q' {
            Some(Part::Key(KeyCode::Q))
        } else if t[0] == 'r' {
            Some(Part::Key(KeyCode::R))
        } else if t[0] == 's' {
            Some(Part::Key(KeyCode::S))
        } else if t[0] == 't' {
            Some(Part::Key(KeyCode::T))
        } else if t[0] == 'u' {
            Some(Part::Key(KeyCode::U))
        } else if t[0] == 'v' {
            Some(Part::Key(KeyCode::V))
        } else if t[0] == 'w' {
            Some(Part::Key(KeyCode::W))
        } else if t[0] == 'x' {
            Some(Part::Key(KeyCode::X))
        } else if t[0] == 'y' {
            Some(Part::Key(KeyCode::Y))
        } else if t[0] == 'z' {
            Some(Part::Key(KeyCode::Z))
        } else {
            None
        }
    } else if t.len() == 2 {
        if t[0] == 'f' {
            if t[1] == '1' {
                Some(Part::Key(KeyCode::F1))
            } else if t[1] == '2' {
                Some(Part::Key(KeyCode::F2))
            } else if t[1] == '3' {
                Some(Part::Key(KeyCode::F3))
            } else if t[1] == '4' {
                Some(Part::Key(KeyCode::F4))
            } else if t[1] == '5' {
                Some(Part::Key(KeyCode::F5))
            } else if t[1] == '6' {
                Some(Part::Key(KeyCode::F6))
            } else if t[1] == '7' {
                Some(Part::Key(KeyCode::F7))
            } else if t[1] == '8' {
                Some(Part::Key(KeyCode::F8))
            } else if t[1] == '9' {
                Some(Part::Key(KeyCode::F9))
            } else {
                None
            }
        } else if t[0] == 'u' {
            if t[1] == 'p' {
                Some(Part::Key(KeyCode::ArrowUp))
            } else {
                None
            }
        } else {
            None
        }
    } else if t.len() == 3 {
        if t[0] == 'a' {
            if t[1] == 'l' {
                if t[2] == 't' {
                    Some(Part::Modifier(Mods { meta: false, ctrl: false, alt: true, shift: false }))
                } else {
                    None
                }
            } else {
                None
            }
        } else if t[0] == 'c' {
            if t[1] == 'm' {
                if t[2] == 'd' {
                    Some(Part::Modifier(Mods { meta: true, ctrl: false, alt: false, shift: false }))
                } else {
                    None
                }
            } else {
                None
            }
        } else if t[0] == 'e' {
            if t[1] == 'n' {
                if t[2] == 'd' {
                    Some(Part::Key(KeyCode::End))
                } else {
                    None
                }
            } else {
                None
            }
        } else if t[0] == 'f' {
            if t[1] == '1' {
                if t[2] == '0' {
                    Some(Part::Key(KeyCode::F10))
                } else if t[2] == '1' {
                    Some(Part::Key(KeyCode::F11))
                } else if t[2] == '2' {
                    Some(Part::Key(KeyCode::F12))
                } else {
                    None
                }
            } else {
                None
            }
        } else if t[0] == 't' {
            if t[1] == 'a' {
                if t[2] == 'b' {
                    Some(Part::Key(KeyCode::Tab))
                } else {
                    None
                }
            } else {
                None
            }
        } else if t[0] == 'w' {
            if t[1] == 'i' {
                if t[2] == 'n' {
                    Some(Part::Modifier(Mods { meta: true, ctrl: false, alt: false, shift: false }))
                } else {
                    None
                }
            } else {
                None
            }
        } else {
            None
        }
    } else if t.len() == 4 {
        if t[0] == 'c' {
            if t[1] == 't' {
                if t[2] == 'r' {
                    if t[3] == 'l' {
                        Some(Part::Modifier(Mods { meta: false, ctrl: true, alt: false, shift: false }))
                    } else {
                        None
                    }
                } else {
                    None
                }
            } else {
                None
            }
        } else if t[0] == 'd' {
            if t[1] == 'o' {
                if t[2] == 'w' {
                    if t[3] == 'n' {
                        Some(Part::Key(KeyCode::ArrowDown))
                    } else {
                        None
                    }
                } else {
                    None
                }
            } else {
                None
            }
        } else if t[0] == 'h' {
            if t[1] == 'o' {
                if t[2] == 'm' {
                    if t[3] == 'e' {
                        Some(Part::Key(KeyCode::Home))
                    } else {
                        None
                    }
                } else {
                    None
                }
            } else {
                None
            }
        } else if t[0] == 'l' {
            if t[1] == 'e' {
                if t[2] == 'f' {
                    if t[3] == 't' {
                        Some(Part::Key(KeyCode::ArrowLeft))
                    } else {
                        None
                    }
                } else {
                    None
                }
            } else {
                None
            }
        } else if t[0] == 'm' {
            if t[1] == 'e' {
                if t[2] == 't' {
                    if t[3] == 'a' {
                        Some(Part::Modifier(Mods { meta: true, ctrl: false, alt: false, shift: false }))
                    } else {
                        None
                    }
                } else {
                    None
                }
            } else {
                None
            }
        } else {
            None
        }
    } else if t.len() == 5 {
        if t[0] == 'c' {
            if t[1] == 'o' {
                if t[2] == 'm' {
                    if t[3] == 'm' {
                        if t[4] == 'a' {
                            Some(Part::Key(KeyCode::Comma))
                        } else {
                            None
                        }
                    } else {
                        None
                    }
                } else {
                    None
                }
            } else {
                None
            }
        } else if t[0] == 'e' {
            if t[1] == 'n' {
                if t[2] == 't' {
                    if t[3] == 'e' {
                        if t[4] == 'r' {
                            Some(Part::Key(KeyCode::Enter))
                        } else {
                            None
                        }
                    } else {
                        None
                    }
                } else {
                    None
                }
            } else if t[1] == 'q' {
                if t[2] == 'u' {
                    if t[3] == 'a' {
                        if t[4] == 'l' {
                            Some(Part::Key(KeyCode::Equal))
                        } else {
                            None
                        }
                    } else {
                        None
                    }
                } else {
                    None
                }
            } else {
                None
            }
        } else if t[0] == 'm' {
            if t[1] == 'i' {
                if t[2] == 'n' {
                    if t[3] == 'u' {
                        if t[4] == 's' {
                            Some(Part::Key(KeyCode::Minus))
                        } else {
                            None
                        }
                    } else {
                        None
                    }
                } else {
                    None
                }
            } else {
                None
            }
        } else if t[0] == 'q' {
            if t[1] == 'u' {
                if t[2] == 'o' {
                    if t[3] == 't' {
                        if t[4] == 'e' {
                            Some(Part::Key(KeyCode::Quote))
                        } else {
                            None
                        }
                    } else {
                        None
                    }
                } else {
                    None
                }
            } else {
                None
            }
        } else if t[0] == 'r' {
            if t[1] == 'i' {
                if t[2] == 'g' {
                    if t[3] == 'h' {
                        if t[4] == 't' {
                            Some(Part::Key(KeyCode::ArrowRight))
                        } else {
                            None
                        }
                    } else {
                        None
                    }
                } else {
                    None
                }
            } else {
                None
            }
        } else if t[0] == 's' {
            if t[1] == 'h' {
                if t[2] == 'i' {
                    if t[3] == 'f' {
                        if t[4] == 't' {
                            Some(Part::Modifier(Mods { meta: false, ctrl: false, alt: false, shift: true }))
                        } else {
                            None
                        }
                    } else {
                        None
                    }
                } else {
                    None
                }
            } else if t[1] == 'l' {
                if t[2] == 'a' {
                    if t[3] == 's' {
                        if t[4] == 'h' {
                            Some(Part::Key(KeyCode::Slash))
                        } else {
                            None
                        }
                    } else {
                        None
                    }
                } else {
                    None
                }
            } else if t[1] == 'p' {
                if t[2] == 'a' {
                    if t[3] == 'c' {
                        if t[4] == 'e' {
                            Some(Part::Key(KeyCode::Space))
                        } else {
                            None
                        }
                    } else {
                        None
                    }
                } else {
                    None
                }
            } else if t[1] == 'u' {
                if t[2] == 'p' {
                    if t[3] == 'e' {
                        if t[4] == 'r' {
                            Some(Part::Modifier(Mods { meta: true, ctrl: false, alt: false, shift: false }))
                        } else {
                            None
                        }
                    } else {
                        None
                    }
                } else {
                    None
                }
            } else {
                None
            }
        } else {
            None
        }
    } else if t.len() == 6 {
        if t[0] == 'd' {
            if t[1] == 'e' {
                if t[2] == 'l' {
                    if t[3] == 'e' {
                        if t[4] == 't' {
                            if t[5] == 'e' {
                                Some(Part::Key(KeyCode::Delete))
                            } else {
                                None
                            }
                        } else {
                            None
                        }
                    } else {
                        None
                    }
                } else {
                    None
                }
            } else {
                None
            }
        } else if t[0] == 'e' {
            if t[1] == 's' {
                if t[2] == 'c' {
                    if t[3] == 'a' {
                        if t[4] == 'p' {
                            if t[5] == 'e' {
                                Some(Part::Key(KeyCode::Escape))
                            } else {
                                None
                            }
                        } else {
                            None
                        }
                    } else {
                        None
                    }
                } else {
                    None
                }
            } else {
                None
            }
        } else if t[0] == 'i' {
            if t[1] == 'n' {
                if t[2] == 's' {
                    if t[3] == 'e' {
                        if t[4] == 'r' {
                            if t[5] == 't' {
                                Some(Part::Key(KeyCode::Insert))
                            } else {
                                None
                            }
                        } else {
                            None
                        }
                    } else {
                        None
                    }
                } else {
                    None
                }
            } else {
                None
            }
        } else if t[0] == 'o' {
            if t[1] == 'p' {
                if t[2] == 't' {
                    if t[3] == 'i' {
                        if t[4] == 'o' {
                            if t[5] == 'n' {
                                Some(Part::Modifier(Mods { meta: false, ctrl: false, alt: true, shift: false }))
                            } else {
                                None
                            }
                        } else {
                            None
                        }
                    } else {
                        None
                    }
                } else {
                    None
                }
            } else {
                None
            }
        } else if t[0] == 'p' {
            if t[1] == 'a' {
                if t[2] == 'g' {
                    if t[3] == 'e' {
                        if t[4] == 'u' {
                            if t[5] == 'p' {
                                Some(Part::Key(KeyCode::PageUp))
                            } else {
                                None
                            }
                        } else {
                            None
                        }
                    } else {
                        None
                    }
                } else {
                    None
                }
            } else if t[1] == 'e' {
                if t[2] == 'r' {
                    if t[3] == 'i' {
                        if t[4] == 'o' {
                            if t[5] == 'd' {
                                Some(Part::Key(KeyCode::Period))
                            } else {
                                None
                            }
                        } else {
                            None
                        }
                    } else {
                        None
                    }
                } else {
                    None
                }
            } else {
                None
            }
        } else {
            None
        }
    } else if t.len() == 7 {
        if t[0] == 'c' {
            if t[1] == 'o' {
                if t[2] == 'n' {
                    if t[3] == 't' {
                        if t[4] == 'r' {
                            if t[5] == 'o' {
                                if t[6] == 'l' {
                                    Some(Part::Modifier(Mods { meta: false, ctrl: true, alt: false, shift: false }))
                                } else {
                                    None
                                }
                            } else {
                                None
                            }
                        } else {
                            None
                        }
                    } else {
                        None
                    }
                } else {
                    None
                }
            } else {
                None
            }
        } else {
            None
        }
    } else if t.len() == 8 {
        if t[0] == 'c' {
            if t[1] == 'a' {
                if t[2] == 'p' {
                    if t[3] == 's' {
                        if t[4] == 'l' {
                            if t[5] == 'o' {
                                if t[6] == 'c' {
                                    if t[7] == 'k' {
                                        Some(Part::Key(KeyCode::CapsLock))
                                    } else {
                                        None
                                    }
                                } else {
                                    None
                                }
                            } else {
                                None
                            }
                        } else {
                            None
                        }
                    } else {
                        None
                    }
                } else {
                    None
                }
            } else {
                None
            }
        } else if t[0] == 'p' {
            if t[1] == 'a' {
                if t[2] == 'g' {
                    if t[3] == 'e' {
                        if t[4] == 'd' {
                            if t[5] == 'o' {
                                if t[6] == 'w' {
                                    if t[7] == 'n' {
                                        Some(Part::Key(KeyCode::PageDown))
                                    } else {
                                        None
                                    }
                                } else {
                                    None
                                }
                            } else {
                                None
                            }
                        } else {
                            None
                        }
                    } else {
                        None
                    }
                } else {
                    None
                }
            } else {
                None
            }
        } else {
            None
        }
    } else if t.len() == 9 {
        if t[0] == 'b' {
            if t[1] == 'a' {
                if t[2] == 'c' {
                    if t[3] == 'k' {
                        if t[4] == 'q' {
                            if t[5] == 'u' {
                                if t[6] == 'o' {
                                    if t[7] == 't' {
                                        if t[8] == 'e' {
                                            Some(Part::Key(KeyCode::Backquote))
                                        } else {
                                            None
                                        }
                                    } else {
                                        None
                                    }
                                } else {
                                    None
                                }
                            } else {
                                None
                            }
                        } else if t[4] == 's' {
                            if t[5] == 'l' {
                                if t[6] == 'a' {
                                    if t[7] == 's' {
                                        if t[8] == 'h' {
                                            Some(Part::Key(KeyCode::Backslash))
                                        } else {
                                            None
                                        }
                                    } else {
                                        None
                                    }
                                } else {
                                    None
                                }
                            } else if t[5] == 'p' {
                                if t[6] == 'a' {
                                    if t[7] == 'c' {
                                        if t[8] == 'e' {
                                            Some(Part::Key(KeyCode::Backspace))
                                        } else {
                                            None
                                        }
                                    } else {
                                        None
                                    }
                                } else {
                                    None
                                }
                            } else {
                                None
                            }
                        } else {
                            None
                        }
                    } else {
                        None
                    }
                } else {
                    None
                }
            } else {
                None
            }
        } else if t[0] == 's' {
            if t[1] == 'e' {
                if t[2] == 'm' {
                    if t[3] == 'i' {
                        if t[4] == 'c' {
                            if t[5] == 'o' {
                                if t[6] == 'l' {
                                    if t[7] == 'o' {
                                        if t[8] == 'n' {
                                            Some(Part::Key(KeyCode::Semicolon))
                                        } else {
                                            None
                                        }
                                    } else {
                                        None
                                    }
                                } else {
                                    None
                                }
                            } else {
                                None
                            }
                        } else {
                            None
                        }
                    } else {
                        None
                    }
                } else {
                    None
                }
            } else {
                None
            }
        } else {
            None
        }
    } else if t.len() == 11 {
        if t[0] == 'l' {
            if t[1] == 'e' {
                if t[2] == 'f' {
                    if t[3] == 't' {
                        if t[4] == 'b' {
                            if t[5] == 'r' {
                                if t[6] == 'a' {
                                    if t[7] == 'c' {
                                        if t[8] == 'k' {
                                            if t[9] == 'e' {
                                                if t[10] == 't' {
                                                    Some(Part::Key(KeyCode::LeftBracket))
                                                } else {
                                                    None
                                                }
                                            } else {
                                                None
                                            }
                                        } else {
                                            None
                                        }
                                    } else {
                                        None
                                    }
                                } else {
                                    None
                                }
                            } else {
                                None
                            }
                        } else {
                            None
                        }
                    } else {
                        None
                    }
                } else {
                    None
                }
            } else {
                None
            }
        } else {
            None
        }
    } else if t.len() == 12 {
        if t[0] == 'r' {
            if t[1] == 'i' {
                if t[2] == 'g' {
                    if t[3] == 'h' {
                        if t[4] == 't' {
                            if t[5] == 'b' {
                                if t[6] == 'r' {
                                    if t[7] == 'a' {
                                        if t[8] == 'c' {
                                            if t[9] == 'k' {
                                                if t[10] == 'e' {
                                                    if t[11] == 't' {
                                                        Some(Part::Key(KeyCode::RightBracket))
                                                    } else {
                                                        None
                                                    }
                                                } else {
                                                    None
                                                }
                                            } else {
                                                None
                                            }
                                        } else {
                                            None
                                        }
                                    } else {
                                        None
                                    }
                                } else {
                                    None
                                }
                            } else {
                                None
                            }
                        } else {
                            None
                        }
                    } else {
                        None
                    }
                } else {
                    None
                }
            } else {
                None
            }
        } else {
            None
        }
    } else {
        None
    }
}

/// What a trimmed, lower-case part names, if anything.
fn part_named(t: &Vec<char>) -> (p: Option<Part>)
    ensures
        p == spec_part_named(t@),
{
    if t.len() == 1 {
        if t[0] == '0' {
            Some(Part::Key(KeyCode::Digit0))
        } else if t[0] == '1' {
            Some(Part::Key(KeyCode::Digit1))
        } else if t[0] == '2' {
            Some(Part::Key(KeyCode::Digit2))
        } else if t[0] == '3' {
            Some(Part::Key(KeyCode::Digit3))
        } else if t[0] == '4' {
            Some(Part::Key(KeyCode::Digit4))
        } else if t[0] == '5' {
            Some(Part::Key(KeyCode::Digit5))
        } else if t[0] == '6' {
            Some(Part::Key(KeyCode::Digit6))
        } else if t[0] == '7' {
            Some(Part::Key(KeyCode::Digit7))
        } else if t[0] == '8' {
            Some(Part::Key(KeyCode::Digit8))
        } else if t[0] == '9' {
            Some(Part::Key(KeyCode::Digit9))
        } else if t[0] == 'a' {
            Some(Part::Key(KeyCode::A))
        } else if t[0] == 'b' {
            Some(Part::Key(KeyCode::B))
        } else if t[0] == 'c' {
            Some(Part::Key(KeyCode::C))
        } else if t[0] == 'd' {
            Some(Part::Key(KeyCode::D))
        } else if t[0] == 'e' {
            Some(Part::Key(KeyCode::E))
        } else if t[0] == 'f' {
            Some(Part::Key(KeyCode::F))
        } else if t[0] == 'g' {
            Some(Part::Key(KeyCode::G))
        } else if t[0] == 'h' {
            Some(Part::Key(KeyCode::H))
        } else if t[0] == 'i' {
            Some(Part::Key(KeyCode::I))
        } else if t[0] == 'j' {
            Some(Part::Key(KeyCode::J))
        } else if t[0] == 'k' {
            Some(Part::Key(KeyCode::K))
        } else if t[0] == 'l' {
            Some(Part::Key(KeyCode::L))
        } else if t[0] == 'm' {
            Some(Part::Key(KeyCode::M))
        } else if t[0] == 'n' {
            Some(Part::Key(KeyCode::N))
        } else if t[0] == 'o' {
            Some(Part::Key(KeyCode::O))
        } else if t[0] == 'p' {
            Some(Part::Key(KeyCode::P))
        } else if t[0] == 'q' {
            Some(Part::Key(KeyCode::Q))
        } else if t[0] == 'r' {
            Some(Part::Key(KeyCode::R))
        } else if t[0] == 's' {
            Some(Part::Key(KeyCode::S))
        } else if t[0] == 't' {
            Some(Part::Key(KeyCode::T))
        } else if t[0] == 'u' {
            Some(Part::Key(KeyCode::U))
        } else if t[0] == 'v' {
            Some(Part::Key(KeyCode::V))
        } else if t[0] == 'w' {
            Some(Part::Key(KeyCode::W))
        } else if t[0] == 'x' {
            Some(Part::Key(KeyCode::X))
        } else if t[0] == 'y' {
            Some(Part::Key(KeyCode::Y))
        } else if t[0] == 'z' {
            Some(Part::Key(KeyCode::Z))
        } else {
            None
        }
    } else if t.len() == 2 {
        if t[0] == 'f' {
            if t[1] == '1' {
                Some(Part::Key(KeyCode::F1))
            } else if t[1] == '2' {
                Some(Part::Key(KeyCode::F2))
            } else if t[1] == '3' {
                Some(Part::Key(KeyCode::F3))
            } else if t[1] == '4' {
                Some(Part::Key(KeyCode::F4))
            } else if t[1] == '5' {
                Some(Part::Key(KeyCode::F5))
            } else if t[1] == '6' {
                Some(Part::Key(KeyCode::F6))
            } else if t[1] == '7' {
                Some(Part::Key(KeyCode::F7))
            } else if t[1] == '8' {
                Some(Part::Key(KeyCode::F8))
            } else if t[1] == '9' {
                Some(Part::Key(KeyCode::F9))
            } else {
                None
            }
        } else if t[0] == 'u' {
            if t[1] == 'p' {
                Some(Part::Key(KeyCode::ArrowUp))
            } else {
                None
            }
        } else {
            None
        }
    } else if t.len() == 3 {
        if t[0] == 'a' {
            if t[1] == 'l' {
                if t[2] == 't' {
                    Some(Part::Modifier(Mods { meta: false, ctrl: false, alt: true, shift: false }))
                } else {
                    None
                }
            } else {
                None
            }
        } else if t[0] == 'c' {
            if t[1] == 'm' {
                if t[2] == 'd' {
                    Some(Part::Modifier(Mods { meta: true, ctrl: false, alt: false, shift: false }))
                } else {
                    None
                }
            } else {
                None
            }
        } else if t[0] == 'e' {
            if t[1] == 'n' {
                if t[2] == 'd' {
                    Some(Part::Key(KeyCode::End))
                } else {
                    None
                }
            } else {
                None
            }
        } else if t[0] == 'f' {
            if t[1] == '1' {
                if t[2] == '0' {
                    Some(Part::Key(KeyCode::F10))
                } else if t[2] == '1' {
                    Some(Part::Key(KeyCode::F11))
                } else if t[2] == '2' {
                    Some(Part::Key(KeyCode::F12))
                } else {
                    None
                }
            } else {
                None
            }
        } else if t[0] == 't' {
            if t[1] == 'a' {
                if t[2] == 'b' {
                    Some(Part::Key(KeyCode::Tab))
                } else {
                    None
                }
            } else {
                None
            }
        } else if t[0] == 'w' {
            if t[1] == 'i' {
                if t[2] == 'n' {
                    Some(Part::Modifier(Mods { meta: true, ctrl: false, alt: false, shift: false }))
                } else {
                    None
                }
            } else {
                None
            }
        } else {
            None
        }
    } else if t.len() == 4 {
        if t[0] == 'c' {
            if t[1] == 't' {
                if t[2] == 'r' {
                    if t[3] == 'l' {
                        Some(Part::Modifier(Mods { meta: false, ctrl: true, alt: false, shift: false }))
                    } else {
                        None
                    }
                } else {
                    None
                }
            } else {
                None
            }
        } else if t[0] == 'd' {
            if t[1] == 'o' {
                if t[2] == 'w' {
                    if t[3] == 'n' {
                        Some(Part::Key(KeyCode::ArrowDown))
                    } else {
                        None
                    }
                } else {
                    None
                }
            } else {
                None
            }
        } else if t[0] == 'h' {
            if t[1] == 'o' {
                if t[2] == 'm' {
                    if t[3] == 'e' {
                        Some(Part::Key(KeyCode::Home))
                    } else {
                        None
                    }
                } else {
                    None
                }
            } else {
                None
            }
        } else if t[0] == 'l' {
            if t[1] == 'e' {
                if t[2] == 'f' {
                    if t[3] == 't' {
                        Some(Part::Key(KeyCode::ArrowLeft))
                    } else {
                        None
                    }
                } else {
                    None
                }
            } else {
                None
            }
        } else if t[0] == 'm' {
            if t[1] == 'e' {
                if t[2] == 't' {
                    if t[3] == 'a' {
                        Some(Part::Modifier(Mods { meta: true, ctrl: false, alt: false, shift: false }))
                    } else {
                        None
                    }
                } else {
                    None
                }
            } else {
                None
            }
        } else {
            None
        }
    } else if t.len() == 5 {
        if t[0] == 'c' {
            if t[1] == 'o' {
                if t[2] == 'm' {
                    if t[3] == 'm' {
                        if t[4] == 'a' {
                            Some(Part::Key(KeyCode::Comma))
                        } else {
                            None
                        }
                    } else {
                        None
                    }
                } else {
                    None
                }
            } else {
                None
            }
        } else if t[0] == 'e' {
            if t[1] == 'n' {
                if t[2] == 't' {
                    if t[3] == 'e' {
                        if t[4] == 'r' {
                            Some(Part::Key(KeyCode::Enter))
                        } else {
                            None
                        }
                    } else {
                        None
                    }
                } else {
                    None
                }
            } else if t[1] == 'q' {
                if t[2] == 'u' {
                    if t[3] == 'a' {
                        if t[4] == 'l' {
                            Some(Part::Key(KeyCode::Equal))
                        } else {
                            None
                        }
                    } else {
                        None
                    }
                } else {
                    None
                }
            } else {
                None
            }
        } else if t[0] == 'm' {
            if t[1] == 'i' {
                if t[2] == 'n' {
                    if t[3] == 'u' {
                        if t[4] == 's' {
                            Some(Part::Key(KeyCode::Minus))
                        } else {
                            None
                        }
                    } else {
                        None
                    }
                } else {
                    None
                }
            } else {
                None
            }
        } else if t[0] == 'q' {
            if t[1] == 'u' {
                if t[2] == 'o' {
                    if t[3] == 't' {
                        if t[4] == 'e' {
                            Some(Part::Key(KeyCode::Quote))
                        } else {
                            None
                        }
                    } else {
                        None
                    }
                } else {
                    None
                }
            } else {
                None
            }
        } else if t[0] == 'r' {
            if t[1] == 'i' {
                if t[2] == 'g' {
                    if t[3] == 'h' {
                        if t[4] == 't' {
                            Some(Part::Key(KeyCode::ArrowRight))
                        } else {
                            None
                        }
                    } else {
                        None
                    }
                } else {
                    None
                }
            } else {
                None
            }
        } else if t[0] == 's' {
            if t[1] == 'h' {
                if t[2] == 'i' {
                    if t[3] == 'f' {
                        if t[4] == 't' {
                            Some(Part::Modifier(Mods { meta: false, ctrl: false, alt: false, shift: true }))
                        } else {
                            None
                        }
                    } else {
                        None
                    }
                } else {
                    None
                }
            } else if t[1] == 'l' {
                if t[2] == 'a' {
                    if t[3] == 's' {
                        if t[4] == 'h' {
                            Some(Part::Key(KeyCode::Slash))
                        } else {
                            None
                        }
                    } else {
                        None
                    }
                } else {
                    None
                }
            } else if t[1] == 'p' {
                if t[2] == 'a' {
                    if t[3] == 'c' {
                        if t[4] == 'e' {
                            Some(Part::Key(KeyCode::Space))
                        } else {
                            None
                        }
                    } else {
                        None
                    }
                } else {
                    None
                }
            } else if t[1] == 'u' {
                if t[2] == 'p' {
                    if t[3] == 'e' {
                        if t[4] == 'r' {
                            Some(Part::Modifier(Mods { meta: true, ctrl: false, alt: false, shift: false }))
                        } else {
                            None
                        }
                    } else {
                        None
                    }
                } else {
                    None
                }
            } else {
                None
            }
        } else {
            None
        }
    } else if t.len() == 6 {
        if t[0] == 'd' {
            if t[1] == 'e' {
                if t[2] == 'l' {
                    if t[3] == 'e' {
                        if t[4] == 't' {
                            if t[5] == 'e' {
                                Some(Part::Key(KeyCode::Delete))
                            } else {
                                None
                            }
                        } else {
                            None
                        }
                    } else {
                        None
                    }
                } else {
                    None
                }
            } else {
                None
            }
        } else if t[0] == 'e' {
            if t[1] == 's' {
                if t[2] == 'c' {
                    if t[3] == 'a' {
                        if t[4] == 'p' {
                            if t[5] == 'e' {
                                Some(Part::Key(KeyCode::Escape))
                            } else {
                                None
                            }
                        } else {
                            None
                        }
                    } else {
                        None
                    }
                } else {
                    None
                }
            } else {
                None
            }
        } else if t[0] == 'i' {
            if t[1] == 'n' {
                if t[2] == 's' {
                    if t[3] == 'e' {
                        if t[4] == 'r' {
                            if t[5] == 't' {
                                Some(Part::Key(KeyCode::Insert))
                            } else {
                                None
                            }
                        } else {
                            None
                        }
                    } else {
                        None
                    }
                } else {
                    None
                }
            } else {
                None
            }
        } else if t[0] == 'o' {
            if t[1] == 'p' {
                if t[2] == 't' {
                    if t[3] == 'i' {
                        if t[4] == 'o' {
                            if t[5] == 'n' {
                                Some(Part::Modifier(Mods { meta: false, ctrl: false, alt: true, shift: false }))
                            } else {
                                None
                            }
                        } else {
                            None
                        }
                    } else {
                        None
                    }
                } else {
                    None
                }
            } else {
                None
            }
        } else if t[0] == 'p' {
            if t[1] == 'a' {
                if t[2] == 'g' {
                    if t[3] == 'e' {
                        if t[4] == 'u' {
                            if t[5] == 'p' {
                                Some(Part::Key(KeyCode::PageUp))
                            } else {
                                None
                            }
                        } else {
                            None
                        }
                    } else {
                        None
                    }
                } else {
                    None
                }
            } else if t[1] == 'e' {
                if t[2] == 'r' {
                    if t[3] == 'i' {
                        if t[4] == 'o' {
                            if t[5] == 'd' {
                                Some(Part::Key(KeyCode::Period))
                            } else {
                                None
                            }
                        } else {
                            None
                        }
                    } else {
                        None
                    }
                } else {
                    None
                }
            } else {
                None
            }
        } else {
            None
        }
    } else if t.len() == 7 {
        if t[0] == 'c' {
            if t[1] == 'o' {
                if t[2] == 'n' {
                    if t[3] == 't' {
                        if t[4] == 'r' {
                            if t[5] == 'o' {
                                if t[6] == 'l' {
                                    Some(Part::Modifier(Mods { meta: false, ctrl: true, alt: false, shift: false }))
                                } else {
                                    None
                                }
                            } else {
                                None
                            }
                        } else {
                            None
                        }
                    } else {
                        None
                    }
                } else {
                    None
                }
            } else {
                None
            }
        } else {
            None
        }
    } else if t.len() == 8 {
        if t[0] == 'c' {
            if t[1] == 'a' {
                if t[2] == 'p' {
                    if t[3] == 's' {
                        if t[4] == 'l' {
                            if t[5] == 'o' {
                                if t[6] == 'c' {
                                    if t[7] == 'k' {
                                        Some(Part::Key(KeyCode::CapsLock))
                                    } else {
                                        None
                                    }
                                } else {
                                    None
                                }
                            } else {
                                None
                            }
                        } else {
                            None
                        }
                    } else {
                        None
                    }
                } else {
                    None
                }
            } else {
                None
            }
        } else if t[0] == 'p' {
            if t[1] == 'a' {
                if t[2] == 'g' {
                    if t[3] == 'e' {
                        if t[4] == 'd' {
                            if t[5] == 'o' {
                                if t[6] == 'w' {
                                    if t[7] == 'n' {
                                        Some(Part::Key(KeyCode::PageDown))
                                    } else {
                                        None
                                    }
                                } else {
                                    None
                                }
                            } else {
                                None
                            }
                        } else {
                            None
                        }
                    } else {
                        None
                    }
                } else {
                    None
                }
            } else {
                None
            }
        } else {
            None
        }
    } else if t.len() == 9 {
        if t[0] == 'b' {
            if t[1] == 'a' {
                if t[2] == 'c' {
                    if t[3] == 'k' {
                        if t[4] == 'q' {
                            if t[5] == 'u' {
                                if t[6] == 'o' {
                                    if t[7] == 't' {
                                        if t[8] == 'e' {
                                            Some(Part::Key(KeyCode::Backquote))
                                        } else {
                                            None
                                        }
                                    } else {
                                        None
                                    }
                                } else {
                                    None
                                }
                            } else {
                                None
                            }
                        } else if t[4] == 's' {
                            if t[5] == 'l' {
                                if t[6] == 'a' {
                                    if t[7] == 's' {
                                        if t[8] == 'h' {
                                            Some(Part::Key(KeyCode::Backslash))
                                        } else {
                                            None
                                        }
                                    } else {
                                        None
                                    }
                                } else {
                                    None
                                }
                            } else if t[5] == 'p' {
                                if t[6] == 'a' {
                                    if t[7] == 'c' {
                                        if t[8] == 'e' {
                                            Some(Part::Key(KeyCode::Backspace))
                                        } else {
                                            None
                                        }
                                    } else {
                                        None
                                    }
                                } else {
                                    None
                                }
                            } else {
                                None
                            }
                        } else {
                            None
                        }
                    } else {
                        None
                    }
                } else {
                    None
                }
            } else {
                None
            }
        } else if t[0] == 's' {
            if t[1] == 'e' {
                if t[2] == 'm' {
                    if t[3] == 'i' {
                        if t[4] == 'c' {
                            if t[5] == 'o' {
                                if t[6] == 'l' {
                                    if t[7] == 'o' {
                                        if t[8] == 'n' {
                                            Some(Part::Key(KeyCode::Semicolon))
                                        } else {
                                            None
                                        }
                                    } else {
                                        None
                                    }
                                } else {
                                    None
                                }
                            } else {
                                None
                            }
                        } else {
                            None
                        }
                    } else {
                        None
                    }
                } else {
                    None
                }
            } else {
                None
            }
        } else {
            None
        }
    } else if t.len() == 11 {
        if t[0] == 'l' {
            if t[1] == 'e' {
                if t[2] == 'f' {
                    if t[3] == 't' {
                        if t[4] == 'b' {
                            if t[5] == 'r' {
                                if t[6] == 'a' {
                                    if t[7] == 'c' {
                                        if t[8] == 'k' {
                                            if t[9] == 'e' {
                                                if t[10] == 't' {
                                                    Some(Part::Key(KeyCode::LeftBracket))
                                                } else {
                                                    None
                                                }
                                            } else {
                                                None
                                            }
                                        } else {
                                            None
                                        }
                                    } else {
                                        None
                                    }
                                } else {
                                    None
                                }
                            } else {
                                None
                            }
                        } else {
                            None
                        }
                    } else {
                        None
                    }
                } else {
                    None
                }
            } else {
                None
            }
        } else {
            None
        }
    } else if t.len() == 12 {
        if t[0] == 'r' {
            if t[1] == 'i' {
                if t[2] == 'g' {
                    if t[3] == 'h' {
                        if t[4] == 't' {
                            if t[5] == 'b' {
                                if t[6] == 'r' {
                                    if t[7] == 'a' {
                                        if t[8] == 'c' {
                                            if t[9] == 'k' {
                                                if t[10] == 'e' {
                                                    if t[11] == 't' {
                                                        Some(Part::Key(KeyCode::RightBracket))
                                                    } else {
                                                        None
                                                    }
                                                } else {
                                                    None
                                                }
                                            } else {
                                                None
                                            }
                                        } else {
                                            None
                                        }
                                    } else {
                                        None
                                    }
                                } else {
                                    None
                                }
                            } else {
                                None
                            }
                        } else {
                            None
                        }
                    } else {
                        None
                    }
                } else {
                    None
                }
            } else {
                None
            }
        } else {
            None
        }
    } else {
        None
    }
}

/// The canonical label of a key, as characters.
pub fn label_chars(key: KeyCode) -> (l: Vec<char>)
    ensures
        l@ == spec_label(key),
{
    match key {
        KeyCode::A => vec!['A'],
        KeyCode::B => vec!['B'],
        KeyCode::C => vec!['C'],
        KeyCode::D => vec!['D'],
        KeyCode::E => vec!['E'],
        KeyCode::F => vec!['F'],
        KeyCode::G => vec!['G'],
        KeyCode::H => vec!['H'],
        KeyCode::I => vec!['I'],
        KeyCode::J => vec!['J'],
        KeyCode::K => vec!['K'],
        KeyCode::L => vec!['L'],
        KeyCode::M => vec!['M'],
        KeyCode::N => vec!['N'],
        KeyCode::O => vec!['O'],
        KeyCode::P => vec!['P'],
        KeyCode::Q => vec!['Q'],
        KeyCode::R => vec!['R'],
        KeyCode::S => vec!['S'],
        KeyCode::T => vec!['T'],
        KeyCode::U => vec!['U'],
        KeyCode::V => vec!['V'],
        KeyCode::W => vec!['W'],
        KeyCode::X => vec!['X'],
        KeyCode::Y => vec!['Y'],
        KeyCode::Z => vec!['Z'],
        KeyCode::Digit0 => vec!['0'],
        KeyCode::Digit1 => vec!['1'],
        KeyCode::Digit2 => vec!['2'],
        KeyCode::Digit3 => vec!['3'],
        KeyCode::Digit4 => vec!['4'],
        KeyCode::Digit5 => vec!['5'],
        KeyCode::Digit6 => vec!['6'],
        KeyCode::Digit7 => vec!['7'],
        KeyCode::Digit8 => vec!['8'],
        KeyCode::Digit9 => vec!['9'],
        KeyCode::F1 => vec!['F', '1'],
        KeyCode::F2 => vec!['F', '2'],
        KeyCode::F3 => vec!['F', '3'],
        KeyCode::F4 => vec!['F', '4'],
        KeyCode::F5 => vec!['F', '5'],
        KeyCode::F6 => vec!['F', '6'],
        KeyCode::F7 => vec!['F', '7'],
        KeyCode::F8 => vec!['F', '8'],
        KeyCode::F9 => vec!['F', '9'],
        KeyCode::F10 => vec!['F', '1', '0'],
        KeyCode::F11 => vec!['F', '1', '1'],
        KeyCode::F12 => vec!['F', '1', '2'],
        KeyCode::Space => vec!['S', 'p', 'a', 'c', 'e'],
        KeyCode::Enter => vec!['E', 'n', 't', 'e', 'r'],
        KeyCode::Tab => vec!['T', 'a', 'b'],
        KeyCode::Escape => vec!['E', 's', 'c', 'a', 'p', 'e'],
        KeyCode::Backspace => vec!['B', 'a', 'c', 'k', 's', 'p', 'a', 'c', 'e'],
        KeyCode::Delete => vec!['D', 'e', 'l', 'e', 't', 'e'],
        KeyCode::Insert => vec!['I', 'n', 's', 'e', 'r', 't'],
        KeyCode::Home => vec!['H', 'o', 'm', 'e'],
        KeyCode::End => vec!['E', 'n', 'd'],
        KeyCode::PageUp => vec!['P', 'a', 'g', 'e', 'U', 'p'],
        KeyCode::PageDown => vec!['P', 'a', 'g', 'e', 'D', 'o', 'w', 'n'],
        KeyCode::CapsLock => vec!['C', 'a', 'p', 's', 'L', 'o', 'c', 'k'],
        KeyCode::ArrowUp => vec!['U', 'p'],
        KeyCode::ArrowDown => vec!['D', 'o', 'w', 'n'],
        KeyCode::ArrowLeft => vec!['L', 'e', 'f', 't'],
        KeyCode::ArrowRight => vec!['R', 'i', 'g', 'h', 't'],
        KeyCode::Minus => vec!['M', 'i', 'n', 'u', 's'],
        KeyCode::Equal => vec!['E', 'q', 'u', 'a', 'l'],
        KeyCode::LeftBracket => vec!['L', 'e', 'f', 't', 'B', 'r', 'a', 'c', 'k', 'e', 't'],
        KeyCode::RightBracket => vec!['R', 'i', 'g', 'h', 't', 'B', 'r', 'a', 'c', 'k', 'e', 't'],
        KeyCode::Backslash => vec!['B', 'a', 'c', 'k', 's', 'l', 'a', 's', 'h'],
        KeyCode::Semicolon => vec!['S', 'e', 'm', 'i', 'c', 'o', 'l', 'o', 'n'],
        KeyCode::Quote => vec!['Q', 'u', 'o', 't', 'e'],
        KeyCode::Backquote => vec!['B', 'a', 'c', 'k', 'q', 'u', 'o', 't', 'e'],
        KeyCode::Comma => vec!['C', 'o', 'm', 'm', 'a'],
        KeyCode::Period => vec!['P', 'e', 'r', 'i', 'o', 'd'],
        KeyCode::Slash => vec!['S', 'l', 'a', 's', 'h'],
    }
}

/// Facts about each key's label that printing and parsing rely on.
pub proof fn lemma_label_facts(key: KeyCode)
    ensures
        spec_label(key).len() > 0,
        !spec_label(key).contains('+'),
        !is_space(spec_label(key)[0]),
        !is_space(spec_label(key).last()),
        lower(spec_label(key)) != seq!['n', 'o', 'n', 'e'],
        spec_part_named(lower(spec_label(key))) == Some(Part::Key(key)),
{
    let l = spec_label(key);
    assert(lower(l).len() == l.len());
    assert forall|i: int| 0 <= i < l.len() implies #[trigger] lower(l)[i] == lower_char(l[i]) by {}
    if l.contains('+') {
        let i = choose|i: int| 0 <= i < l.len() && l[i] == '+';
        match key {
            KeyCode::A => {},
            KeyCode::B => {},
            KeyCode::C => {},
            KeyCode::D => {},
            KeyCode::E => {},
            KeyCode::F => {},
            KeyCode::G => {},
            KeyCode::H => {},
            KeyCode::I => {},
            KeyCode::J => {},
            KeyCode::K => {},
            KeyCode::L => {},
            KeyCode::M => {},
            KeyCode::N => {},
            KeyCode::O => {},
            KeyCode::P => {},
            KeyCode::Q => {},
            KeyCode::R => {},
            KeyCode::S => {},
            KeyCode::T => {},
            KeyCode::U => {},
            KeyCode::V => {},
            KeyCode::W => {},
            KeyCode::X => {},
            KeyCode::Y => {},
            KeyCode::Z => {},
            KeyCode::Digit0 => {},
            KeyCode::Digit1 => {},
            KeyCode::Digit2 => {},
            KeyCode::Digit3 => {},
            KeyCode::Digit4 => {},
            KeyCode::Digit5 => {},
            KeyCode::Digit6 => {},
            KeyCode::Digit7 => {},
            KeyCode::Digit8 => {},
            KeyCode::Digit9 => {},
            KeyCode::F1 => {},
            KeyCode::F2 => {},
            KeyCode::F3 => {},
            KeyCode::F4 => {},
            KeyCode::F5 => {},
            KeyCode::F6 => {},
            KeyCode::F7 => {},
            KeyCode::F8 => {},
            KeyCode::F9 => {},
            KeyCode::F10 => {},
            KeyCode::F11 => {},
            KeyCode::F12 => {},
            KeyCode::Space => {},
            KeyCode::Enter => {},
            KeyCode::Tab => {},
            KeyCode::Escape => {},
            KeyCode::Backspace => {},
            KeyCode::Delete => {},
            KeyCode::Insert => {},
            KeyCode::Home => {},
            KeyCode::End => {},
            KeyCode::PageUp => {},
            KeyCode::PageDown => {},
            KeyCode::CapsLock => {},
            KeyCode::ArrowUp => {},
            KeyCode::ArrowDown => {},
            KeyCode::ArrowLeft => {},
            KeyCode::ArrowRight => {},
            KeyCode::Minus => {},
            KeyCode::Equal => {},
            KeyCode::LeftBracket => {},
            KeyCode::RightBracket => {},
            KeyCode::Backslash => {},
            KeyCode::Semicolon => {},
            KeyCode::Quote => {},
            KeyCode::Backquote => {},
            KeyCode::Comma => {},
            KeyCode::Period => {},
            KeyCode::Slash => {},
        }
    }
    if lower(l) == seq!['n', 'o', 'n', 'e'] {
        assert(lower(l)[0] == 'n');
        assert(lower(l)[1] == 'o');
    }
}

// --- MARK: splitting ---

/// The parts of `s` between `+` signs, in order; there is always at least
/// one (possibly empty) part.
pub open spec fn split_plus(s: Seq<char>) -> Seq<Seq<char>>
    decreases s.len(),
{
    if s.len() == 0 {
        seq![Seq::empty()]
    } else {
        let p = split_plus(s.drop_last());
        if s.last() == '+' {
            p.push(Seq::empty())
        } else {
            p.update(p.len() - 1, p.last().push(s.last()))
        }
    }
}

proof fn lemma_split_plus_nonempty(s: Seq<char>)
    ensures
        split_plus(s).len() >= 1,
    decreases s.len(),
{
    if s.len() > 0 {
        lemma_split_plus_nonempty(s.drop_last());
    }
}

// --- MARK: parsing ---

/// Fold one part of the text into the chord parsed so far.
pub open spec fn add_part(acc: Result<Keybind, KeybindError>, part: Seq<char>) -> Result<Keybind, KeybindError> {
    match acc {
        Err(e) => Err(e),
        Ok(kb) => {
            let t = lower(trim(part));
            if t.len() == 0 {
                Err(KeybindError::EmptyPart)
            } else {
                match spec_part_named(t) {
                    Some(Part::Modifier(m)) => Ok(Keybind { mods: spec_union(kb.mods, m), key: kb.key }),
                    Some(Part::Key(k)) => if kb.key is Some {
                        Err(KeybindError::TwoKeys)
                    } else {
                        Ok(Keybind { mods: kb.mods, key: Some(k) })
                    },
                    None => Err(KeybindError::UnknownName),
                }
            }
        },
    }
}

/// Fold the parts, left to right, starting from the empty chord.
pub open spec fn parse_parts(parts: Seq<Seq<char>>) -> Result<Keybind, KeybindError>
    decreases parts.len(),
{
    if parts.len() == 0 {
        Ok(Keybind::spec_unbound())
    } else {
        add_part(parse_parts(parts.drop_last()), parts.last())
    }
}

/// The chord a text names.
pub open spec fn spec_parse(s: Seq<char>) -> Result<Keybind, KeybindError> {
    let whole = lower(trim(s));
    if whole.len() == 0 || whole == seq!['n', 'o', 'n', 'e'] {
        Ok(Keybind::spec_unbound())
    } else {
        parse_parts(split_plus(s))
    }
}

proof fn lemma_trim_start_at(s: Seq<char>, i: int)
    requires
        0 <= i <= s.len(),
        forall|j: int| 0 <= j < i ==> is_space(#[trigger] s[j]),
        i == s.len() || !is_space(s[i]),
    ensures
        trim_start(s) == s.subrange(i, s.len() as int),
    decreases i,
{
    if i == 0 {
        assert(s.subrange(0, s.len() as int) =~= s);
    } else {
        let r = s.drop_first();
        assert forall|j: int| 0 <= j < i - 1 implies is_space(#[trigger] r[j]) by {
            assert(r[j] == s[j + 1]);
        }
        lemma_trim_start_at(r, i - 1);
        assert(r.subrange(i - 1, r.len() as int) =~= s.subrange(i, s.len() as int));
    }
}

proof fn lemma_trim_end_at(s: Seq<char>, i: int)
    requires
        0 <= i <= s.len(),
        forall|j: int| i <= j < s.len() ==> is_space(#[trigger] s[j]),
        i == 0 || !is_space(s[i - 1]),
    ensures
        trim_end(s) == s.subrange(0, i),
    decreases s.len() - i,
{
    if i == s.len() {
        assert(s.subrange(0, i) =~= s);
    } else {
        let r = s.drop_last();
        assert forall|j: int| i <= j < r.len() implies is_space(#[trigger] r[j]) by {
            assert(r[j] == s[j]);
        }
        lemma_trim_end_at(r, i);
        assert(r.subrange(0, i) =~= s.subrange(0, i));
    }
}

/// Where `trim` cuts `v`: the chars of `v` from `start` to `end`.
pub(crate) fn trim_bounds(v: &Vec<char>) -> (r: (usize, usize))
    ensures
        r.0 <= r.1 <= v.len(),
        trim(v@) == v@.subrange(r.0 as int, r.1 as int),
{
    let n = v.len();
    let mut start: usize = 0;
    while start < n && char_is_space(v[start])
        invariant
            start <= n,
            n == v.len(),
            forall|j: int| 0 <= j < start ==> is_space(#[trigger] v@[j]),
        decreases n - start,
    {
        start += 1;
    }
    proof {
        lemma_trim_start_at(v@, start as int);
    }
    let ghost head = v@.subrange(start as int, n as int);
    let mut end: usize = n;
    while end > start && char_is_space(v[end - 1])
        invariant
            start <= end <= n,
            n == v.len(),
            head == v@.subrange(start as int, n as int),
            forall|j: int| end <= j < n ==> is_space(#[trigger] v@[j]),
        decreases end - start,
    {
        end -= 1;
    }
    proof {
        assert forall|j: int| (end - start) as int <= j < head.len() implies is_space(#[trigger] head[j]) by {
            assert(head[j] == v@[j + start]);
        }
        if end > start {
            assert(head[end - start - 1] == v@[end - 1]);
        }
        lemma_trim_end_at(head, (end - start) as int);
        assert(head.subrange(0, (end - start) as int) =~= v@.subrange(start as int, end as int));
    }
    (start, end)
}

/// `trim` of `v`, lower-cased.
fn trimmed_lower(v: &Vec<char>) -> (t: Vec<char>)
    ensures
        t@ == lower(trim(v@)),
{
    let (start, end) = trim_bounds(v);
    let mut t: Vec<char> = Vec::new();
    let mut i: usize = start;
    while i < end
        invariant
            start <= i <= end <= v.len(),
            t@ == lower(v@.subrange(start as int, i as int)),
        decreases end - i,
    {
        let c = v[i];
        let lc = if 'A' <= c && c <= 'Z' { ((c as u8) + 32) as char } else { c };
        t.push(lc);
        proof {
            assert(v@.subrange(start as int, i + 1) =~= v@.subrange(start as int, i as int).push(c));
            assert(lower(v@.subrange(start as int, i + 1)) =~= lower(v@.subrange(start as int, i as int)).push(lower_char(c)));
        }
        i += 1;
    }
    t
}

fn add_part_exec(acc: Result<Keybind, KeybindError>, part: &Vec<char>) -> (r: Result<Keybind, KeybindError>)
    ensures
        r == add_part(acc, part@),
{
    match acc {
        Err(e) => Err(e),
        Ok(kb) => {
            let t = trimmed_lower(part);
            if t.len() == 0 {
                Err(KeybindError::EmptyPart)
            } else {
                match part_named(&t) {
                    Some(Part::Modifier(m)) => Ok(Keybind { mods: union(kb.mods, m), key: kb.key }),
                    Some(Part::Key(k)) => if kb.key.is_some() {
                        Err(KeybindError::TwoKeys)
                    } else {
                        Ok(Keybind { mods: kb.mods, key: Some(k) })
                    },
                    None => Err(KeybindError::UnknownName),
                }
            }
        },
    }
}

fn is_none_word(t: &Vec<char>) -> (r: bool)
    ensures
        r == (t@ == seq!['n', 'o', 'n', 'e']),
{
    let r = t.len() == 4 && t[0] == 'n' && t[1] == 'o' && t[2] == 'n' && t[3] == 'e';
    proof {
        if r {
            assert(t@ =~= seq!['n', 'o', 'n', 'e']);
        }
    }
    r
}

impl Keybind {
    /// Parse a chord from its text.
    pub fn parse(s: &str) -> (r: Result<Keybind, KeybindError>)
        ensures
            r == spec_parse(s@),
    {
        let n = s.unicode_len();
        let mut chars: Vec<char> = Vec::new();
        let mut i: usize = 0;
        while i < n
            invariant
                i <= n,
                n == s@.len(),
                chars@ == s@.subrange(0, i as int),
            decreases n - i,
        {
            chars.push(s.get_char(i));
            proof {
                assert(s@.subrange(0, i + 1) =~= s@.subrange(0, i as int).push(s@[i as int]));
            }
            i += 1;
        }
        proof {
            assert(chars@ =~= s@);
        }
        let whole = trimmed_lower(&chars);
        if whole.len() == 0 || is_none_word(&whole) {
            return Ok(Keybind::unbound());
        }
        let mut acc: Result<Keybind, KeybindError> = Ok(Keybind::unbound());
        let mut cur: Vec<char> = Vec::new();
        let mut k: usize = 0;
        proof {
            assert(split_plus(chars@.take(0)) =~= seq![Seq::<char>::empty()]);
            assert(split_plus(chars@.take(0)).drop_last() =~= Seq::<Seq<char>>::empty());
        }
        while k < n
            invariant
                k <= n,
                n == chars@.len(),
                acc == parse_parts(split_plus(chars@.take(k as int)).drop_last()),
                cur@ == split_plus(chars@.take(k as int)).last(),
                split_plus(chars@.take(k as int)).len() >= 1,
            decreases n - k,
        {
            let c = chars[k];
            let ghost before = split_plus(chars@.take(k as int));
            proof {
                assert(chars@.take(k + 1).drop_last() =~= chars@.take(k as int));
                assert(chars@.take(k + 1).last() == c);
            }
            if c == '+' {
                acc = add_part_exec(acc, &cur);
                cur = Vec::new();
                proof {
                    let after = split_plus(chars@.take(k + 1));
                    assert(after == before.push(Seq::empty()));
                    assert(after.drop_last() =~= before);
                    assert(before.drop_last().push(before.last()) =~= before);
                    assert(parse_parts(before) == add_part(parse_parts(before.drop_last()), before.last()));
                    assert(cur@ =~= after.last());
                }
            } else {
                cur.push(c);
                proof {
                    let after = split_plus(chars@.take(k + 1));
                    assert(after == before.update(before.len() - 1, before.last().push(c)));
                    assert(after.drop_last() =~= before.drop_last());
                }
            }
            k += 1;
        }
        proof {
            assert(chars@.take(n as int) =~= chars@);
            let parts = split_plus(chars@);
            assert(parse_parts(parts) == add_part(parse_parts(parts.drop_last()), parts.last()));
        }
        add_part_exec(acc, &cur)
    }
}

impl std::str::FromStr for Keybind {
    type Err = KeybindError;

    /// The chord the text names, as `Keybind::parse` reads it.
    fn from_str(s: &str) -> (r: Result<Keybind, KeybindError>)
        ensures
            r == spec_parse(s@),
    {
        Keybind::parse(s)
    }
}

// --- MARK: printing ---

/// `String::push` appends one character.
pub assume_specification[ String::push ](s: &mut String, ch: char)
    ensures
        final(s)@ == old(s)@.push(ch),
;

/// The canonical name of each modifier.
pub open spec fn super_name() -> Seq<char> {
    seq!['S', 'u', 'p', 'e', 'r']
}

pub open spec fn ctrl_name() -> Seq<char> {
    seq!['C', 't', 'r', 'l']
}

pub open spec fn alt_name() -> Seq<char> {
    seq!['A', 'l', 't']
}

pub open spec fn shift_name() -> Seq<char> {
    seq!['S', 'h', 'i', 'f', 't']
}

pub open spec fn none_name() -> Seq<char> {
    seq!['N', 'o', 'n', 'e']
}

/// The parts of a chord's canonical text, in order.
pub open spec fn spec_parts(kb: Keybind) -> Seq<Seq<char>> {
    let p0 = Seq::<Seq<char>>::empty();
    let p1 = if kb.mods.meta { p0.push(super_name()) } else { p0 };
    let p2 = if kb.mods.ctrl { p1.push(ctrl_name()) } else { p1 };
    let p3 = if kb.mods.alt { p2.push(alt_name()) } else { p2 };
    let p4 = if kb.mods.shift { p3.push(shift_name()) } else { p3 };
    match kb.key {
        Some(k) => p4.push(spec_label(k)),
        None => p4,
    }
}

/// Parts joined by `+`.
pub open spec fn join_plus(parts: Seq<Seq<char>>) -> Seq<char>
    decreases parts.len(),
{
    if parts.len() == 0 {
        Seq::empty()
    } else if parts.len() == 1 {
        parts[0]
    } else {
        join_plus(parts.drop_last()) + seq!['+'] + parts.last()
    }
}

/// A chord's canonical text.
pub open spec fn spec_print(kb: Keybind) -> Seq<char> {
    if kb.spec_is_empty() {
        none_name()
    } else {
        join_plus(spec_parts(kb))
    }
}

proof fn lemma_join_push(ps: Seq<Seq<char>>, p: Seq<char>)
    ensures
        join_plus(ps.push(p)) == (if ps.len() == 0 { p } else { join_plus(ps) + seq!['+'] + p }),
{
    assert(ps.push(p).drop_last() =~= ps);
}

fn push_chars(out: &mut String, part: &Vec<char>)
    ensures
        final(out)@ == old(out)@ + part@,
{
    let mut i: usize = 0;
    while i < part.len()
        invariant
            i <= part.len(),
            out@ == old(out)@ + part@.subrange(0, i as int),
        decreases part.len() - i,
    {
        out.push(part[i]);
        proof {
            assert(old(out)@ + part@.subrange(0, i + 1) =~= (old(out)@ + part@.subrange(0, i as int)).push(part@[i as int]));
        }
        i += 1;
    }
    proof {
        assert(part@.subrange(0, part@.len() as int) =~= part@);
    }
}

/// Append `part` to the text built from `parts`.
fn push_part(out: &mut String, Ghost(parts): Ghost<Seq<Seq<char>>>, first: bool, part: Vec<char>)
    requires
        old(out)@ == join_plus(parts),
        first == (parts.len() == 0),
    ensures
        final(out)@ == join_plus(parts.push(part@)),
{
    proof {
        lemma_join_push(parts, part@);
    }
    if !first {
        out.push('+');
    }
    push_chars(out, &part);
    proof {
        if parts.len() == 0 {
            assert(join_plus(parts) =~= Seq::<char>::empty());
            assert(out@ =~= part@);
        }
    }
}

impl Keybind {
    /// The canonical text of the chord: `Super`, `Ctrl`, `Alt`, `Shift`,
    /// then the key, joined by `+`; `None` for the empty binding.
    pub fn to_text(&self) -> (s: String)
        ensures
            s@ == spec_print(*self),
    {
        let mut out = String::new();
        if self.is_empty() {
            push_chars(&mut out, &vec!['N', 'o', 'n', 'e']);
            proof {
                assert(out@ =~= none_name());
            }
            return out;
        }
        let ghost mut parts = Seq::<Seq<char>>::empty();
        let mut first = true;
        if self.mods.meta {
            push_part(&mut out, Ghost(parts), first, vec!['S', 'u', 'p', 'e', 'r']);
                first = false;
            proof {
                parts = parts.push(super_name());
            }
        }
        if self.mods.ctrl {
            push_part(&mut out, Ghost(parts), first, vec!['C', 't', 'r', 'l']);
                first = false;
            proof {
                parts = parts.push(ctrl_name());
            }
        }
        if self.mods.alt {
            push_part(&mut out, Ghost(parts), first, vec!['A', 'l', 't']);
                first = false;
            proof {
                parts = parts.push(alt_name());
            }
        }
        if self.mods.shift {
            push_part(&mut out, Ghost(parts), first, vec!['S', 'h', 'i', 'f', 't']);
                first = false;
            proof {
                parts = parts.push(shift_name());
            }
        }
        match self.key {
            Some(k) => {
                push_part(&mut out, Ghost(parts), first, label_chars(k));
                first = false;
                proof {
                    parts = parts.push(spec_label(k));
                }
            },
            None => {},
        }
        proof {
            assert(parts =~= spec_parts(*self));
        }
        out
    }
}

// --- MARK: round trip ---

proof fn lemma_split_no_plus(p: Seq<char>)
    requires
        !p.contains('+'),
    ensures
        split_plus(p) == seq![p],
    decreases p.len(),
{
    if p.len() == 0 {
        assert(p =~= Seq::<char>::empty());
    } else {
        let q = p.drop_last();
        assert(!q.contains('+')) by {
            if q.contains('+') {
                let i = choose|i: int| 0 <= i < q.len() && q[i] == '+';
                assert(p[i] == '+');
            }
        }
        lemma_split_no_plus(q);
        assert(p[p.len() - 1] != '+');
        assert(q.push(p.last()) =~= p);
        assert(seq![q].update(0, q.push(p.last())) =~= seq![p]);
    }
}

proof fn lemma_split_append(pre: Seq<char>, l: Seq<char>)
    requires
        !l.contains('+'),
    ensures
        split_plus(pre + l) == split_plus(pre).update(split_plus(pre).len() - 1, split_plus(pre).last() + l),
    decreases l.len(),
{
    lemma_split_plus_nonempty(pre);
    if l.len() == 0 {
        assert(pre + l =~= pre);
        assert(split_plus(pre).last() + l =~= split_plus(pre).last());
        assert(split_plus(pre).update(split_plus(pre).len() - 1, split_plus(pre).last()) =~= split_plus(pre));
    } else {
        let m = l.drop_last();
        assert(!m.contains('+')) by {
            if m.contains('+') {
                let i = choose|i: int| 0 <= i < m.len() && m[i] == '+';
                assert(l[i] == '+');
            }
        }
        lemma_split_append(pre, m);
        assert((pre + l).drop_last() =~= pre + m);
        assert((pre + l).last() == l.last());
        assert(l.last() != '+') by {
            assert(l[l.len() - 1] == l.last());
        }
        let sp = split_plus(pre);
        assert((sp.last() + m).push(l.last()) =~= sp.last() + l);
        assert(sp.update(sp.len() - 1, sp.last() + m).update(sp.len() - 1, sp.last() + l) =~= sp.update(sp.len() - 1, sp.last() + l));
    }
}

proof fn lemma_split_join(parts: Seq<Seq<char>>)
    requires
        parts.len() >= 1,
        forall|i: int| 0 <= i < parts.len() ==> !(#[trigger] parts[i]).contains('+'),
    ensures
        split_plus(join_plus(parts)) == parts,
    decreases parts.len(),
{
    if parts.len() == 1 {
        lemma_split_no_plus(parts[0]);
        assert(seq![parts[0]] =~= parts);
    } else {
        let init = parts.drop_last();
        assert forall|i: int| 0 <= i < init.len() implies !(#[trigger] init[i]).contains('+') by {
            assert(init[i] == parts[i]);
        }
        lemma_split_join(init);
        let pre = join_plus(init) + seq!['+'];
        assert(pre.drop_last() =~= join_plus(init));
        assert(pre.last() == '+');
        assert(split_plus(pre) == split_plus(join_plus(init)).push(Seq::empty()));
        assert(!parts.last().contains('+')) by {
            assert(parts[parts.len() - 1] == parts.last());
        }
        lemma_split_append(pre, parts.last());
        assert(Seq::<char>::empty() + parts.last() =~= parts.last());
        assert(init.push(Seq::empty()).update(init.len() as int, parts.last()) =~= parts);
    }
}

proof fn lemma_join_ends(parts: Seq<Seq<char>>)
    requires
        parts.len() >= 1,
        forall|i: int| 0 <= i < parts.len() ==> (#[trigger] parts[i]).len() > 0,
    ensures
        join_plus(parts).len() > 0,
        join_plus(parts)[0] == parts[0][0],
        join_plus(parts).last() == parts.last().last(),
    decreases parts.len(),
{
    if parts.len() > 1 {
        let init = parts.drop_last();
        assert forall|i: int| 0 <= i < init.len() implies (#[trigger] init[i]).len() > 0 by {
            assert(init[i] == parts[i]);
        }
        lemma_join_ends(init);
        assert(parts[parts.len() - 1] == parts.last());
    }
}

proof fn lemma_trim_noop(s: Seq<char>)
    requires
        s.len() > 0,
        !is_space(s[0]),
        !is_space(s.last()),
    ensures
        trim(s) == s,
{
}

proof fn lemma_parse_parts_push(ps: Seq<Seq<char>>, p: Seq<char>)
    ensures
        parse_parts(ps.push(p)) == add_part(parse_parts(ps), p),
{
    assert(ps.push(p).drop_last() =~= ps);
}

proof fn lemma_modifier_name(name: Seq<char>, low: Seq<char>, m: Mods)
    requires
        name.len() > 0,
        !is_space(name[0]),
        !is_space(name.last()),
        lower(name) =~= low,
        spec_part_named(low) == Some(Part::Modifier(m)),
        !name.contains('+'),
    ensures
        forall|kb: Keybind| add_part(Ok(kb), name) == Ok::<Keybind, KeybindError>(Keybind { mods: spec_union(kb.mods, m), key: kb.key }),
{
    lemma_trim_noop(name);
}

/// Printing a chord and parsing the text gives back the same chord: what
/// `save` writes, `load` reads back unchanged.
pub proof fn lemma_print_parse_round_trip(kb: Keybind)
    ensures
        spec_parse(spec_print(kb)) == Ok::<Keybind, KeybindError>(kb),
{
    if kb.spec_is_empty() {
        let t = none_name();
        lemma_trim_noop(t);
        assert(lower(t) =~= seq!['n', 'o', 'n', 'e']);
        assert(kb == Keybind::spec_unbound());
    } else {
        lemma_parts_parse(kb);
        lemma_print_text_not_none(kb);
    }
}

/// The parts of a chord's text parse back to the chord, and split back
/// into themselves.
#[verifier::rlimit(40)]
proof fn lemma_parts_parse(kb: Keybind)
    requires
        !kb.spec_is_empty(),
    ensures
        parse_parts(spec_parts(kb)) == Ok::<Keybind, KeybindError>(kb),
        split_plus(join_plus(spec_parts(kb))) == spec_parts(kb),
        trim(join_plus(spec_parts(kb))) == join_plus(spec_parts(kb)),
        join_plus(spec_parts(kb)).len() > 0,
{
    let sup = super_name();
    let ctl = ctrl_name();
    let alt = alt_name();
    let sh = shift_name();
    assert(!sup.contains('+')) by { if sup.contains('+') { let i = choose|i: int| 0 <= i < sup.len() && sup[i] == '+'; } }
    assert(!ctl.contains('+')) by { if ctl.contains('+') { let i = choose|i: int| 0 <= i < ctl.len() && ctl[i] == '+'; } }
    assert(!alt.contains('+')) by { if alt.contains('+') { let i = choose|i: int| 0 <= i < alt.len() && alt[i] == '+'; } }
    assert(!sh.contains('+')) by { if sh.contains('+') { let i = choose|i: int| 0 <= i < sh.len() && sh[i] == '+'; } }
    lemma_modifier_name(sup, seq!['s', 'u', 'p', 'e', 'r'], Mods { meta: true, ctrl: false, alt: false, shift: false });
    lemma_modifier_name(ctl, seq!['c', 't', 'r', 'l'], Mods { meta: false, ctrl: true, alt: false, shift: false });
    lemma_modifier_name(alt, seq!['a', 'l', 't'], Mods { meta: false, ctrl: false, alt: true, shift: false });
    lemma_modifier_name(sh, seq!['s', 'h', 'i', 'f', 't'], Mods { meta: false, ctrl: false, alt: false, shift: true });
    {
        let p0 = Seq::<Seq<char>>::empty();
        let p1 = if kb.mods.meta { p0.push(sup) } else { p0 };
        let p2 = if kb.mods.ctrl { p1.push(ctl) } else { p1 };
        let p3 = if kb.mods.alt { p2.push(alt) } else { p2 };
        let p4 = if kb.mods.shift { p3.push(sh) } else { p3 };
        let parts = spec_parts(kb);
        let u = Keybind::spec_unbound();
        let k1 = Keybind { mods: Mods { meta: kb.mods.meta, ctrl: false, alt: false, shift: false }, key: None::<crate::keys::KeyCode> };
        let k2 = Keybind { mods: Mods { meta: kb.mods.meta, ctrl: kb.mods.ctrl, alt: false, shift: false }, key: None::<crate::keys::KeyCode> };
        let k3 = Keybind { mods: Mods { meta: kb.mods.meta, ctrl: kb.mods.ctrl, alt: kb.mods.alt, shift: false }, key: None::<crate::keys::KeyCode> };
        let k4 = Keybind { mods: kb.mods, key: None::<crate::keys::KeyCode> };
        assert(parse_parts(p0) == Ok::<Keybind, KeybindError>(u));
        lemma_parse_parts_push(p0, sup);
        assert(parse_parts(p1) == Ok::<Keybind, KeybindError>(k1));
        lemma_parse_parts_push(p1, ctl);
        assert(parse_parts(p2) == Ok::<Keybind, KeybindError>(k2));
        lemma_parse_parts_push(p2, alt);
        assert(parse_parts(p3) == Ok::<Keybind, KeybindError>(k3));
        lemma_parse_parts_push(p3, sh);
        assert(parse_parts(p4) == Ok::<Keybind, KeybindError>(k4));
        match kb.key {
            Some(k) => {
                let l = spec_label(k);
                lemma_label_facts(k);
                lemma_trim_noop(l);
                lemma_parse_parts_push(p4, l);
                assert(parse_parts(parts) == Ok::<Keybind, KeybindError>(kb));
            },
            None => {
                assert(parse_parts(parts) == Ok::<Keybind, KeybindError>(kb));
            },
        }
        assert(parts.len() >= 1);
        assert forall|i: int| 0 <= i < parts.len() implies !(#[trigger] parts[i]).contains('+') && parts[i].len() > 0 && !is_space(parts[i][0]) && !is_space(parts[i].last()) by {
            if let Some(k) = kb.key {
                lemma_label_facts(k);
            }
        }
        lemma_split_join(parts);
        lemma_join_ends(parts);
        let j = join_plus(parts);
        lemma_trim_noop(j);
    }
}

/// The text of a chord that binds something is not the word `none`.
proof fn lemma_print_text_not_none(kb: Keybind)
    requires
        !kb.spec_is_empty(),
    ensures
        lower(join_plus(spec_parts(kb))) != seq!['n', 'o', 'n', 'e'],
{
    let parts = spec_parts(kb);
    assert(parts.len() >= 1);
    assert forall|i: int| 0 <= i < parts.len() implies (#[trigger] parts[i]).len() > 0 by {
        if let Some(k) = kb.key {
            lemma_label_facts(k);
        }
    }
    lemma_join_ends(parts);
    let j = join_plus(parts);
    assert(lower(j).len() == j.len());
    {
        if lower(j) == seq!['n', 'o', 'n', 'e'] {
            assert(lower(j)[0] == lower_char(j[0]));
            if let Some(k) = kb.key {
                lemma_label_facts(k);
                if !kb.mods.meta && !kb.mods.ctrl && !kb.mods.alt && !kb.mods.shift {
                    assert(parts =~= seq![spec_label(k)]);
                    assert(j == spec_label(k));
                }
            }
        }
    }
}

/// The label the documentation gives each key, as it is written there.
pub open spec fn documented_label(key: KeyCode) -> Seq<char> {
    match key {
        KeyCode::A => "A"@,
        KeyCode::B => "B"@,
        KeyCode::C => "C"@,
        KeyCode::D => "D"@,
        KeyCode::E => "E"@,
        KeyCode::F => "F"@,
        KeyCode::G => "G"@,
        KeyCode::H => "H"@,
        KeyCode::I => "I"@,
        KeyCode::J => "J"@,
        KeyCode::K => "K"@,
        KeyCode::L => "L"@,
        KeyCode::M => "M"@,
        KeyCode::N => "N"@,
        KeyCode::O => "O"@,
        KeyCode::P => "P"@,
        KeyCode::Q => "Q"@,
        KeyCode::R => "R"@,
        KeyCode::S => "S"@,
        KeyCode::T => "T"@,
        KeyCode::U => "U"@,
        KeyCode::V => "V"@,
        KeyCode::W => "W"@,
        KeyCode::X => "X"@,
        KeyCode::Y => "Y"@,
        KeyCode::Z => "Z"@,
        KeyCode::Digit0 => "0"@,
        KeyCode::Digit1 => "1"@,
        KeyCode::Digit2 => "2"@,
        KeyCode::Digit3 => "3"@,
        KeyCode::Digit4 => "4"@,
        KeyCode::Digit5 => "5"@,
        KeyCode::Digit6 => "6"@,
        KeyCode::Digit7 => "7"@,
        KeyCode::Digit8 => "8"@,
        KeyCode::Digit9 => "9"@,
        KeyCode::F1 => "F1"@,
        KeyCode::F2 => "F2"@,
        KeyCode::F3 => "F3"@,
        KeyCode::F4 => "F4"@,
        KeyCode::F5 => "F5"@,
        KeyCode::F6 => "F6"@,
        KeyCode::F7 => "F7"@,
        KeyCode::F8 => "F8"@,
        KeyCode::F9 => "F9"@,
        KeyCode::F10 => "F10"@,
        KeyCode::F11 => "F11"@,
        KeyCode::F12 => "F12"@,
        KeyCode::Space => "Space"@,
        KeyCode::Enter => "Enter"@,
        KeyCode::Tab => "Tab"@,
        KeyCode::Escape => "Escape"@,
        KeyCode::Backspace => "Backspace"@,
        KeyCode::Delete => "Delete"@,
        KeyCode::Insert => "Insert"@,
        KeyCode::Home => "Home"@,
        KeyCode::End => "End"@,
        KeyCode::PageUp => "PageUp"@,
        KeyCode::PageDown => "PageDown"@,
        KeyCode::CapsLock => "CapsLock"@,
        KeyCode::ArrowUp => "Up"@,
        KeyCode::ArrowDown => "Down"@,
        KeyCode::ArrowLeft => "Left"@,
        KeyCode::ArrowRight => "Right"@,
        KeyCode::Minus => "Minus"@,
        KeyCode::Equal => "Equal"@,
        KeyCode::LeftBracket => "LeftBracket"@,
        KeyCode::RightBracket => "RightBracket"@,
        KeyCode::Backslash => "Backslash"@,
        KeyCode::Semicolon => "Semicolon"@,
        KeyCode::Quote => "Quote"@,
        KeyCode::Backquote => "Backquote"@,
        KeyCode::Comma => "Comma"@,
        KeyCode::Period => "Period"@,
        KeyCode::Slash => "Slash"@,
    }
}

/// Each key's label is the one the documentation gives, and that label,
/// written alone, parses to exactly that key with no modifier.
pub proof fn lemma_labels_name_their_keys(key: KeyCode)
    ensures
        spec_label(key) == documented_label(key),
        spec_parse(documented_label(key)) == Ok::<Keybind, KeybindError>(
            Keybind { mods: Mods::spec_none(), key: Some(key) },
        ),
{
    match key {
        KeyCode::A => {
            reveal_strlit("A");
            assert(spec_label(key) =~= "A"@);
        },
        KeyCode::B => {
            reveal_strlit("B");
            assert(spec_label(key) =~= "B"@);
        },
        KeyCode::C => {
            reveal_strlit("C");
            assert(spec_label(key) =~= "C"@);
        },
        KeyCode::D => {
            reveal_strlit("D");
            assert(spec_label(key) =~= "D"@);
        },
        KeyCode::E => {
            reveal_strlit("E");
            assert(spec_label(key) =~= "E"@);
        },
        KeyCode::F => {
            reveal_strlit("F");
            assert(spec_label(key) =~= "F"@);
        },
        KeyCode::G => {
            reveal_strlit("G");
            assert(spec_label(key) =~= "G"@);
        },
        KeyCode::H => {
            reveal_strlit("H");
            assert(spec_label(key) =~= "H"@);
        },
        KeyCode::I => {
            reveal_strlit("I");
            assert(spec_label(key) =~= "I"@);
        },
        KeyCode::J => {
            reveal_strlit("J");
            assert(spec_label(key) =~= "J"@);
        },
        KeyCode::K => {
            reveal_strlit("K");
            assert(spec_label(key) =~= "K"@);
        },
        KeyCode::L => {
            reveal_strlit("L");
            assert(spec_label(key) =~= "L"@);
        },
        KeyCode::M => {
            reveal_strlit("M");
            assert(spec_label(key) =~= "M"@);
        },
        KeyCode::N => {
            reveal_strlit("N");
            assert(spec_label(key) =~= "N"@);
        },
        KeyCode::O => {
            reveal_strlit("O");
            assert(spec_label(key) =~= "O"@);
        },
        KeyCode::P => {
            reveal_strlit("P");
            assert(spec_label(key) =~= "P"@);
        },
        KeyCode::Q => {
            reveal_strlit("Q");
            assert(spec_label(key) =~= "Q"@);
        },
        KeyCode::R => {
            reveal_strlit("R");
            assert(spec_label(key) =~= "R"@);
        },
        KeyCode::S => {
            reveal_strlit("S");
            assert(spec_label(key) =~= "S"@);
        },
        KeyCode::T => {
            reveal_strlit("T");
            assert(spec_label(key) =~= "T"@);
        },
        KeyCode::U => {
            reveal_strlit("U");
            assert(spec_label(key) =~= "U"@);
        },
        KeyCode::V => {
            reveal_strlit("V");
            assert(spec_label(key) =~= "V"@);
        },
        KeyCode::W => {
            reveal_strlit("W");
            assert(spec_label(key) =~= "W"@);
        },
        KeyCode::X => {
            reveal_strlit("X");
            assert(spec_label(key) =~= "X"@);
        },
        KeyCode::Y => {
            reveal_strlit("Y");
            assert(spec_label(key) =~= "Y"@);
        },
        KeyCode::Z => {
            reveal_strlit("Z");
            assert(spec_label(key) =~= "Z"@);
        },
        KeyCode::Digit0 => {
            reveal_strlit("0");
            assert(spec_label(key) =~= "0"@);
        },
        KeyCode::Digit1 => {
            reveal_strlit("1");
            assert(spec_label(key) =~= "1"@);
        },
        KeyCode::Digit2 => {
            reveal_strlit("2");
            assert(spec_label(key) =~= "2"@);
        },
        KeyCode::Digit3 => {
            reveal_strlit("3");
            assert(spec_label(key) =~= "3"@);
        },
        KeyCode::Digit4 => {
            reveal_strlit("4");
            assert(spec_label(key) =~= "4"@);
        },
        KeyCode::Digit5 => {
            reveal_strlit("5");
            assert(spec_label(key) =~= "5"@);
        },
        KeyCode::Digit6 => {
            reveal_strlit("6");
            assert(spec_label(key) =~= "6"@);
        },
        KeyCode::Digit7 => {
            reveal_strlit("7");
            assert(spec_label(key) =~= "7"@);
        },
        KeyCode::Digit8 => {
            reveal_strlit("8");
            assert(spec_label(key) =~= "8"@);
        },
        KeyCode::Digit9 => {
            reveal_strlit("9");
            assert(spec_label(key) =~= "9"@);
        },
        KeyCode::F1 => {
            reveal_strlit("F1");
            assert(spec_label(key) =~= "F1"@);
        },
        KeyCode::F2 => {
            reveal_strlit("F2");
            assert(spec_label(key) =~= "F2"@);
        },
        KeyCode::F3 => {
            reveal_strlit("F3");
            assert(spec_label(key) =~= "F3"@);
        },
        KeyCode::F4 => {
            reveal_strlit("F4");
            assert(spec_label(key) =~= "F4"@);
        },
        KeyCode::F5 => {
            reveal_strlit("F5");
            assert(spec_label(key) =~= "F5"@);
        },
        KeyCode::F6 => {
            reveal_strlit("F6");
            assert(spec_label(key) =~= "F6"@);
        },
        KeyCode::F7 => {
            reveal_strlit("F7");
            assert(spec_label(key) =~= "F7"@);
        },
        KeyCode::F8 => {
            reveal_strlit("F8");
            assert(spec_label(key) =~= "F8"@);
        },
        KeyCode::F9 => {
            reveal_strlit("F9");
            assert(spec_label(key) =~= "F9"@);
        },
        KeyCode::F10 => {
            reveal_strlit("F10");
            assert(spec_label(key) =~= "F10"@);
        },
        KeyCode::F11 => {
            reveal_strlit("F11");
            assert(spec_label(key) =~= "F11"@);
        },
        KeyCode::F12 => {
            reveal_strlit("F12");
            assert(spec_label(key) =~= "F12"@);
        },
        KeyCode::Space => {
            reveal_strlit("Space");
            assert(spec_label(key) =~= "Space"@);
        },
        KeyCode::Enter => {
            reveal_strlit("Enter");
            assert(spec_label(key) =~= "Enter"@);
        },
        KeyCode::Tab => {
            reveal_strlit("Tab");
            assert(spec_label(key) =~= "Tab"@);
        },
        KeyCode::Escape => {
            reveal_strlit("Escape");
            assert(spec_label(key) =~= "Escape"@);
        },
        KeyCode::Backspace => {
            reveal_strlit("Backspace");
            assert(spec_label(key) =~= "Backspace"@);
        },
        KeyCode::Delete => {
            reveal_strlit("Delete");
            assert(spec_label(key) =~= "Delete"@);
        },
        KeyCode::Insert => {
            reveal_strlit("Insert");
            assert(spec_label(key) =~= "Insert"@);
        },
        KeyCode::Home => {
            reveal_strlit("Home");
            assert(spec_label(key) =~= "Home"@);
        },
        KeyCode::End => {
            reveal_strlit("End");
            assert(spec_label(key) =~= "End"@);
        },
        KeyCode::PageUp => {
            reveal_strlit("PageUp");
            assert(spec_label(key) =~= "PageUp"@);
        },
        KeyCode::PageDown => {
            reveal_strlit("PageDown");
            assert(spec_label(key) =~= "PageDown"@);
        },
        KeyCode::CapsLock => {
            reveal_strlit("CapsLock");
            assert(spec_label(key) =~= "CapsLock"@);
        },
        KeyCode::ArrowUp => {
            reveal_strlit("Up");
            assert(spec_label(key) =~= "Up"@);
        },
        KeyCode::ArrowDown => {
            reveal_strlit("Down");
            assert(spec_label(key) =~= "Down"@);
        },
        KeyCode::ArrowLeft => {
            reveal_strlit("Left");
            assert(spec_label(key) =~= "Left"@);
        },
        KeyCode::ArrowRight => {
            reveal_strlit("Right");
            assert(spec_label(key) =~= "Right"@);
        },
        KeyCode::Minus => {
            reveal_strlit("Minus");
            assert(spec_label(key) =~= "Minus"@);
        },
        KeyCode::Equal => {
            reveal_strlit("Equal");
            assert(spec_label(key) =~= "Equal"@);
        },
        KeyCode::LeftBracket => {
            reveal_strlit("LeftBracket");
            assert(spec_label(key) =~= "LeftBracket"@);
        },
        KeyCode::RightBracket => {
            reveal_strlit("RightBracket");
            assert(spec_label(key) =~= "RightBracket"@);
        },
        KeyCode::Backslash => {
            reveal_strlit("Backslash");
            assert(spec_label(key) =~= "Backslash"@);
        },
        KeyCode::Semicolon => {
            reveal_strlit("Semicolon");
            assert(spec_label(key) =~= "Semicolon"@);
        },
        KeyCode::Quote => {
            reveal_strlit("Quote");
            assert(spec_label(key) =~= "Quote"@);
        },
        KeyCode::Backquote => {
            reveal_strlit("Backquote");
            assert(spec_label(key) =~= "Backquote"@);
        },
        KeyCode::Comma => {
            reveal_strlit("Comma");
            assert(spec_label(key) =~= "Comma"@);
        },
        KeyCode::Period => {
            reveal_strlit("Period");
            assert(spec_label(key) =~= "Period"@);
        },
        KeyCode::Slash => {
            reveal_strlit("Slash");
            assert(spec_label(key) =~= "Slash"@);
        },
    }
    let kb = Keybind { mods: Mods::spec_none(), key: Some(key) };
    lemma_print_parse_round_trip(kb);
    lemma_join_push(Seq::empty(), spec_label(key));
    assert(spec_parts(kb) =~= Seq::<Seq<char>>::empty().push(spec_label(key)));
}

// --- MARK: laws of parsing ---

/// Once a part fails, the parse stays failed.
proof fn lemma_err_sticks(parts: Seq<Seq<char>>, k: int)
    requires
        0 <= k <= parts.len(),
        parse_parts(parts.take(k)) is Err,
    ensures
        parse_parts(parts) is Err,
    decreases parts.len() - k,
{
    if k < parts.len() {
        assert(parts.take(k + 1).drop_last() =~= parts.take(k));
        lemma_err_sticks(parts, k + 1);
    } else {
        assert(parts.take(k) =~= parts);
    }
}

/// Two parts that fold to a chord fold to the same chord in either order.
proof fn lemma_add_parts_commute(acc: Result<Keybind, KeybindError>, a: Seq<char>, b: Seq<char>)
    requires
        add_part(add_part(acc, a), b) is Ok,
    ensures
        add_part(add_part(acc, b), a) == add_part(add_part(acc, a), b),
{
}

pub open spec fn swap_parts(parts: Seq<Seq<char>>, i: int) -> Seq<Seq<char>> {
    parts.update(i, parts[i + 1]).update(i + 1, parts[i])
}

/// Past the swapped pair the two lists fold alike.
proof fn lemma_swap_agrees_after(parts: Seq<Seq<char>>, i: int, k: int)
    requires
        0 <= i,
        i + 2 <= k <= parts.len(),
        parse_parts(swap_parts(parts, i).take(i + 2)) == parse_parts(parts.take(i + 2)),
    ensures
        parse_parts(swap_parts(parts, i).take(k)) == parse_parts(parts.take(k)),
    decreases k,
{
    if k > i + 2 {
        let swapped = swap_parts(parts, i);
        lemma_swap_agrees_after(parts, i, k - 1);
        assert(parts.take(k).drop_last() =~= parts.take(k - 1));
        assert(swapped.take(k).drop_last() =~= swapped.take(k - 1));
        assert(swapped[k - 1] == parts[k - 1]);
    }
}

/// The chord a list of parts names does not depend on their order: swapping
/// two neighbouring parts of a list that parses gives the same chord (and
/// every order is reached by such swaps).
pub proof fn lemma_order_insensitive(parts: Seq<Seq<char>>, i: int)
    requires
        0 <= i,
        i + 1 < parts.len(),
        parse_parts(parts) is Ok,
    ensures
        parse_parts(swap_parts(parts, i)) == parse_parts(parts),
{
    let swapped = swap_parts(parts, i);
    assert(swapped.take(i) =~= parts.take(i));
    assert(parts.take(i + 2).drop_last() =~= parts.take(i + 1));
    assert(parts.take(i + 1).drop_last() =~= parts.take(i));
    assert(swapped.take(i + 2).drop_last() =~= swapped.take(i + 1));
    assert(swapped.take(i + 1).drop_last() =~= swapped.take(i));
    if parse_parts(parts.take(i + 2)) is Err {
        lemma_err_sticks(parts, i + 2);
    }
    let before = parse_parts(parts.take(i));
    assert(parse_parts(parts.take(i + 1)) == add_part(before, parts[i]));
    assert(parse_parts(parts.take(i + 2)) == add_part(add_part(before, parts[i]), parts[i + 1]));
    assert(parse_parts(swapped.take(i + 1)) == add_part(before, parts[i + 1]));
    assert(parse_parts(swapped.take(i + 2)) == add_part(add_part(before, parts[i + 1]), parts[i]));
    lemma_add_parts_commute(before, parts[i], parts[i + 1]);
    lemma_swap_agrees_after(parts, i, parts.len() as int);
    assert(parts.take(parts.len() as int) =~= parts);
    assert(swapped.take(parts.len() as int) =~= swapped);
}

proof fn lemma_lower_char(c: char)
    ensures
        is_space(lower_char(c)) == is_space(c),
        (lower_char(c) == '+') == (c == '+'),
        lower_char(lower_char(c)) == lower_char(c),
{
}

proof fn lemma_lower_trim_start(s: Seq<char>)
    ensures
        trim_start(lower(s)) == lower(trim_start(s)),
    decreases s.len(),
{
    if s.len() > 0 {
        lemma_lower_char(s[0]);
        assert(lower(s).drop_first() =~= lower(s.drop_first()));
        lemma_lower_trim_start(s.drop_first());
    }
}

proof fn lemma_lower_trim_end(s: Seq<char>)
    ensures
        trim_end(lower(s)) == lower(trim_end(s)),
    decreases s.len(),
{
    if s.len() > 0 {
        lemma_lower_char(s.last());
        assert(lower(s).drop_last() =~= lower(s.drop_last()));
        lemma_lower_trim_end(s.drop_last());
    }
}

proof fn lemma_lower_idempotent(s: Seq<char>)
    ensures
        lower(lower(s)) == lower(s),
{
    assert forall|i: int| 0 <= i < s.len() implies lower(lower(s))[i] == lower(s)[i] by {
        lemma_lower_char(s[i]);
    }
    assert(lower(lower(s)) =~= lower(s));
}

proof fn lemma_lower_trim(s: Seq<char>)
    ensures
        lower(trim(lower(s))) == lower(trim(s)),
{
    lemma_lower_trim_start(s);
    lemma_lower_trim_end(trim_start(s));
    lemma_lower_idempotent(trim(s));
}

pub open spec fn lower_parts(ps: Seq<Seq<char>>) -> Seq<Seq<char>> {
    ps.map_values(|p: Seq<char>| lower(p))
}

proof fn lemma_lower_split(s: Seq<char>)
    ensures
        split_plus(lower(s)) == lower_parts(split_plus(s)),
    decreases s.len(),
{
    if s.len() > 0 {
        lemma_lower_split(s.drop_last());
        lemma_lower_char(s.last());
        lemma_split_plus_nonempty(s.drop_last());
        assert(lower(s).drop_last() =~= lower(s.drop_last()));
        let p = split_plus(s.drop_last());
        if s.last() == '+' {
            assert(lower(Seq::<char>::empty()) =~= Seq::<char>::empty());
            assert(lower_parts(p.push(Seq::empty())) =~= lower_parts(p).push(Seq::empty()));
        } else {
            let q = p.update(p.len() - 1, p.last().push(s.last()));
            assert(lower(p.last().push(s.last())) =~= lower(p.last()).push(lower_char(s.last())));
            assert(lower_parts(q) =~= lower_parts(p).update(p.len() - 1, lower(p.last()).push(lower_char(s.last()))));
        }
    } else {
        assert(lower(s) =~= s);
        assert(lower_parts(seq![Seq::<char>::empty()]) =~= seq![lower(Seq::<char>::empty())]);
        assert(lower(Seq::<char>::empty()) =~= Seq::<char>::empty());
    }
}

proof fn lemma_lower_parts_parse(ps: Seq<Seq<char>>)
    ensures
        parse_parts(lower_parts(ps)) == parse_parts(ps),
    decreases ps.len(),
{
    if ps.len() > 0 {
        lemma_lower_parts_parse(ps.drop_last());
        assert(lower_parts(ps).drop_last() =~= lower_parts(ps.drop_last()));
        lemma_lower_trim(ps.last());
    }
}

/// Parsing is case-insensitive: a text names the same chord as its ASCII
/// lower-case form.
pub proof fn lemma_case_insensitive(s: Seq<char>)
    ensures
        spec_parse(lower(s)) == spec_parse(s),
{
    lemma_lower_trim(s);
    lemma_lower_split(s);
    lemma_lower_parts_parse(split_plus(s));
}

pub open spec fn all_space(w: Seq<char>) -> bool {
    forall|i: int| 0 <= i < w.len() ==> is_space(#[trigger] w[i])
}

proof fn lemma_trim_start_skips(w: Seq<char>, x: Seq<char>)
    requires
        all_space(w),
    ensures
        trim_start(w + x) == trim_start(x),
    decreases w.len(),
{
    if w.len() > 0 {
        assert((w + x)[0] == w[0]);
        assert((w + x).drop_first() =~= w.drop_first() + x);
        assert forall|i: int| 0 <= i < w.drop_first().len() implies is_space(#[trigger] w.drop_first()[i]) by {
            assert(w.drop_first()[i] == w[i + 1]);
        }
        lemma_trim_start_skips(w.drop_first(), x);
    } else {
        assert(w + x =~= x);
    }
}

proof fn lemma_trim_end_skips(x: Seq<char>, w: Seq<char>)
    requires
        all_space(w),
    ensures
        trim_end(x + w) == trim_end(x),
    decreases w.len(),
{
    if w.len() > 0 {
        assert((x + w).last() == w.last());
        assert((x + w).drop_last() =~= x + w.drop_last());
        assert forall|i: int| 0 <= i < w.drop_last().len() implies is_space(#[trigger] w.drop_last()[i]) by {
            assert(w.drop_last()[i] == w[i]);
        }
        lemma_trim_end_skips(x, w.drop_last());
    } else {
        assert(x + w =~= x);
    }
}

proof fn lemma_trim_start_keeps_tail(p: Seq<char>, w: Seq<char>)
    requires
        !all_space(p),
    ensures
        trim_start(p + w) == trim_start(p) + w,
    decreases p.len(),
{
    assert((p + w)[0] == p[0]);
    if is_space(p[0]) {
        assert((p + w).drop_first() =~= p.drop_first() + w);
        let k = choose|i: int| 0 <= i < p.len() && !is_space(#[trigger] p[i]);
        assert(p.drop_first()[k - 1] == p[k]);
        assert(!all_space(p.drop_first()));
        lemma_trim_start_keeps_tail(p.drop_first(), w);
    }
}

proof fn lemma_all_space_trims_away(w: Seq<char>)
    requires
        all_space(w),
    ensures
        trim(w) == Seq::<char>::empty(),
{
    lemma_trim_start_skips(w, Seq::empty());
    assert(w + Seq::<char>::empty() =~= w);
}

/// Spaces around the `+` are tolerated: white space on either side of a part
/// changes nothing.
pub proof fn lemma_spaces_around_parts(acc: Result<Keybind, KeybindError>, w1: Seq<char>, p: Seq<char>, w2: Seq<char>)
    requires
        all_space(w1),
        all_space(w2),
    ensures
        add_part(acc, w1 + p + w2) == add_part(acc, p),
{
    let x = w1 + p + w2;
    assert(x =~= w1 + (p + w2));
    lemma_trim_start_skips(w1, p + w2);
    if all_space(p) {
        assert forall|i: int| 0 <= i < x.len() implies is_space(#[trigger] x[i]) by {
            if i < w1.len() {
                assert(x[i] == w1[i]);
            } else if i < w1.len() + p.len() {
                assert(x[i] == p[i - w1.len()]);
            } else {
                assert(x[i] == w2[i - w1.len() - p.len()]);
            }
        }
        lemma_all_space_trims_away(x);
        lemma_all_space_trims_away(p);
    } else {
        lemma_trim_start_keeps_tail(p, w2);
        lemma_trim_end_skips(trim_start(p), w2);
    }
}

/// Whether two texts are equal.
pub(crate) fn same_text(a: &str, b: &str) -> (r: bool)
    ensures
        r == (a@ == b@),
{
    let n = a.unicode_len();
    if n != b.unicode_len() {
        return false;
    }
    let mut i: usize = 0;
    while i < n
        invariant
            i <= n,
            n == a@.len(),
            n == b@.len(),
            a@.take(i as int) == b@.take(i as int),
        decreases n - i,
    {
        if a.get_char(i) != b.get_char(i) {
            return false;
        }
        proof {
            assert(a@.take(i + 1) =~= a@.take(i as int).push(a@[i as int]));
            assert(b@.take(i + 1) =~= b@.take(i as int).push(b@[i as int]));
        }
        i += 1;
    }
    proof {
        assert(a@.take(n as int) =~= a@);
        assert(b@.take(n as int) =~= b@);
    }
    true
}

} // verus!
