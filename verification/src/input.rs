//! Keyboard handling: the terminal attribute changes that make reads
//! raw and non-blocking, the arrow-escape decoding, and the mapping
//! from key bytes to player intent. The raw reads and the attribute
//! system calls themselves are the caller's; this module computes what
//! to set and what a byte means.

use vstd::prelude::*;
use crate::game::Dir;

verus! {

/// The canonical-mode flag in `c_lflag`.
pub const ICANON: u32 = 0x0000_0002;

/// The echo flag in `c_lflag`.
pub const ECHO: u32 = 0x0000_0008;

/// Index of the read-timeout control character.
pub const VTIME: usize = 5;

/// Index of the minimum-read control character.
pub const VMIN: usize = 6;

/// Terminal attributes, as plain data.
pub struct termios {
    pub c_iflag: u32,
    pub c_oflag: u32,
    pub c_cflag: u32,
    pub c_lflag: u32,
    pub c_line: u8,
    /// The control characters; at least eight.
    pub c_cc: Vec<u8>,
}

/// The attribute record has enough control characters to index.
pub open spec fn termios_wf(t: &termios) -> bool {
    t.c_cc@.len() >= 8
}

/// The saved terminal attributes, restored when the session ends.
pub struct Input {
    /// The attributes the terminal had before the session.
    pub termios: termios,
}

impl Input {
    /// The attributes that make the terminal raw: canonical mode and
    /// echo off, reads returning at once with whatever is available.
    pub fn cbreak(&self) -> (t: termios)
        requires
            termios_wf(&self.termios),
        ensures
            termios_wf(&t),
            t.c_iflag == self.termios.c_iflag,
            t.c_oflag == self.termios.c_oflag,
            t.c_cflag == self.termios.c_cflag,
            t.c_lflag == self.termios.c_lflag & !(ICANON | ECHO),
            t.c_line == self.termios.c_line,
            t.c_cc@ == self.termios.c_cc@.update(VMIN as int, 0u8).update(VTIME as int, 0u8),
    {
        let mut cc: Vec<u8> = Vec::new();
        let n = self.termios.c_cc.len();
        let mut i: usize = 0;
        while i < n
            invariant
                n == self.termios.c_cc@.len(),
                i <= n,
                cc@ == self.termios.c_cc@.subrange(0, i as int),
            decreases n - i,
        {
            proof {
                assert(self.termios.c_cc@.subrange(0, i + 1).drop_last()
                    =~= self.termios.c_cc@.subrange(0, i as int));
            }
            cc.push(self.termios.c_cc[i]);
            i = i + 1;
        }
        proof {
            assert(self.termios.c_cc@.subrange(0, n as int) =~= self.termios.c_cc@);
        }
        cc[VMIN] = 0;
        cc[VTIME] = 0;
        termios {
            c_iflag: self.termios.c_iflag,
            c_oflag: self.termios.c_oflag,
            c_cflag: self.termios.c_cflag,
            c_lflag: self.termios.c_lflag & !(ICANON | ECHO),
            c_line: self.termios.c_line,
            c_cc: cc,
        }
    }
}

/// Decodes one key from up to three raw bytes: an escape byte consumes
/// two more and yields the third (the arrow keys' final byte); anything
/// else stands for itself. `None` when the escape sequence is cut short.
pub fn decode_escape(c0: u8, c1: Option<u8>, c2: Option<u8>) -> (r: Option<u8>)
    ensures
        r == (if c0 == 27 {
            if c1 is Some {
                c2
            } else {
                None::<u8>
            }
        } else {
            Some(c0)
        }),
{
    if c0 == 27 {
        match c1 {
            Some(_) => c2,
            None => None,
        }
    } else {
        Some(c0)
    }
}

/// What one decoded key asks of the game.
#[derive(Clone, Copy, PartialEq, Eq, Structural, Debug)]
pub enum KeyAction {
    /// Move, and for left and right also face, that way.
    Move(Dir),
    /// Stop moving.
    Halt,
    /// Leave the game.
    Quit,
    /// Not a binding; do nothing.
    Ignore,
}

/// The binding of a decoded key byte: the letter keys and the arrow
/// keys' final bytes move, space stops, `q` quits, all else is ignored.
pub open spec fn key_action_spec(c: u8) -> KeyAction {
    if c == 119 || c == 65 {
        KeyAction::Move(Dir::Up)
    } else if c == 97 || c == 68 {
        KeyAction::Move(Dir::Left)
    } else if c == 115 || c == 66 {
        KeyAction::Move(Dir::Down)
    } else if c == 100 || c == 67 {
        KeyAction::Move(Dir::Right)
    } else if c == 32 {
        KeyAction::Halt
    } else if c == 113 {
        KeyAction::Quit
    } else {
        KeyAction::Ignore
    }
}

/// The binding of a decoded key byte.
pub fn key_action(c: u8) -> (r: KeyAction)
    ensures
        r == key_action_spec(c),
{
    if c == 119 || c == 65 {
        KeyAction::Move(Dir::Up)
    } else if c == 97 || c == 68 {
        KeyAction::Move(Dir::Left)
    } else if c == 115 || c == 66 {
        KeyAction::Move(Dir::Down)
    } else if c == 100 || c == 67 {
        KeyAction::Move(Dir::Right)
    } else if c == 32 {
        KeyAction::Halt
    } else if c == 113 {
        KeyAction::Quit
    } else {
        KeyAction::Ignore
    }
}

/// Applies one key to the player's intent: movement sets the direction,
/// left and right also the facing, space clears the intent; the quit
/// decision is the caller's.
pub fn apply_key(player: &mut crate::game::Player, c: u8)
    ensures
        ({
            let a = key_action_spec(c);
            match a {
                KeyAction::Move(d) => final(player).dir == Some(d) && final(player).face == (
                if d == Dir::Left || d == Dir::Right {
                    d
                } else {
                    old(player).face
                }),
                KeyAction::Halt => final(player).dir is None && final(player).face == old(
                    player,
                ).face,
                _ => final(player).dir == old(player).dir && final(player).face == old(
                    player,
                ).face,
            }
        }),
        *final(player) == (crate::game::Player {
            dir: final(player).dir,
            face: final(player).face,
            ..*old(player)
        }),
{
    match key_action(c) {
        KeyAction::Move(d) => {
            player.dir = Some(d);
            if matches!(d, Dir::Left | Dir::Right) {
                player.face = d;
            }
        },
        KeyAction::Halt => {
            player.dir = None;
        },
        KeyAction::Quit => {},
        KeyAction::Ignore => {},
    }
}

} // verus!
