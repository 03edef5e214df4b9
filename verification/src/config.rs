//! The server's configuration record: lobby identity, capacity, the tag
//! flags advertised in lobby metadata, and the ban list. Every field has a
//! default, so a missing or partial configuration file still yields a full
//! record (the file itself is read outside the verified core).

use crate::external::rand_below;
use vstd::prelude::*;

verus! {

/// The configuration record, with one field per configuration key.
#[derive(Debug)]
pub struct Config {
    pub name: String,
    pub motd: String,
    pub game_version: String,
    pub lobby_code: String,
    pub max_players: u32,
    pub unlisted: bool,
    pub tag_talkative: bool,
    pub tag_quiet: bool,
    pub tag_grinding: bool,
    pub tag_chill: bool,
    pub tag_silly: bool,
    pub tag_hardcore: bool,
    pub tag_mature: bool,
    pub tag_modded: bool,
    pub ban_list: Vec<u64>,
}

impl Config {
    /// The lobby-metadata rendering of a flag: "1" or "0".
    pub fn get_lobby_data_for_bool(value: bool) -> (s: String)
        ensures
            s@ == (if value {
                "1"@
            } else {
                "0"@
            }),
    {
        if value {
            String::from_str("1")
        } else {
            String::from_str("0")
        }
    }

    /// A copy of this record, field for field.
    pub fn duplicate(&self) -> (r: Config)
        ensures
            r.name@ == self.name@,
            r.motd@ == self.motd@,
            r.game_version@ == self.game_version@,
            r.lobby_code@ == self.lobby_code@,
            r.max_players == self.max_players,
            r.unlisted == self.unlisted,
            r.tag_talkative == self.tag_talkative,
            r.tag_quiet == self.tag_quiet,
            r.tag_grinding == self.tag_grinding,
            r.tag_chill == self.tag_chill,
            r.tag_silly == self.tag_silly,
            r.tag_hardcore == self.tag_hardcore,
            r.tag_mature == self.tag_mature,
            r.tag_modded == self.tag_modded,
            r.ban_list@ == self.ban_list@,
    {
        Config {
            name: self.name.clone(),
            motd: self.motd.clone(),
            game_version: self.game_version.clone(),
            lobby_code: self.lobby_code.clone(),
            max_players: self.max_players,
            unlisted: self.unlisted,
            tag_talkative: self.tag_talkative,
            tag_quiet: self.tag_quiet,
            tag_grinding: self.tag_grinding,
            tag_chill: self.tag_chill,
            tag_silly: self.tag_silly,
            tag_hardcore: self.tag_hardcore,
            tag_mature: self.tag_mature,
            tag_modded: self.tag_modded,
            ban_list: self.ban_list.clone(),
        }
    }
}

/// A six-character lobby code drawn from upper-case letters and digits.
pub fn lobby_code() -> (s: String)
    ensures
        s@.len() == 6,
{
    let mut s = String::new();
    let mut i: usize = 0;
    while i < 6
        invariant
            i <= 6,
            s@.len() == i,
        decreases 6 - i,
    {
        s.append(code_char(rand_below(36)));
        i += 1;
    }
    s
}

/// One character of the lobby-code alphabet.
fn code_char(idx: u32) -> (c: &'static str)
    requires
        idx < 36,
    ensures
        c@.len() == 1,
{
    proof {
        reveal_strlit("A");
        reveal_strlit("B");
        reveal_strlit("C");
        reveal_strlit("D");
        reveal_strlit("E");
        reveal_strlit("F");
        reveal_strlit("G");
        reveal_strlit("H");
        reveal_strlit("I");
        reveal_strlit("J");
        reveal_strlit("K");
        reveal_strlit("L");
        reveal_strlit("M");
        reveal_strlit("N");
        reveal_strlit("O");
        reveal_strlit("P");
        reveal_strlit("Q");
        reveal_strlit("R");
        reveal_strlit("S");
        reveal_strlit("T");
        reveal_strlit("U");
        reveal_strlit("V");
        reveal_strlit("W");
        reveal_strlit("X");
        reveal_strlit("Y");
        reveal_strlit("Z");
        reveal_strlit("0");
        reveal_strlit("1");
        reveal_strlit("2");
        reveal_strlit("3");
        reveal_strlit("4");
        reveal_strlit("5");
        reveal_strlit("6");
        reveal_strlit("7");
        reveal_strlit("8");
        reveal_strlit("9");
    }
    if idx == 0 {
        "A"
    } else if idx == 1 {
        "B"
    } else if idx == 2 {
        "C"
    } else if idx == 3 {
        "D"
    } else if idx == 4 {
        "E"
    } else if idx == 5 {
        "F"
    } else if idx == 6 {
        "G"
    } else if idx == 7 {
        "H"
    } else if idx == 8 {
        "I"
    } else if idx == 9 {
        "J"
    } else if idx == 10 {
        "K"
    } else if idx == 11 {
        "L"
    } else if idx == 12 {
        "M"
    } else if idx == 13 {
        "N"
    } else if idx == 14 {
        "O"
    } else if idx == 15 {
        "P"
    } else if idx == 16 {
        "Q"
    } else if idx == 17 {
        "R"
    } else if idx == 18 {
        "S"
    } else if idx == 19 {
        "T"
    } else if idx == 20 {
        "U"
    } else if idx == 21 {
        "V"
    } else if idx == 22 {
        "W"
    } else if idx == 23 {
        "X"
    } else if idx == 24 {
        "Y"
    } else if idx == 25 {
        "Z"
    } else if idx == 26 {
        "0"
    } else if idx == 27 {
        "1"
    } else if idx == 28 {
        "2"
    } else if idx == 29 {
        "3"
    } else if idx == 30 {
        "4"
    } else if idx == 31 {
        "5"
    } else if idx == 32 {
        "6"
    } else if idx == 33 {
        "7"
    } else if idx == 34 {
        "8"
    } else {
        "9"
    }
}

impl Default for Config {
    /// The defaults used when the configuration file is absent or partial:
    /// a fresh random lobby code, twelve player slots, the modded tag set,
    /// and an empty ban list.
    fn default() -> (c: Config)
        ensures
            c.name@ == "A Ducky Server"@,
            c.motd@ == "This lobby is powered by Ducky.\nType !help to see commands."@,
            c.game_version@ == "1.11"@,
            c.lobby_code@.len() == 6,
            c.max_players == 12,
            !c.unlisted,
            !c.tag_talkative,
            !c.tag_quiet,
            !c.tag_grinding,
            !c.tag_chill,
            !c.tag_silly,
            !c.tag_hardcore,
            !c.tag_mature,
            c.tag_modded,
            c.ban_list@ == Seq::<u64>::empty(),
    {
        Config {
            name: String::from_str("A Ducky Server"),
            motd: String::from_str("This lobby is powered by Ducky.\nType !help to see commands."),
            game_version: String::from_str("1.11"),
            lobby_code: lobby_code(),
            max_players: 12,
            unlisted: false,
            tag_talkative: false,
            tag_quiet: false,
            tag_grinding: false,
            tag_chill: false,
            tag_silly: false,
            tag_hardcore: false,
            tag_mature: false,
            tag_modded: true,
            ban_list: Vec::new(),
        }
    }
}

} // verus!
