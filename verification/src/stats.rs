//! Experience levels, skill points and base attributes of a character.

use vstd::prelude::*;

verus! {

/// Experience needed to leave each level.
pub const LEVEL_REQ_XP: [u32; 10] = [60, 100, 150, 200, 350, 625, 920, 1250, 1770, 2500];

/// Experience needed to leave level `i`.
pub open spec fn req_xp(i: int) -> u32 {
    if i == 0 { 60 }
    else if i == 1 { 100 }
    else if i == 2 { 150 }
    else if i == 3 { 200 }
    else if i == 4 { 350 }
    else if i == 5 { 625 }
    else if i == 6 { 920 }
    else if i == 7 { 1250 }
    else if i == 8 { 1770 }
    else { 2500 }
}

fn level_req_xp(i: usize) -> (r: u32)
    requires
        i < 10,
    ensures
        r == req_xp(i as int),
{
    let table = LEVEL_REQ_XP;
    assert(table@ =~= seq![60u32, 100, 150, 200, 350, 625, 920, 1250, 1770, 2500]);
    table[i]
}

/// A character's level and the experience gathered towards the next one.
#[derive(Debug)]
pub struct Level {
    pub level: u8,
    pub xp: u32,
    pub next_level_xp: u32,
}

impl Level {
    /// The level after `added` experience: when the total reaches what the level
    /// needs, the level goes up by one, the needed amount is spent and the next
    /// requirement is read from the table.
    pub open spec fn gained(self, added: u32) -> Level {
        let total = self.xp + added;
        if total >= self.next_level_xp {
            Level {
                level: (self.level + 1) as u8,
                xp: (total - self.next_level_xp) as u32,
                next_level_xp: req_xp(self.level + 1),
            }
        } else {
            Level { xp: total as u32, ..self }
        }
    }

    /// A character at `level` with no experience; levels past the table need
    /// what its last entry says.
    pub fn new(level: u8) -> (r: Self)
        ensures
            r.level == level,
            r.xp == 0,
            r.next_level_xp == req_xp(if level >= 10 { 9 } else { level as int }),
    {
        let index: usize = if level >= 10 {
            9
        } else {
            level as usize
        };
        Level { level, xp: 0, next_level_xp: level_req_xp(index) }
    }

    /// Adds experience, going up at most one level.
    pub fn add_xp(&mut self, xp: u32)
        requires
            old(self).xp + xp <= u32::MAX,
            old(self).xp + xp >= old(self).next_level_xp ==> old(self).level + 1 < 10,
        ensures
            *final(self) == old(self).gained(xp),
    {
        self.xp = self.xp + xp;
        if self.xp >= self.next_level_xp {
            self.level = self.level + 1;
            self.xp = self.xp - self.next_level_xp;
            self.next_level_xp = level_req_xp(self.level as usize);
        }
    }
}

/// Adding experience never loses or invents any: what is kept plus what was
/// spent on a new level is what there was plus what was added, and the level
/// rises by at most one.
pub proof fn law_xp_is_conserved(l: Level, added: u32)
    requires
        l.xp + added <= u32::MAX,
        l.xp + added >= l.next_level_xp ==> l.level + 1 < 10,
    ensures
        l.gained(added).xp + (l.gained(added).level - l.level) * l.next_level_xp == l.xp + added,
        l.level <= l.gained(added).level <= l.level + 1,
{
    if l.xp + added >= l.next_level_xp {
        assert(l.gained(added).level - l.level == 1);
    } else {
        assert(l.gained(added).level - l.level == 0);
    }
}

/// Unspent skill points.
#[derive(Debug, Clone, Copy)]
pub struct SkillPoints {
    pub count: u8,
}

/// What the level-up check leaves behind for one character.
#[derive(Debug, PartialEq, Eq, Clone, Copy, Structural)]
pub struct LevelUpStep {
    /// The level at which the next point is granted.
    pub next_level: u8,
    /// The character's skill points.
    pub points: u8,
    /// True when the check stops looking at further characters.
    pub stop: bool,
}

/// The level-up check for one character: at level 1 the next reward is set to
/// level 2 and the check stops; on reaching the awaited level one skill point is
/// granted and the level after it is awaited.
pub fn level_up_step(level: u8, next_level: u8, points: u8) -> (r: LevelUpStep)
    requires
        level != 1 && level == next_level ==> points < u8::MAX && next_level < u8::MAX,
    ensures
        level == 1 ==> r == (LevelUpStep { next_level: 2, points, stop: true }),
        level != 1 && level == next_level ==> r == (LevelUpStep {
            next_level: (next_level + 1) as u8,
            points: (points + 1) as u8,
            stop: false,
        }),
        level != 1 && level != next_level ==> r == (LevelUpStep { next_level, points, stop: false }),
{
    if level == 1 {
        return LevelUpStep { next_level: 2, points, stop: true };
    }
    if level == next_level {
        LevelUpStep { next_level: next_level + 1, points: points + 1, stop: false }
    } else {
        LevelUpStep { next_level, points, stop: false }
    }
}

/// Base attributes.
#[derive(Debug, Clone, Copy)]
pub struct Stats {
    /// strength
    pub str: i32,
    /// dexterity
    pub dex: i32,
    /// endurance
    pub end: i32,
    /// intelligence
    pub int: i32,
}

impl Stats {
    /// All attributes at zero.
    pub fn new() -> (r: Self)
        ensures
            r.str == 0 && r.dex == 0 && r.end == 0 && r.int == 0,
    {
        Stats { str: 0, dex: 0, end: 0, int: 0 }
    }
}

} // verus!
