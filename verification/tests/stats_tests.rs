use sintet::stats::{level_up_step, Level, LevelUpStep, Stats, LEVEL_REQ_XP};

#[test]
fn new_level_reads_table() {
    let l = Level::new(0);
    assert_eq!((l.level, l.xp, l.next_level_xp), (0, 0, 60));
    assert_eq!(Level::new(4).next_level_xp, 350);
    assert_eq!(Level::new(9).next_level_xp, 2500);
    assert_eq!(Level::new(200).next_level_xp, 2500);
    assert_eq!(LEVEL_REQ_XP[7], 1250);
}

#[test]
fn add_xp_levels_up_once() {
    let mut l = Level::new(0);
    l.add_xp(50);
    assert_eq!((l.level, l.xp, l.next_level_xp), (0, 50, 60));
    l.add_xp(30);
    assert_eq!((l.level, l.xp, l.next_level_xp), (1, 20, 100));
    l.add_xp(80);
    assert_eq!((l.level, l.xp, l.next_level_xp), (2, 0, 150));
    let mut big = Level::new(0);
    big.add_xp(1000);
    assert_eq!((big.level, big.xp, big.next_level_xp), (1, 940, 100));
}

#[test]
fn law_xp_conservation_example() {
    let mut l = Level::new(3);
    let before = l.xp + 500;
    let need = l.next_level_xp;
    l.add_xp(500);
    assert_eq!(l.level, 4);
    assert_eq!(l.xp + need, before);
}

#[test]
fn level_up_steps() {
    assert_eq!(level_up_step(1, 0, 0), LevelUpStep { next_level: 2, points: 0, stop: true });
    assert_eq!(level_up_step(2, 2, 0), LevelUpStep { next_level: 3, points: 1, stop: false });
    assert_eq!(level_up_step(3, 2, 4), LevelUpStep { next_level: 2, points: 4, stop: false });
}

#[test]
fn stats_start_at_zero() {
    let s = Stats::new();
    assert_eq!((s.str, s.dex, s.end, s.int), (0, 0, 0, 0));
}
