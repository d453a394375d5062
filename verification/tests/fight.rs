use buddy::buddy::Attacker;
use buddy::cast::{Cast, CastState};
use buddy::evtc::Agent;
use buddy::fight::{BreakbarHit, BuffApply, CastRecord, Fight, FightData, History, SkillInfo};
use buddy::player::Player;
use buddy::settings::{data_status, setting_from_input, LoadError};

fn c(time: i32, skill: u32) -> Cast {
    Cast::from_start(time, skill, CastState::Casting)
}

fn agent(id: usize) -> Agent {
    Agent { name: None, id, prof: 1, elite: 0, is_self: 0, team: 0 }
}

fn fight_with(casts: Vec<Cast>) -> FightData {
    let mut f = FightData::new();
    f.casts = casts;
    f
}

#[test]
fn cast_start_adds_in_order() {
    let mut f = fight_with(vec![c(10, 1), c(30, 2)]);
    f.cast_start(3, 20);
    assert_eq!(f.casts, vec![c(10, 1), c(20, 3), c(30, 2)]);
    assert_eq!(f.casts[1].state, CastState::Casting);
}

#[test]
fn cast_end_completes_latest_or_adds_backdated() {
    let mut f = fight_with(vec![c(10, 1), c(20, 2), c(30, 1)]);
    assert!(f.has_cast(1));
    assert!(!f.has_cast(7));
    assert_eq!(f.cast_end(1, CastState::Fire, 500, 800), CastRecord::Existing(2));
    assert_eq!(f.casts[2], Cast { time: 30, skill: 1, state: CastState::Fire, duration: 500, hits: vec![] });
    assert_eq!(f.casts[0], c(10, 1));
    assert_eq!(f.casts.len(), 3);
    assert_eq!(f.cast_end(7, CastState::Cancel, 500, 800), CastRecord::Added);
    assert_eq!(f.casts[3], Cast::from_end(300, 7, CastState::Cancel, 500));
    let mut f = fight_with(vec![c(10, 1), c(400, 2)]);
    assert_eq!(f.cast_end(7, CastState::Interrupt, 500, 800), CastRecord::Added);
    assert_eq!(f.casts, vec![c(10, 1), Cast::from_end(300, 7, CastState::Interrupt, 500), c(400, 2)]);
}

#[test]
fn start_then_end_completes_the_started_cast() {
    let mut f = FightData::new();
    f.cast_start(7, 100);
    assert_eq!(f.cast_end(7, CastState::Fire, 600, 700), CastRecord::Existing(0));
    assert_eq!(f.casts, vec![Cast { time: 100, skill: 7, state: CastState::Fire, duration: 600, hits: vec![] }]);
}

#[test]
fn damage_hit_window_and_minions() {
    let info = SkillInfo { id: 1, minion: false, max_duration: 1000 };
    let mut f = fight_with(vec![c(10, 1), c(100, 2)]);
    assert_eq!(f.damage_hit(Some(info), false, &agent(5), 1010), CastRecord::Existing(0));
    assert_eq!(f.casts[0].hits, vec![5]);
    assert_eq!(f.damage_hit(Some(info), false, &agent(6), 1011), CastRecord::Added);
    assert_eq!(f.casts[2], Cast::from_hit(1011, 1, 6));
    assert_eq!(f.casts.len(), 3);
    assert_eq!(f.damage_hit(Some(info), true, &agent(6), 1012), CastRecord::Ignored);
    assert_eq!(f.damage_hit(None, false, &agent(6), 1012), CastRecord::Ignored);
    let minion_info = SkillInfo { id: 2, minion: true, max_duration: 50 };
    assert_eq!(f.damage_hit(Some(minion_info), true, &agent(8), 120), CastRecord::Existing(1));
    assert_eq!(f.casts[1].hits, vec![8]);
    assert_eq!(f.casts.len(), 3);
    let mut empty = FightData::new();
    assert_eq!(empty.damage_hit(Some(info), false, &agent(4), 5), CastRecord::Added);
    assert_eq!(empty.casts, vec![Cast::from_hit(5, 1, 4)]);
}

#[test]
fn ignored_minion_hit_needs_no_window() {
    let info = SkillInfo { id: 1, minion: false, max_duration: 1000 };
    let mut f = fight_with(vec![c(-2147483647, 1)]);
    assert_eq!(f.damage_hit(Some(info), true, &agent(5), 100), CastRecord::Ignored);
    assert_eq!(f.casts.len(), 1);
}

#[test]
fn history_starts_empty_and_follows_latest_fight() {
    let mut h = History::new(10, 5000, true);
    assert_eq!(h.fights.len(), 0);
    assert_eq!(h.relative_time(100), None);
    assert!(h.latest_fight_mut().is_none());
    h.fights.push(Fight::new(1000));
    h.fights.push(Fight::new(2000));
    assert_eq!(h.relative_time(2500), Some(500));
    assert_eq!(h.relative_time(1500), None);
    h.latest_fight_mut().unwrap().data.cast_start(3, 10);
    assert_eq!(h.fights[1].data.casts.len(), 1);
    assert_eq!(h.fights[0].data.casts.len(), 0);
}

#[test]
fn boons_and_breakbar_hits_are_recorded() {
    let mut f = FightData::new();
    f.apply_buff(12, 740, 3000, &agent(4));
    assert_eq!(f.buffs, vec![BuffApply { time: 12, buff: 740, duration: 3000, target: 4 }]);
    let player = Player::new(8, 3, 1, 0, Some("p"));
    f.breakbar_hit(20, 5, &Attacker::Player(&player), true, &agent(9), 150);
    let a = agent(6);
    f.breakbar_hit(21, 5, &Attacker::Agent(&a), false, &agent(9), 50);
    assert_eq!(
        f.breakbar,
        vec![
            BreakbarHit { time: 20, skill: 5, damage: 150, attacker: 8, is_own: true, target: 9 },
            BreakbarHit { time: 21, skill: 5, damage: 50, attacker: 6, is_own: false, target: 9 },
        ]
    );
}

#[test]
fn relative_time_within_fight() {
    let fight = Fight::new(1000);
    assert_eq!(fight.relative_time(1000), Some(0));
    assert_eq!(fight.relative_time(1250), Some(250));
    assert_eq!(fight.relative_time(999), None);
    assert_eq!(fight.relative_time(1000 + 0x8000_0000), None);
    assert_eq!(fight.relative_time(1000 + 0x7fff_ffff), Some(i32::MAX));
}

#[test]
fn data_status_lines() {
    assert_eq!(data_status(&Ok(0)), "Loaded 0 entries");
    assert_eq!(data_status(&Ok(137)), "Loaded 137 entries");
    assert_eq!(data_status(&Err(LoadError::NotFound)), "Not found");
    assert_eq!(data_status(&Err(LoadError::FailedToRead)), "Failed to read file");
    assert_eq!(data_status(&Err(LoadError::Invalid)), "Failed to parse");
}

#[test]
fn negative_setting_input_is_zero() {
    assert_eq!(setting_from_input(-5), 0);
    assert_eq!(setting_from_input(0), 0);
    assert_eq!(setting_from_input(5000), 5000);
}
