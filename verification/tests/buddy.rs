use buddy::buddy::{Attacker, Buddy, CombatAction, EventContext, StrikeAction};
use buddy::cast::CastState;
use buddy::evtc::{Agent, CombatResult, Event, StateChange};
use buddy::fight::HistorySettings;
use buddy::settings::LoadError;
use buddy::player::Player;
use buddy::{is_fresh_press, should_render};

fn agent(name: Option<&str>, id: usize, prof: u32, elite: u32, is_self: u32) -> Agent {
    Agent { name: name.map(|n| n.to_string()), id, prof, elite, is_self, team: 0 }
}

fn in_fight(known_skill: bool, is_boon: bool, is_condition: bool) -> EventContext {
    EventContext { relative_time: Some(300), known_skill, is_boon, is_condition }
}

fn no_fight() -> EventContext {
    EventContext { relative_time: None, known_skill: true, is_boon: true, is_condition: true }
}

fn event(statechange: StateChange, result: CombatResult, master: u16) -> Event {
    Event {
        time: 1000,
        src_agent: 0x1_0000_0042,
        value: 250,
        skill_id: 5491,
        src_master_instance_id: master,
        is_offcycle: 0,
        statechange,
        result,
        cast_state: CastState::Fire,
    }
}

#[test]
fn add_and_remove_players() {
    let mut b = Buddy::new();
    b.add_player(Player::new(1, 11, 1, 0, Some("a")), false);
    b.add_player(Player::new(2, 12, 2, 0, Some("b")), true);
    b.add_player(Player::new(3, 13, 3, 0, Some("c")), false);
    assert_eq!(b.self_instance_id, Some(12));
    b.remove_player(1);
    let ids: Vec<usize> = b.players.iter().map(|p| p.id).collect();
    assert_eq!(ids, vec![3, 2]);
    b.remove_player(99);
    assert_eq!(b.players.len(), 2);
    b.remove_player(2);
    assert_eq!(b.players.len(), 1);
    assert_eq!(b.players[0].id, 3);
    assert_eq!(b.self_instance_id, Some(12));
}

#[test]
fn remove_just_added_player() {
    let mut b = Buddy::new();
    b.add_player(Player::new(1, 11, 1, 0, Some("a")), false);
    b.add_player(Player::new(2, 12, 2, 0, Some("b")), false);
    b.remove_player(2);
    assert_eq!(b.players.len(), 1);
    assert_eq!(b.players[0].id, 1);
}

#[test]
fn own_minion_and_master() {
    let mut b = Buddy::new();
    let e = event(StateChange::Combat, CombatResult::StrikeDamage, 12);
    assert!(!b.is_own_minion(&e));
    assert!(b.get_master(&e).is_none());
    b.add_player(Player::new(1, 12, 1, 0, Some("me")), true);
    assert!(b.is_own_minion(&e));
    assert_eq!(b.get_master(&e).unwrap().id, 1);
    let other = event(StateChange::Combat, CombatResult::StrikeDamage, 13);
    assert!(!b.is_own_minion(&other));
}

#[test]
fn tracking_change_adds_player() {
    let mut b = Buddy::new();
    let src = agent(Some("Char"), 500, 4, 0, 0);
    let dst = agent(Some(":acc.1"), 77, 4, 55, 1);
    let r = b.event(None, Some(&src), Some(&dst), None, no_fight());
    assert!(matches!(r, CombatAction::Ignore));
    assert_eq!(b.players.len(), 1);
    assert_eq!(b.players[0].id, 500);
    assert_eq!(b.players[0].instance_id, 77);
    assert_eq!(b.self_instance_id, Some(77));
}

#[test]
fn tracking_change_without_profession_changes_nothing() {
    let mut b = Buddy::new();
    b.add_player(Player::new(500, 77, 4, 0, Some("Char")), false);
    let src = agent(Some("Char"), 500, 0, 0, 0);
    let dst = agent(None, 77, 0, 0, 0);
    b.event(None, Some(&src), Some(&dst), None, no_fight());
    assert_eq!(b.players.len(), 1);
    let npc = agent(None, 600, 4, 0xffff_ffff, 0);
    b.event(None, Some(&npc), Some(&dst), None, no_fight());
    assert_eq!(b.players.len(), 1);
    b.event(None, Some(&src), None, None, no_fight());
    b.event(None, None, Some(&dst), None, no_fight());
    assert_eq!(b.players.len(), 1);
}

#[test]
fn combat_routes() {
    let b = Buddy::new();
    let me = agent(None, 1, 1, 0, 1);
    let other = agent(None, 2, 1, 0, 0);
    let e = event(StateChange::SquadCombatStart, CombatResult::Other, 0);
    match b.combat_event(&e, &me, Some(&other), None, no_fight()) {
        CombatAction::StartFight { time, species, target } => {
            assert_eq!(time, 1000);
            assert_eq!(species, 0x42);
            assert_eq!(target.unwrap().id, 2);
        }
        _ => panic!("expected a fight start"),
    }
    let e = event(StateChange::SquadCombatEnd, CombatResult::Other, 0);
    assert!(matches!(b.combat_event(&e, &me, None, None, no_fight()), CombatAction::EndFight { time: 1000 }));
    let e = event(StateChange::Other, CombatResult::Other, 0);
    assert!(matches!(b.combat_event(&e, &me, Some(&other), None, in_fight(true, true, true)), CombatAction::Ignore));
}

#[test]
fn cast_routes_need_fight_and_known_skill() {
    let b = Buddy::new();
    let me = agent(None, 1, 1, 0, 1);
    let other = agent(None, 2, 1, 0, 0);
    let e = event(StateChange::AnimationStart, CombatResult::Other, 0);
    assert!(matches!(
        b.combat_event(&e, &me, None, Some("Skill"), in_fight(true, false, false)),
        CombatAction::CastStart { time: 300, skill: 5491, skill_name: Some("Skill") }
    ));
    assert!(matches!(b.combat_event(&e, &other, None, None, in_fight(true, false, false)), CombatAction::Ignore));
    assert!(matches!(b.combat_event(&e, &me, None, None, in_fight(false, false, false)), CombatAction::Ignore));
    assert!(matches!(b.combat_event(&e, &me, None, None, no_fight()), CombatAction::Ignore));
    let e = event(StateChange::AnimationStop, CombatResult::Other, 0);
    assert!(matches!(
        b.combat_event(&e, &me, None, None, in_fight(true, false, false)),
        CombatAction::CastEnd { time: 300, duration: 250, state: CastState::Fire, .. }
    ));
    assert!(matches!(b.combat_event(&e, &me, None, None, no_fight()), CombatAction::Ignore));
}

#[test]
fn buff_routes() {
    let b = Buddy::new();
    let me = agent(None, 1, 1, 0, 1);
    let other = agent(None, 2, 1, 0, 0);
    let e = event(StateChange::BuffApply, CombatResult::Other, 0);
    match b.combat_event(&e, &me, Some(&other), None, in_fight(false, true, true)) {
        CombatAction::ApplyBuff { time, buff, duration, target } => {
            assert_eq!((time, buff, duration, target.id), (300, 5491, 250, 2));
        }
        _ => panic!("expected a boon apply"),
    }
    match b.combat_event(&e, &me, Some(&other), None, in_fight(false, false, true)) {
        CombatAction::ApplyCondition { time, condition, duration, target } => {
            assert_eq!((time, condition, duration, target.id), (300, 5491, 250, 2));
        }
        _ => panic!("expected a condition apply"),
    }
    assert!(matches!(b.combat_event(&e, &me, Some(&other), None, in_fight(false, false, false)), CombatAction::Ignore));
    assert!(matches!(b.combat_event(&e, &other, Some(&me), None, in_fight(false, true, true)), CombatAction::Ignore));
    assert!(matches!(b.combat_event(&e, &other, Some(&me), None, in_fight(false, false, true)), CombatAction::Ignore));
    assert!(matches!(b.combat_event(&e, &me, Some(&me), None, in_fight(false, true, false)), CombatAction::Ignore));
    assert!(matches!(b.combat_event(&e, &me, None, None, in_fight(false, true, true)), CombatAction::Ignore));
    assert!(matches!(b.combat_event(&e, &me, Some(&other), None, no_fight()), CombatAction::Ignore));
    let offcycle = Event { is_offcycle: 1, ..e };
    assert!(matches!(b.combat_event(&offcycle, &me, Some(&other), None, in_fight(false, false, true)), CombatAction::Ignore));
    let e = event(StateChange::BuffRemoveAll, CombatResult::Other, 0);
    assert!(matches!(
        b.combat_event(&e, &me, Some(&me), None, in_fight(false, false, true)),
        CombatAction::RemoveCondition { time: 300, value: 250, .. }
    ));
    assert!(matches!(b.combat_event(&e, &me, Some(&me), None, in_fight(false, true, false)), CombatAction::Ignore));
    assert!(matches!(b.combat_event(&e, &me, Some(&other), None, in_fight(false, false, true)), CombatAction::Ignore));
}

#[test]
fn minion_boon_counts() {
    let mut b = Buddy::new();
    b.add_player(Player::new(1, 9, 1, 0, Some("me")), true);
    let minion = agent(None, 50, 1, 0xffff_ffff, 0);
    let other = agent(None, 2, 1, 0, 0);
    let e = event(StateChange::BuffApply, CombatResult::Other, 9);
    assert!(matches!(b.combat_event(&e, &minion, Some(&other), None, in_fight(false, true, false)), CombatAction::ApplyBuff { .. }));
    let e = event(StateChange::BuffApply, CombatResult::Other, 8);
    assert!(matches!(b.combat_event(&e, &minion, Some(&other), None, in_fight(false, true, false)), CombatAction::Ignore));
}

#[test]
fn strike_routes() {
    let mut b = Buddy::new();
    let me = agent(None, 1, 1, 0, 1);
    let other = agent(None, 2, 1, 0, 0);
    let target = agent(None, 3, 0, 0xffff_ffff, 0);
    let e = event(StateChange::Combat, CombatResult::StrikeDamageCrit, 0);
    match b.combat_event(&e, &me, Some(&target), None, in_fight(false, false, false)) {
        CombatAction::Strike { time, strike: StrikeAction::Damage { is_minion, skill, target }, .. } => {
            assert_eq!(time, 300);
            assert!(!is_minion);
            assert_eq!(skill, 5491);
            assert_eq!(target.id, 3);
        }
        _ => panic!("expected a damage hit"),
    }
    assert!(matches!(b.combat_event(&e, &me, Some(&target), None, no_fight()), CombatAction::Ignore));
    assert!(matches!(b.combat_event(&e, &me, None, None, in_fight(false, false, false)), CombatAction::Ignore));
    assert!(matches!(b.strike(&e, &other, &target), StrikeAction::Ignore));
    let e = event(StateChange::Combat, CombatResult::BreakbarDamage, 9);
    match b.strike(&e, &other, &target) {
        StrikeAction::Breakbar { attacker: Attacker::Agent(a), is_own, damage, .. } => {
            assert_eq!(a.id, 2);
            assert!(!is_own);
            assert_eq!(damage, 250);
        }
        _ => panic!("expected a breakbar hit"),
    }
    b.add_player(Player::new(2, 9, 1, 0, Some("p")), true);
    match b.strike(&e, &other, &target) {
        StrikeAction::Breakbar { attacker: Attacker::Player(p), is_own, .. } => {
            assert_eq!(p.id, 2);
            assert!(is_own);
        }
        _ => panic!("expected a breakbar hit by a player"),
    }
    let e = event(StateChange::Combat, CombatResult::StrikeDamage, 9);
    assert!(matches!(b.strike(&e, &other, &target), StrikeAction::Damage { is_minion: true, .. }));
    let e = event(StateChange::Combat, CombatResult::Other, 9);
    assert!(matches!(b.strike(&e, &other, &target), StrikeAction::Ignore));
}

#[test]
fn event_routes_combat_events() {
    let mut b = Buddy::new();
    let me = agent(None, 1, 1, 0, 1);
    let e = event(StateChange::SquadCombatEnd, CombatResult::Other, 0);
    assert!(matches!(b.event(Some(&e), Some(&me), None, None, no_fight()), CombatAction::EndFight { .. }));
    assert!(matches!(b.event(Some(&e), None, None, None, no_fight()), CombatAction::Ignore));
}

#[test]
fn render_visibility() {
    assert!(should_render(false, true, false));
    assert!(should_render(false, false, true));
    assert!(!should_render(false, false, false));
    assert!(!should_render(true, true, true));
}

#[test]
fn new_buddy_state() {
    let b = Buddy::new();
    assert_eq!(b.data_state, Err(LoadError::NotFound));
    assert_eq!(b.self_instance_id, None);
    assert!(b.players.is_empty());
    assert_eq!(
        b.history.settings,
        HistorySettings { max_fights: 10, min_duration: 5000, discard_at_end: true }
    );
    assert!(b.history.fights.is_empty());
}

#[test]
fn reset_data_forgets_custom_data() {
    let mut b = Buddy::new();
    b.data_state = Ok(12);
    b.add_player(Player::new(1, 11, 1, 0, Some("a")), true);
    b.reset_data();
    assert_eq!(b.data_state, Err(LoadError::NotFound));
    assert_eq!(b.players.len(), 1);
    assert_eq!(b.self_instance_id, Some(11));
}

#[test]
fn hotkeys_only_on_fresh_press() {
    assert!(is_fresh_press(true, false));
    assert!(!is_fresh_press(true, true));
    assert!(!is_fresh_press(false, false));
    assert!(!is_fresh_press(false, true));
}
