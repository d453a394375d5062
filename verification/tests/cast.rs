use buddy::cast::{add_cast, latest_cast_mut, Cast, CastState};

fn c(time: i32, skill: u32) -> Cast {
    Cast::from_start(time, skill, CastState::Casting)
}

#[test]
fn cast_constructors_and_updates() {
    let mut cast = Cast::from_start(10, 3, CastState::Casting);
    assert_eq!(cast, Cast { time: 10, skill: 3, state: CastState::Casting, duration: 0, hits: vec![] });
    cast.hit(7);
    cast.complete(CastState::Fire, 900);
    assert_eq!(cast, Cast { time: 10, skill: 3, state: CastState::Fire, duration: 900, hits: vec![7] });
    assert_eq!(
        Cast::from_end(5, 4, CastState::Cancel, 100),
        Cast { time: 5, skill: 4, state: CastState::Cancel, duration: 100, hits: vec![] }
    );
    assert_eq!(
        Cast::from_hit(5, 4, 9),
        Cast { time: 5, skill: 4, state: CastState::Unknown, duration: 0, hits: vec![9] }
    );
}

#[test]
fn add_cast_to_empty() {
    let mut casts = Vec::new();
    add_cast(&mut casts, c(10, 1));
    assert_eq!(casts, vec![c(10, 1)]);
}

#[test]
fn add_cast_after_last_earlier_cast() {
    let mut casts = vec![c(10, 1), c(20, 2), c(30, 3)];
    add_cast(&mut casts, c(25, 4));
    assert_eq!(casts, vec![c(10, 1), c(20, 2), c(25, 4), c(30, 3)]);
    add_cast(&mut casts, c(40, 5));
    assert_eq!(casts, vec![c(10, 1), c(20, 2), c(25, 4), c(30, 3), c(40, 5)]);
}

#[test]
fn add_cast_after_equal_times() {
    let mut casts = vec![c(10, 1), c(20, 2), c(20, 3), c(30, 4)];
    add_cast(&mut casts, c(20, 5));
    assert_eq!(casts, vec![c(10, 1), c(20, 2), c(20, 3), c(20, 5), c(30, 4)]);
}

#[test]
fn add_cast_earlier_than_all_goes_last() {
    let mut casts = vec![c(10, 1), c(20, 2)];
    add_cast(&mut casts, c(5, 3));
    assert_eq!(casts, vec![c(10, 1), c(20, 2), c(5, 3)]);
}

#[test]
fn latest_cast_of_skill() {
    let mut casts = vec![c(10, 1), c(20, 2), c(30, 1), c(40, 3)];
    {
        let cast = latest_cast_mut(&mut casts, 1).unwrap();
        assert_eq!(*cast, c(30, 1));
        cast.time = 31;
    }
    assert_eq!(casts, vec![c(10, 1), c(20, 2), c(31, 1), c(40, 3)]);
    assert!(latest_cast_mut(&mut casts, 9).is_none());
    assert_eq!(casts.len(), 4);
}
