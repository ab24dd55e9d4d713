use sonar_game::stats::record_death;

#[test]
fn enemy_death_is_counted() {
    assert_eq!(record_death(true, 0, true), Some((1, "1".to_string())));
    assert_eq!(record_death(true, 9, true), Some((10, "10".to_string())));
    assert_eq!(record_death(true, 41, true), Some((42, "42".to_string())));
}

#[test]
fn other_deaths_are_not_counted() {
    assert_eq!(record_death(true, 5, false), None);
    assert_eq!(record_death(true, 0, false), None);
}

#[test]
fn nothing_counted_while_tracking_is_off() {
    assert_eq!(record_death(false, 5, true), None);
    assert_eq!(record_death(false, 5, false), None);
    assert_eq!(record_death(false, u32::MAX, true), None);
}

#[test]
fn last_countable_kill() {
    assert_eq!(
        record_death(true, u32::MAX - 1, true),
        Some((u32::MAX, "4294967295".to_string()))
    );
}

#[test]
fn a_run_of_deaths() {
    let deaths = [true, false, true, true, false, true];
    let mut count = 0u32;
    let mut label = "0".to_string();
    for died_was_enemy in deaths {
        if let Some((c, l)) = record_death(true, count, died_was_enemy) {
            count = c;
            label = l;
        }
    }
    assert_eq!(count, 4);
    assert_eq!(label, "4");
}
