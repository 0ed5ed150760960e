use picture_quiz::draw::{draw_four, get_four_random_choice, holds, nth_unused, take_if_new};

#[test]
fn four_choices_are_distinct_and_in_range() {
    for _ in 0..200 {
        let choices = get_four_random_choice(5);
        assert_eq!(choices.len(), 4);
        for (i, a) in choices.iter().enumerate() {
            assert!(*a < 5);
            for b in choices.iter().skip(i + 1) {
                assert_ne!(a, b);
            }
        }
    }
}

#[test]
fn four_choices_from_exactly_four() {
    let mut choices = get_four_random_choice(4);
    choices.sort();
    assert_eq!(choices, vec![0, 1, 2, 3]);
}

#[test]
fn take_if_new_rejects_a_repeat() {
    let mut choices = vec![3, 1];
    assert!(!take_if_new(&mut choices, 1));
    assert_eq!(choices, vec![3, 1]);
    assert!(take_if_new(&mut choices, 2));
    assert_eq!(choices, vec![3, 1, 2]);
}

#[test]
fn nth_unused_skips_taken_positions() {
    let choices = vec![0, 2, 3];
    assert_eq!(nth_unused(&choices, 6, 0), 1);
    assert_eq!(nth_unused(&choices, 6, 1), 4);
    assert_eq!(nth_unused(&choices, 6, 2), 5);
    assert!(holds(&choices, 2));
    assert!(!holds(&choices, 4));
}

#[test]
fn four_choices_without_redraws_are_distinct_and_in_range() {
    for limit in [0usize, 1, 2] {
        for length in [4usize, 5, 9] {
            for _ in 0..100 {
                let mut choices = draw_four(length, limit);
                assert_eq!(choices.len(), 4);
                assert!(choices.iter().all(|choice| *choice < length));
                choices.sort();
                choices.dedup();
                assert_eq!(choices.len(), 4);
            }
        }
    }
}

#[test]
fn every_position_can_be_drawn() {
    for limit in [0usize, 64] {
        let mut seen = [[false; 5]; 4];
        for _ in 0..2000 {
            let choices = draw_four(5, limit);
            for (slot, choice) in choices.iter().enumerate() {
                seen[slot][*choice] = true;
            }
        }
        assert!(seen.iter().all(|slot| slot.iter().all(|position| *position)));
    }
}
