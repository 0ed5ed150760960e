use picture_quiz::error::GameError;
use picture_quiz::question::{generate_question, is_offered, pose_question, position, Draws};

fn catalog(length: usize) -> Vec<String> {
    (0..length).map(|i| format!("/pic/{}.jpg", (b'A' + i as u8) as char)).collect()
}

fn texts(items: &[&str]) -> Vec<String> {
    items.iter().map(|item| item.to_string()).collect()
}

#[test]
fn small_catalog_gives_no_question() {
    for length in 0..5 {
        let images = catalog(length);
        assert!(matches!(generate_question(&images, None), Err(GameError::NotEnoughImages)));
    }
}

#[test]
fn five_images_are_enough() {
    let images = catalog(5);
    for _ in 0..100 {
        assert!(generate_question(&images, None).is_ok());
        assert!(generate_question(&images, Some(&images[2])).is_ok());
    }
}

#[test]
fn generated_question_offers_four_images_of_the_catalog() {
    let images = catalog(6);
    for _ in 0..200 {
        let question = generate_question(&images, None).unwrap();
        assert_eq!(question.id, 1);
        assert!(images.contains(&question.question_image_url));
        assert_eq!(question.options.len(), 4);
        for (i, option) in question.options.iter().enumerate() {
            assert!(images.contains(option));
            for other in question.options.iter().skip(i + 1) {
                assert_ne!(option, other);
            }
        }
    }
}

#[test]
fn generated_question_offers_the_previous_image() {
    let images = catalog(7);
    for round in 0..300 {
        let previous = &images[round % images.len()];
        let question = generate_question(&images, Some(previous)).unwrap();
        assert_eq!(question.options.len(), 4);
        assert!(question.options.contains(previous));
        for option in &question.options {
            assert!(images.contains(option));
        }
    }
}

#[test]
fn first_question_offers_the_decoys_as_drawn() {
    let images = catalog(6);
    let draws = Draws { question_index: 4, decoys: vec![5, 0, 3, 1], first_slot: 2, second_slot: 0 };
    let question = pose_question(&images, None, draws);
    assert_eq!(question.id, 1);
    assert_eq!(question.question_image_url, "/pic/E.jpg");
    assert_eq!(
        question.options,
        texts(&["/pic/F.jpg", "/pic/A.jpg", "/pic/D.jpg", "/pic/B.jpg"])
    );
}

#[test]
fn later_question_places_both_images() {
    let images = catalog(6);
    let draws = Draws { question_index: 4, decoys: vec![5, 0, 3, 1], first_slot: 2, second_slot: 0 };
    let question = pose_question(&images, Some(2), draws);
    assert_eq!(question.question_image_url, "/pic/E.jpg");
    assert_eq!(
        question.options,
        texts(&["/pic/C.jpg", "/pic/A.jpg", "/pic/E.jpg", "/pic/B.jpg"])
    );
}

#[test]
fn previous_image_may_overwrite_the_image_shown() {
    let images = catalog(6);
    let draws = Draws { question_index: 4, decoys: vec![5, 0, 3, 1], first_slot: 2, second_slot: 2 };
    let question = pose_question(&images, Some(2), draws);
    assert_eq!(question.question_image_url, "/pic/E.jpg");
    assert_eq!(
        question.options,
        texts(&["/pic/F.jpg", "/pic/A.jpg", "/pic/C.jpg", "/pic/B.jpg"])
    );
    assert!(!question.options.contains(&question.question_image_url));
}

#[test]
fn previous_image_among_the_decoys_stays_where_it_is() {
    let images = catalog(6);
    let draws = Draws { question_index: 4, decoys: vec![5, 0, 3, 1], first_slot: 2, second_slot: 3 };
    let question = pose_question(&images, Some(0), draws);
    assert_eq!(
        question.options,
        texts(&["/pic/F.jpg", "/pic/A.jpg", "/pic/E.jpg", "/pic/B.jpg"])
    );
}

#[test]
fn previous_image_is_placed_again_where_the_image_shown_covered_it() {
    let images = catalog(6);
    let draws = Draws { question_index: 4, decoys: vec![5, 0, 3, 1], first_slot: 1, second_slot: 3 };
    let question = pose_question(&images, Some(0), draws);
    assert_eq!(
        question.options,
        texts(&["/pic/F.jpg", "/pic/E.jpg", "/pic/D.jpg", "/pic/A.jpg"])
    );
}

#[test]
fn image_shown_again_is_placed_once() {
    let images = catalog(6);
    let draws = Draws { question_index: 2, decoys: vec![5, 0, 3, 1], first_slot: 1, second_slot: 3 };
    let question = pose_question(&images, Some(2), draws);
    assert_eq!(question.question_image_url, "/pic/C.jpg");
    assert_eq!(
        question.options,
        texts(&["/pic/F.jpg", "/pic/C.jpg", "/pic/D.jpg", "/pic/B.jpg"])
    );
}

#[test]
fn position_is_the_first_place_of_an_image() {
    let images = texts(&["a", "b", "c", "b", "a"]);
    assert_eq!(position(&images, &"a".to_string()), Some(0));
    assert_eq!(position(&images, &"b".to_string()), Some(1));
    assert_eq!(position(&images, &"c".to_string()), Some(2));
    assert_eq!(position(&images, &"d".to_string()), None);
    assert_eq!(position(&Vec::new(), &"a".to_string()), None);
}

#[test]
fn draws_fit_the_catalog() {
    for _ in 0..200 {
        let draws = Draws::draw(5, Some(3));
        assert!(draws.question_index < 5);
        assert_eq!(draws.decoys.len(), 4);
        assert!(draws.decoys.iter().all(|decoy| *decoy < 5));
        assert!(draws.first_slot < 4);
        assert!(draws.second_slot < 4);
    }
}

#[test]
fn first_question_draws_no_slots() {
    for _ in 0..50 {
        let draws = Draws::draw(6, None);
        assert!(draws.question_index < 6);
        assert_eq!(draws.decoys.len(), 4);
        assert_eq!(draws.first_slot, 0);
        assert_eq!(draws.second_slot, 0);
    }
}

#[test]
fn second_slot_is_drawn_only_for_an_image_not_offered() {
    for _ in 0..200 {
        let draws = Draws::draw(9, Some(7));
        if is_offered(&draws.decoys, draws.first_slot, draws.question_index, 7) {
            assert_eq!(draws.second_slot, draws.first_slot);
        }
    }
}

#[test]
fn is_offered_looks_at_the_options_after_the_image_shown_is_placed() {
    let decoys = vec![5, 0, 3, 1];
    assert!(is_offered(&decoys, 2, 4, 4));
    assert!(is_offered(&decoys, 2, 4, 5));
    assert!(is_offered(&decoys, 2, 4, 1));
    assert!(!is_offered(&decoys, 2, 4, 3));
    assert!(!is_offered(&decoys, 2, 4, 2));
    assert!(is_offered(&decoys, 2, 3, 3));
}
