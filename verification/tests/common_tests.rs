use mcsc::common::{letter_for, ran_letters, LETTER_DRAWS};

#[test]
fn letters_for_drawn_indices() {
    assert_eq!(letter_for(0), 'A');
    assert_eq!(letter_for(25), 'Z');
    assert_eq!(letter_for(26), 'b');
    assert_eq!(letter_for(31), 'g');
    assert_eq!(letter_for(32), 'a');
    assert_eq!(letter_for(57), 'z');
}

#[test]
fn every_drawn_index_gives_a_letter() {
    assert_eq!(LETTER_DRAWS, 58);
    for index in 0..LETTER_DRAWS {
        assert!(letter_for(index).is_ascii_alphabetic());
    }
}

#[test]
fn random_names_are_letters_of_the_length_asked() {
    for len in [0usize, 1, 32, 500] {
        let name = ran_letters(len);
        assert_eq!(name.chars().count(), len);
        assert!(name.chars().all(|c| c.is_ascii_alphabetic()));
    }
}

#[test]
fn random_names_differ() {
    assert_ne!(ran_letters(32), ran_letters(32));
}
