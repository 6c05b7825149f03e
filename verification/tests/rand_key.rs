use gpt_reg::rand_key::{generate_random_lower_id, generate_strong_password};

const SYMBOLS: &str = "!@#$%^&*()-_=+[]{};:,.?/";

#[test]
fn short_passwords_are_refused() {
    assert_eq!(generate_strong_password(0), Err("length must be at least 12"));
    assert_eq!(generate_strong_password(11), Err("length must be at least 12"));
}

#[test]
fn strong_passwords_hold_every_class() {
    for length in [12usize, 13, 16, 40, 200] {
        for _ in 0..50 {
            let p = generate_strong_password(length).unwrap();
            assert_eq!(p.chars().count(), length);
            assert!(p.chars().any(|c| c.is_ascii_lowercase()));
            assert!(p.chars().any(|c| c.is_ascii_uppercase()));
            assert!(p.chars().any(|c| c.is_ascii_digit()));
            assert!(p.chars().any(|c| SYMBOLS.contains(c)));
            assert!(p.chars().all(|c| c.is_ascii_alphanumeric() || SYMBOLS.contains(c)));
        }
    }
}

#[test]
fn lower_ids() {
    assert_eq!(generate_random_lower_id(0), "");
    for length in [1usize, 8, 64] {
        let id = generate_random_lower_id(length);
        assert_eq!(id.len(), length);
        assert!(id.chars().all(|c| c.is_ascii_lowercase()));
    }
}

#[test]
fn password_classes_are_shuffled() {
    let mut first_not_lower = false;
    for _ in 0..200 {
        let p = generate_strong_password(12).unwrap();
        if !p.chars().next().unwrap().is_ascii_lowercase() {
            first_not_lower = true;
        }
    }
    assert!(first_not_lower);
}
