use keeprust::utils::password_generator::{PasswordGenError, PasswordGenerator};

#[test]
fn test_default_generator() {
    let generator = PasswordGenerator::default();
    let password = generator.generate().unwrap();

    assert_eq!(password.len(), 16);
}

#[test]
fn test_custom_length() {
    let generator = PasswordGenerator::new().length(20);
    let password = generator.generate().unwrap();

    assert_eq!(password.len(), 20);
}

#[test]
fn test_only_lowercase() {
    let generator = PasswordGenerator::new()
        .uppercase(false)
        .digits(false)
        .symbols(false);

    let password = generator.generate().unwrap();

    assert!(password.chars().all(|c| c.is_ascii_lowercase()));
}

#[test]
fn test_complex_password() {
    let generator = PasswordGenerator::new().length(12);
    let password = generator.generate_complex().unwrap();

    assert_eq!(password.len(), 12);
    assert!(password.chars().any(|c| c.is_ascii_uppercase()));
    assert!(password.chars().any(|c| c.is_ascii_lowercase()));
    assert!(password.chars().any(|c| c.is_ascii_digit()));
    assert!(password.chars().any(|c| !c.is_alphanumeric()));
}

#[test]
fn test_exclude_similar() {
    let generator = PasswordGenerator::new().exclude_similar(true);
    let password = generator.generate().unwrap();

    assert!(!password.contains(|c| "IlO01".contains(c)));
}

#[test]
fn zero_length_is_refused() {
    let r = PasswordGenerator::new().length(0).generate();
    match r {
        Err(PasswordGenError::InvalidLength(detail)) => {
            assert_eq!(detail, "La longueur doit être supérieure à 0");
        }
        _ => panic!("a password of no length was generated"),
    }
}

#[test]
fn zero_length_comes_before_the_empty_set() {
    let r = PasswordGenerator::new()
        .length(0)
        .uppercase(false)
        .lowercase(false)
        .digits(false)
        .symbols(false)
        .generate();
    assert!(matches!(r, Err(PasswordGenError::InvalidLength(_))));
}

#[test]
fn no_class_is_refused() {
    let generator = PasswordGenerator::new()
        .uppercase(false)
        .lowercase(false)
        .digits(false)
        .symbols(false);
    assert!(matches!(generator.generate(), Err(PasswordGenError::NoCharsetEnabled)));
    assert!(matches!(generator.generate_complex(), Err(PasswordGenError::NoCharsetEnabled)));
}

#[test]
fn complex_needs_eight_characters() {
    let r = PasswordGenerator::new().length(7).generate_complex();
    match r {
        Err(PasswordGenError::InvalidLength(detail)) => {
            assert_eq!(
                detail,
                "La longueur doit être d'au moins 8 caractères pour un mot de passe complexe"
            );
        }
        _ => panic!("a complex password of seven characters was generated"),
    }
    assert!(PasswordGenerator::new().length(8).generate_complex().is_ok());
}

#[test]
fn no_class_comes_before_the_length_for_complex() {
    let r = PasswordGenerator::new()
        .length(3)
        .uppercase(false)
        .lowercase(false)
        .digits(false)
        .symbols(false)
        .generate_complex();
    assert!(matches!(r, Err(PasswordGenError::NoCharsetEnabled)));
}

#[test]
fn only_digits_without_similar_ones() {
    let generator = PasswordGenerator::new()
        .length(64)
        .uppercase(false)
        .lowercase(false)
        .symbols(false)
        .exclude_similar(true);
    let password = generator.generate().unwrap();
    assert_eq!(password.chars().count(), 64);
    assert!(password.chars().all(|c| "23456789".contains(c)));
}

#[test]
fn only_unambiguous_symbols() {
    let generator = PasswordGenerator::new()
        .length(64)
        .uppercase(false)
        .lowercase(false)
        .digits(false)
        .exclude_ambiguous(true);
    let password = generator.generate().unwrap();
    assert_eq!(password.chars().count(), 64);
    assert!(password.chars().all(|c| "!@#$%^&*-_=+".contains(c)));
}

#[test]
fn generated_characters_come_from_the_set() {
    let set = "ABCDEFGHIJKLMNOPQRSTUVWXYZabcdefghijklmnopqrstuvwxyz0123456789!@#$%^&*()-_=+[]{};:'\",.<>/?\\|`~";
    let password = PasswordGenerator::new().length(200).generate().unwrap();
    assert_eq!(password.chars().count(), 200);
    assert!(password.chars().all(|c| set.contains(c)));
}

#[test]
fn two_passwords_differ() {
    let generator = PasswordGenerator::new().length(32);
    assert_ne!(generator.generate().unwrap(), generator.generate().unwrap());
}

#[test]
fn complexity_asks_for_each_class_that_is_on() {
    let all = PasswordGenerator::new();
    assert!(all.meets_complexity("aA1!"));
    assert!(!all.meets_complexity("aA1b"));
    assert!(!all.meets_complexity("aA!b"));
    assert!(!all.meets_complexity("a1!b"));
    assert!(!all.meets_complexity("A1!B"));
    assert!(!all.meets_complexity(""));
    let letters = PasswordGenerator::new().digits(false).symbols(false);
    assert!(letters.meets_complexity("aA"));
    assert!(letters.meets_complexity("aA1!"));
    assert!(!letters.meets_complexity("aa"));
    let none = PasswordGenerator::new()
        .uppercase(false)
        .lowercase(false)
        .digits(false)
        .symbols(false);
    assert!(none.meets_complexity(""));
}

#[test]
fn a_letter_of_another_script_is_no_symbol() {
    let symbols = PasswordGenerator::new()
        .uppercase(false)
        .lowercase(false)
        .digits(false);
    assert!(!symbols.meets_complexity("é"));
    assert!(symbols.meets_complexity("é-"));
}

#[test]
fn generation_errors_in_words() {
    assert_eq!(
        PasswordGenError::InvalidLength("trop court".to_string()).message(),
        "Longueur de mot de passe invalide: trop court"
    );
    assert_eq!(
        PasswordGenError::NoCharsetEnabled.message(),
        "Aucun jeu de caractères n'est activé"
    );
}

fn candidates(texts: &[&str]) -> Vec<String> {
    texts.iter().map(|t| t.to_string()).collect()
}

#[test]
fn the_first_complex_candidate_is_chosen() {
    let all = PasswordGenerator::new();
    assert_eq!(all.choose_complex(&candidates(&["aaaa", "aA1!", "bB2?", "cccc"])), Some(1));
    assert_eq!(all.choose_complex(&candidates(&["aA1!", "bB2?"])), Some(0));
    assert_eq!(all.choose_complex(&candidates(&["aaaa", "bbbb", "cC3#"])), Some(2));
}

#[test]
fn the_last_candidate_is_chosen_where_none_before_it_is_complex() {
    let all = PasswordGenerator::new();
    assert_eq!(all.choose_complex(&candidates(&["aaaa", "bbbb", "cccc"])), Some(2));
    assert_eq!(all.choose_complex(&candidates(&["aaaa"])), Some(0));
    assert_eq!(all.choose_complex(&candidates(&["aA1!"])), Some(0));
    let eleven = candidates(&["a", "b", "c", "d", "e", "f", "g", "h", "i", "j", "k"]);
    assert_eq!(all.choose_complex(&eleven), Some(10));
    let mut tenth = eleven.clone();
    tenth[9] = "jJ0!".to_string();
    assert_eq!(all.choose_complex(&tenth), Some(9));
}

#[test]
fn nothing_is_chosen_of_no_candidates() {
    assert_eq!(PasswordGenerator::new().choose_complex(&Vec::new()), None);
}

#[test]
fn the_choice_asks_only_for_the_classes_that_are_on() {
    let letters = PasswordGenerator::new().digits(false).symbols(false);
    assert_eq!(letters.choose_complex(&candidates(&["aaaa", "aAaa", "aA1!"])), Some(1));
}
