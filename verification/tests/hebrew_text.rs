use trango::hebrew::{contains_hebrew, niqud_to_pronunciation, strip_niqud};

#[test]
fn test_shakhav_lay_down() {
    assert_eq!(niqud_to_pronunciation("שָׁכַב"), "sha-khav");
}

#[test]
fn test_leatzmo_to_himself() {
    assert_eq!(niqud_to_pronunciation("לְֽ|עַצְמוֹ"), "le-atz-mo");
}

#[test]
fn test_hu_he_pronoun() {
    assert_eq!(niqud_to_pronunciation("הוּא"), "hu");
}

#[test]
fn test_bamita_in_the_bed() {
    assert_eq!(niqud_to_pronunciation("בַּ|מִּיטָּה"), "ba-mi-ta");
}

#[test]
fn test_veamar_and_said() {
    assert_eq!(niqud_to_pronunciation("וְֽ|אָמַר"), "ve-a-mar");
}

#[test]
fn test_shalom_greeting() {
    assert_eq!(niqud_to_pronunciation("שָׁלוֹם"), "sha-lom");
}

#[test]
fn test_shlomkha_how_are_you() {
    assert_eq!(niqud_to_pronunciation("שְׁלוֹמְךָ"), "shlom-kha");
}

#[test]
fn test_empty_string_produces_empty_pronunciation() {
    assert_eq!(niqud_to_pronunciation(""), "");
}

#[test]
fn test_pronunciation_ignores_stress_marks_and_non_hebrew_characters() {
    // The stress mark (ole) is dropped before splitting, and Latin letters
    // and punctuation contribute nothing.
    assert_eq!(niqud_to_pronunciation("שָׁ\u{05AB}כַב"), "sha-khav");
    assert_eq!(niqud_to_pronunciation("x. שָׁכַב!"), "sha-khav");
}

#[test]
fn test_pronunciation_of_consonants_without_any_vowel_forms_one_syllable() {
    // No vowel at all: every consonant ends up in one leftover syllable.
    assert_eq!(niqud_to_pronunciation("שׁלם"), "shlm");
}

#[test]
fn test_sin_dot_and_begadkefat_dagesh() {
    assert_eq!(niqud_to_pronunciation("שׂ"), "s");
    assert_eq!(niqud_to_pronunciation("פִּי"), "pi");
    assert_eq!(niqud_to_pronunciation("פִי"), "fi");
}

#[test]
fn test_hebrew_sentence_is_detected() {
    assert!(contains_hebrew("הוא שכב במיטה ואמר לעצמו"));
}

#[test]
fn test_latin_sentence_is_not_detected() {
    assert!(!contains_hebrew("hola mundo"));
}

#[test]
fn test_mixed_script_sentence_is_detected() {
    assert!(contains_hebrew("הוא אמר \"hello\" לי"));
}

#[test]
fn test_empty_string_is_not_detected() {
    assert!(!contains_hebrew(""));
}

#[test]
fn test_niqud_only_text_is_detected() {
    assert!(contains_hebrew("\u{05B7}"));
}

#[test]
fn test_strip_niqud_removes_diacritics_but_keeps_letters() {
    assert_eq!(strip_niqud("בַּ|מִּיטָּה"), "במיטה");
}

#[test]
fn test_strip_niqud_is_a_no_op_on_plain_text() {
    assert_eq!(strip_niqud("שכב"), "שכב");
}

#[test]
fn pronunciation_ignores_prefix_boundaries_and_stress_marks() {
    let marked = "בַּ|מִּי\u{05AB}טָּה";
    let plain = "בַּמִּיטָּה";
    assert_eq!(niqud_to_pronunciation(marked), niqud_to_pronunciation(plain));
    assert_eq!(
        niqud_to_pronunciation("שָׁ\u{05AB}|כַב"),
        niqud_to_pronunciation("שָׁכַב")
    );
}
