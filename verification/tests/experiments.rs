use checkers::data_mapping::{CommonSystem, LegacySystem, ModernSystem};
use checkers::string_sorting::{sort, sort_alpha_sentence, sort_alpha_word};

#[test]
fn test_them_all() {
    // Repeat for CommonSystem
    for modern in ModernSystem::variants() {
        let (expected_display, expected_common) = match modern {
            ModernSystem::ModernFirst => ("modernFirst", CommonSystem::First),
            ModernSystem::ModernSecond => ("modernSecond", CommonSystem::Second),
            ModernSystem::ModernThird => ("modernThird", CommonSystem::Third),
        };

        let display_value = String::from(expected_display);

        assert_eq!(
            display_value,
            modern.translate_to_display(),
            "{} did not translate into {}",
            modern.name(),
            display_value
        );
        assert_eq!(
            expected_common,
            modern.translate_to_common_enum(),
            "{} did not translate to {}",
            modern.name(),
            expected_common.name()
        );
        assert_eq!(
            expected_common.translate_to_display(),
            modern.translate_to_common_display(),
            "{} did not translate into {}",
            modern.name(),
            expected_common.name()
        );

        let modern = Some(modern);
        assert_eq!(
            modern,
            ModernSystem::translate_from_common_enum(&expected_common)
        );

        assert_eq!(modern, ModernSystem::translate_from_display(&display_value));

        assert_eq!(
            Some(display_value),
            ModernSystem::translate_from_common_enum_to_display(&expected_common)
        );
    }
}

#[test]
fn translate_e2e() {
    assert_eq!(
        Some(ModernSystem::ModernThird),
        ModernSystem::translate_from_common_enum(
            &LegacySystem::LegacyThird.translate_to_common_enum()
        )
    )
}

#[test]
fn sort_works() {
    let (alpha_words, alpha_sentence) =
        sort(&String::from("The Quick Brown Fox jumped over the laZy Dog"));

    assert_eq!(
        alpha_words,
        String::from("ehT cikQu Bnorw Fox dejmpu eorv eht alyZ Dgo")
    );
    assert_eq!(alpha_sentence, String::from("aBcdDeeeeFghhijklmnoooopQrrTtuuvwxyZ"));
}

#[test]
fn sort_empty_input() {
    let (words, sentence) = sort(&String::from(""));
    assert_eq!(words, String::from(""));
    assert_eq!(sentence, String::from(""));
}

#[test]
fn sort_keeps_words_apart() {
    let (words, sentence) = sort(&String::from("b a"));
    assert_eq!(words, String::from("b a"));
    assert_eq!(sentence, String::from("ab"));
}

#[test]
fn sort_is_case_insensitive() {
    let (words, sentence) = sort(&String::from("Ba"));
    assert_eq!(words, String::from("aB"));
    assert_eq!(sentence, String::from("aB"));
}

#[test]
fn sort_keeps_equal_keys_in_arrival_order() {
    let (words, sentence) = sort(&String::from("aA"));
    assert_eq!(words, String::from("aA"));
    assert_eq!(sentence, String::from("aA"));
}

#[test]
fn sort_alpha_sentence_inserts_at_key_position() {
    let mut sentence: Vec<char> = vec!['a', 'c'];
    sort_alpha_sentence(&mut sentence, 'b');
    assert_eq!(sentence, vec!['a', 'b', 'c']);
}

#[test]
fn sort_alpha_word_only_touches_last_word() {
    let mut words: Vec<char> = vec!['b', ' ', 'd'];
    sort_alpha_word(&mut words, 'c', 2);
    assert_eq!(words, vec!['b', ' ', 'c', 'd']);
}

#[test]
fn sort_alpha_word_appends_past_greater_characters() {
    let mut words: Vec<char> = vec!['a', 'b'];
    sort_alpha_word(&mut words, 'z', 0);
    assert_eq!(words, vec!['a', 'b', 'z']);
}

#[test]
fn translate_from_display_rejects_unknown_strings() {
    assert_eq!(None, ModernSystem::translate_from_display(&String::from("modernFourth")));
    assert_eq!(None, LegacySystem::translate_from_display(&String::from("")));
    assert_eq!(None, CommonSystem::translate_from_display(&String::from("legacyFirst")));
}

#[test]
fn translate_display_round_trips() {
    for legacy in LegacySystem::variants() {
        assert_eq!(
            Some(legacy),
            LegacySystem::translate_from_display(&legacy.translate_to_display())
        );
    }
    for common in CommonSystem::variants() {
        assert_eq!(
            Some(common),
            CommonSystem::translate_from_display(&common.translate_to_display())
        );
    }
}

#[test]
fn legacy_translations_match_table() {
    assert_eq!(String::from("legacySecond"), LegacySystem::LegacySecond.translate_to_display());
    assert_eq!(CommonSystem::Second, LegacySystem::LegacySecond.translate_to_common_enum());
    assert_eq!(
        String::from("commonSecond"),
        LegacySystem::LegacySecond.translate_to_common_display()
    );
    assert_eq!(
        Some(String::from("legacyThird")),
        LegacySystem::translate_from_common_enum_to_display(&CommonSystem::Third)
    );
    assert_eq!(String::from("LegacySystem:LegacyFirst"), LegacySystem::LegacyFirst.name());
    assert_eq!(String::from("CommonSystem:First"), CommonSystem::First.name());
    assert_eq!(String::from("ModernSystem:ModernFirst"), ModernSystem::ModernFirst.name());
}
