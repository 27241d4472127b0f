use n_player::fonts::font_name_of_path;
use n_player::fonts::pick_cjk_font;
use n_player::localization::denominator_from;
use n_player::localization::effective_locale;
use n_player::localization::get_locale_denominator;
use n_player::localization::get_locale_name;
use n_player::localization::Locale;
use n_player::strutil::from_path_to_name_without_ext;
use n_player::strutil::remove_ext;
use n_player::strutil::trim_spaces;

#[test]
fn locale_names_and_denominators_are_inverse_on_the_table() {
    assert_eq!(get_locale_name(Some("it")), "Italiano");
    assert_eq!(get_locale_name(Some("en")), "English");
    assert_eq!(get_locale_name(Some("zz")), "English");
    assert_eq!(get_locale_name(None), "English");
    assert_eq!(get_locale_denominator(Some("Italiano")), "it");
    assert_eq!(get_locale_denominator(Some("Deutsch")), "de");
    assert_eq!(get_locale_denominator(Some("???")), "en");
    assert_eq!(get_locale_denominator(None), "en");
}

#[test]
fn denominator_prefers_the_explicit_choice() {
    let r = denominator_from(Some(String::from("fr")), Some(String::from("it-IT")));
    assert_eq!(r, String::from("fr"));
}

#[test]
fn denominator_takes_the_language_part_of_the_system_tag() {
    let r = denominator_from(None, Some(String::from("it-IT")));
    assert_eq!(r, String::from("it"));
    let r = denominator_from(None, Some(String::from("de")));
    assert_eq!(r, String::from("de"));
    let r = denominator_from(None, None);
    assert_eq!(r, String::from("en"));
}

#[test]
fn missing_locale_fields_fall_back_to_english() {
    let partial = Locale {
        settings: Some(String::from("Impostazioni")),
        search: None,
        theme: None,
        window_size: None,
        music_path: Some(String::from("Cartella musica")),
        language: None,
    };
    let english = Locale {
        settings: Some(String::from("Settings")),
        search: Some(String::from("Search")),
        theme: Some(String::from("Theme")),
        window_size: Some(String::from("Window size")),
        music_path: Some(String::from("Music folder")),
        language: Some(String::from("Language")),
    };
    let eff = effective_locale(&partial, &english);
    assert_eq!(eff.settings, Some(String::from("Impostazioni")));
    assert_eq!(eff.search, Some(String::from("Search")));
    assert_eq!(eff.music_path, Some(String::from("Cartella musica")));
    assert_eq!(eff.language, Some(String::from("Language")));
}

#[test]
fn font_listing_yields_the_first_regular_cjk_path() {
    let lines = vec![
        String::from("/usr/share/fonts/dejavu/DejaVuSans.ttf: DejaVu Sans:style=Book"),
        String::from("/usr/share/fonts/noto/NotoSansCJK-Regular.ttc: Noto Sans CJK JP:style=Regular"),
        String::from("/usr/share/fonts/noto/NotoSerifCJK-Regular.ttc: Noto Serif CJK JP:style=Regular"),
    ];
    let picked = pick_cjk_font(&lines);
    assert_eq!(picked, String::from("/usr/share/fonts/noto/NotoSansCJK-Regular.ttc"));
}

#[test]
fn empty_font_listing_falls_back_to_the_known_path() {
    let picked = pick_cjk_font(&Vec::new());
    assert_eq!(picked, String::from("/usr/share/fonts/opentype/noto/NotoSansCJK-Regular.ttc"));
}

#[test]
fn font_name_is_the_file_name_up_to_its_first_dot() {
    let name = font_name_of_path("/usr/share/fonts/noto/NotoSansCJK-Regular.ttc");
    assert_eq!(name, String::from("NotoSansCJK-Regular"));
    assert_eq!(font_name_of_path("msyh.ttc"), String::from("msyh"));
}

#[test]
fn name_helpers_strip_extension_and_directories() {
    assert_eq!(remove_ext("A Song.mp3"), String::from("A Song"));
    assert_eq!(remove_ext("no extension"), String::from("no extension"));
    assert_eq!(remove_ext("many.dots.flac"), String::from("many.dots"));
    assert_eq!(
        from_path_to_name_without_ext("/home/me/Music/A Song.mp3"),
        String::from("A Song")
    );
    assert_eq!(from_path_to_name_without_ext("bare.ogg"), String::from("bare"));
}

#[test]
fn trim_drops_spaces_at_both_ends_only() {
    assert_eq!(trim_spaces("  a path with spaces  "), String::from("a path with spaces"));
    assert_eq!(trim_spaces("untouched"), String::from("untouched"));
    assert_eq!(trim_spaces("   "), String::new());
}
