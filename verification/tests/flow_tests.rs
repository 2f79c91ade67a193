use easy_language_config::lookup::{code_for_name, get_pos_map, get_pos_vec, get_values};
use easy_language_config::system::{
    apply_selection, parse_keymap_output, parse_locale_output, parse_timezone_output,
    resolve_selection,
};
use easy_language_config::tables::Entry;

fn entry(code: &str, name: &str) -> Entry {
    Entry { code: code.to_string(), name: name.to_string() }
}

fn sample_table() -> Vec<Entry> {
    vec![entry("de", "German"), entry("en", "English"), entry("fr", "French")]
}

#[test]
fn locale_output_splits_on_equals_and_strips_encoding() {
    assert_eq!(parse_locale_output("LANG=de_DE.UTF-8"), "de_DE");
}

#[test]
fn locale_output_without_equals() {
    assert_eq!(parse_locale_output("de_DE.UTF-8"), "de_DE");
}

#[test]
fn locale_output_without_encoding_suffix() {
    assert_eq!(parse_locale_output("LANG=de_DE"), "de_DE");
}

#[test]
fn locale_output_takes_second_of_several_parts() {
    assert_eq!(parse_locale_output("A=B=C"), "B");
}

#[test]
fn locale_output_is_trimmed_first() {
    assert_eq!(parse_locale_output("  LANG=de_DE.UTF-8\n"), "de_DE");
}

#[test]
fn locale_output_empty() {
    assert_eq!(parse_locale_output(""), "");
}

#[test]
fn keymap_output_is_trimmed() {
    assert_eq!(parse_keymap_output(" de\n"), "de");
}

#[test]
fn timezone_output_is_trimmed() {
    assert_eq!(parse_timezone_output("Europe/Berlin\n"), "Europe/Berlin");
}

#[test]
fn pos_map_finds_first_matching_code() {
    let table = sample_table();
    assert_eq!(get_pos_map(&table, "en"), 1);
    assert_eq!(get_pos_map(&table, "fr"), 2);
}

#[test]
fn pos_map_defaults_to_zero() {
    let table = sample_table();
    assert_eq!(get_pos_map(&table, "xx"), 0);
}

#[test]
fn pos_vec_finds_first_equal_string() {
    let zones = vec!["Africa/Cairo".to_string(), "Europe/Berlin".to_string()];
    assert_eq!(get_pos_vec(&zones, "Europe/Berlin"), 1);
    assert_eq!(get_pos_vec(&zones, "Mars/Olympus"), 0);
}

#[test]
fn values_are_the_display_names() {
    let table = sample_table();
    assert_eq!(get_values(&table), vec!["German", "English", "French"]);
}

#[test]
fn code_for_name_resolves_first_match() {
    let table = sample_table();
    assert_eq!(code_for_name(&table, "French").unwrap(), "fr");
    assert!(code_for_name(&table, "Klingon").is_none());
}

#[test]
fn lookup_by_code_and_back_by_name_round_trips() {
    let table = sample_table();
    for code in ["de", "en", "fr"] {
        let pos = get_pos_map(&table, code) as usize;
        let name = table[pos].name.clone();
        let back = code_for_name(&table, &name).unwrap();
        assert_eq!(back, code);
    }
}

#[test]
fn resolve_selection_maps_names_to_codes() {
    let languages = sample_table();
    let locales = vec![entry("de_DE", "German (Germany)"), entry("fr_FR", "French (France)")];
    let sel = resolve_selection(&languages, &locales, "German", "German (Germany)", "Europe/Berlin")
        .unwrap();
    assert_eq!(sel.keyboard, "de");
    assert_eq!(sel.display_locale, "de_DE");
    assert_eq!(sel.timezone, "Europe/Berlin");
}

#[test]
fn resolve_selection_fails_on_unknown_name() {
    let languages = sample_table();
    let locales = vec![entry("de_DE", "German (Germany)")];
    assert!(resolve_selection(&languages, &locales, "Klingon", "German (Germany)", "UTC").is_none());
    assert!(resolve_selection(&languages, &locales, "German", "Klingon (Qo'noS)", "UTC").is_none());
}

#[test]
fn apply_selection_issues_the_fixed_command_sequence() {
    let commands = apply_selection("de", "de_DE", "Europe/Berlin");
    let expected = vec![
        "loadkeys de",
        "localectl set-keymap de",
        "setxkbmap -layout de -option caps:escape",
        "echo 'de_DE.UTF-8 UTF-8' > /etc/locale.gen",
        "locale-gen",
        "localectl set-locale LANG=de_DE.UTF-8 --no-ask-password",
        "timedatectl set-timezone Europe/Berlin --no-ask-password",
        "echo 'export LANG=de_DE.UTF-8' > ~/.zshrc",
        "echo 'startxfce4 &' >> ~/.zshrc",
        "pkill xfce4",
    ];
    assert_eq!(commands, expected);
}

#[test]
fn apply_selection_other_values() {
    let commands = apply_selection("fr", "fr_FR", "Europe/Paris");
    assert_eq!(commands.len(), 10);
    assert_eq!(commands[0], "loadkeys fr");
    assert_eq!(commands[3], "echo 'fr_FR.UTF-8 UTF-8' > /etc/locale.gen");
    assert_eq!(commands[6], "timedatectl set-timezone Europe/Paris --no-ask-password");
}
