use easy_language_config::tables::{
    codes_unique, get_language_codes, get_locales, get_timezones, names_nonempty, names_unique,
    parse_csv, Entry,
};

fn entry(code: &str, name: &str) -> Entry {
    Entry { code: code.to_string(), name: name.to_string() }
}

#[test]
fn parse_csv_one_entry_per_data_row() {
    let data = "code,name\nde,German\nfr,French\nes,Spanish\n";
    let entries = parse_csv(data).unwrap();
    assert_eq!(entries.len(), 3);
    assert_eq!(entries[0].code, "de");
    assert_eq!(entries[0].name, "German");
    assert_eq!(entries[1].code, "fr");
    assert_eq!(entries[1].name, "French");
    assert_eq!(entries[2].code, "es");
    assert_eq!(entries[2].name, "Spanish");
}

#[test]
fn parse_csv_trims_fields() {
    let data = "code,name\n de , German \n";
    let entries = parse_csv(data).unwrap();
    assert_eq!(entries.len(), 1);
    assert_eq!(entries[0].code, "de");
    assert_eq!(entries[0].name, "German");
}

#[test]
fn parse_csv_ignores_extra_fields() {
    let data = "code,name\nde,German,extra\n";
    let entries = parse_csv(data).unwrap();
    assert_eq!(entries.len(), 1);
    assert_eq!(entries[0].code, "de");
    assert_eq!(entries[0].name, "German");
}

#[test]
fn parse_csv_rejects_row_without_comma() {
    let data = "code,name\nde,German\nbroken\n";
    assert!(parse_csv(data).is_none());
}

#[test]
fn parse_csv_header_only() {
    let entries = parse_csv("code,name\n").unwrap();
    assert_eq!(entries.len(), 0);
}

#[test]
fn parse_csv_empty_text() {
    let entries = parse_csv("").unwrap();
    assert_eq!(entries.len(), 0);
}

#[test]
fn parse_csv_without_final_newline() {
    let data = "code,name\nde,German";
    let entries = parse_csv(data).unwrap();
    assert_eq!(entries.len(), 1);
    assert_eq!(entries[0].code, "de");
}

#[test]
fn parse_csv_handles_carriage_returns() {
    let data = "code,name\r\nde,German\r\n";
    let entries = parse_csv(data).unwrap();
    assert_eq!(entries.len(), 1);
    assert_eq!(entries[0].code, "de");
    assert_eq!(entries[0].name, "German");
}

#[test]
fn get_language_codes_sorts_by_name() {
    let data = "code,name\nzu,Zulu\nab,Abkhazian\nde,German\n";
    let entries = get_language_codes(data).unwrap();
    assert_eq!(entries.len(), 3);
    assert_eq!(entries[0].name, "Abkhazian");
    assert_eq!(entries[0].code, "ab");
    assert_eq!(entries[1].name, "German");
    assert_eq!(entries[1].code, "de");
    assert_eq!(entries[2].name, "Zulu");
    assert_eq!(entries[2].code, "zu");
}

#[test]
fn get_language_codes_rejects_malformed_table() {
    assert!(get_language_codes("code,name\nbroken\n").is_none());
}

#[test]
fn get_locales_sorts_by_name() {
    let data = "locale,name\nfr_FR,French (France)\nde_DE,German (Germany)\n";
    let entries = get_locales(data).unwrap();
    assert_eq!(entries.len(), 2);
    assert_eq!(entries[0].code, "fr_FR");
    assert_eq!(entries[1].code, "de_DE");
}

#[test]
fn get_locales_keeps_duplicate_rows() {
    let data = "locale,name\na,Same\nb,Same\na,Same\n";
    let entries = get_locales(data).unwrap();
    assert_eq!(entries.len(), 3);
    let a_count = entries.iter().filter(|e| e.code == "a").count();
    assert_eq!(a_count, 2);
}

#[test]
fn get_timezones_sorts_lines() {
    let data = "Europe/Berlin\nAfrica/Cairo\nAsia/Tokyo\n";
    let zones = get_timezones(data);
    assert_eq!(zones, vec!["Africa/Cairo", "Asia/Tokyo", "Europe/Berlin"]);
}

#[test]
fn get_timezones_no_empty_final_line() {
    let zones = get_timezones("B\nA\n");
    assert_eq!(zones, vec!["A", "B"]);
}

#[test]
fn get_timezones_keeps_inner_empty_lines() {
    let zones = get_timezones("B\n\nA\n");
    assert_eq!(zones, vec!["", "A", "B"]);
}

#[test]
fn codes_unique_accepts_distinct_codes() {
    let entries = vec![entry("de", "German"), entry("fr", "French")];
    assert!(codes_unique(&entries));
}

#[test]
fn codes_unique_rejects_duplicate_code() {
    let entries = vec![entry("de", "German"), entry("de", "Deutsch")];
    assert!(!codes_unique(&entries));
}

#[test]
fn names_unique_rejects_duplicate_name() {
    let entries = vec![entry("de", "Same"), entry("fr", "Same")];
    assert!(!names_unique(&entries));
    let distinct = vec![entry("de", "German"), entry("fr", "French")];
    assert!(names_unique(&distinct));
}

#[test]
fn names_nonempty_detects_empty_name() {
    let good = vec![entry("de", "German")];
    assert!(names_nonempty(&good));
    let bad = vec![entry("de", "German"), entry("fr", "")];
    assert!(!names_nonempty(&bad));
}
