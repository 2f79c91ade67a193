use easy_language_config::geo::{auto_detect_from_json, compose_locale};

fn sample_body() -> String {
    let mut body = String::new();
    body.push_str("{");
    body.push_str("\"country\": {");
    body.push_str("\"isoAlpha2\": \"DE\",");
    body.push_str("\"isoAdminLanguages\": [{\"isoAlpha2\": \"de\"}]");
    body.push_str("},");
    body.push_str("\"location\": {\"timeZone\": {\"ianaTimeId\": \"Europe/Berlin\"}}");
    body.push_str("}");
    body
}

#[test]
fn compose_locale_joins_with_underscore() {
    assert_eq!(compose_locale("de", "DE"), "de_DE");
    assert_eq!(compose_locale("", "FR"), "_FR");
}

#[test]
fn auto_detect_composes_locale_from_payload() {
    let result = auto_detect_from_json(&sample_body()).unwrap();
    assert_eq!(result.keyboard, "de");
    assert_eq!(result.display_locale, "de_DE");
    assert_eq!(result.timezone, "Europe/Berlin");
}

#[test]
fn auto_detect_uses_first_admin_language() {
    let body = "{\"country\": {\"isoAlpha2\": \"CH\", \"isoAdminLanguages\": \
                [{\"isoAlpha2\": \"de\"}, {\"isoAlpha2\": \"fr\"}]}, \
                \"location\": {\"timeZone\": {\"ianaTimeId\": \"Europe/Zurich\"}}}";
    let result = auto_detect_from_json(body).unwrap();
    assert_eq!(result.keyboard, "de");
    assert_eq!(result.display_locale, "de_CH");
    assert_eq!(result.timezone, "Europe/Zurich");
}

#[test]
fn auto_detect_rejects_invalid_json() {
    assert!(auto_detect_from_json("not json at all").is_none());
}

#[test]
fn auto_detect_rejects_missing_country() {
    let body = "{\"location\": {\"timeZone\": {\"ianaTimeId\": \"Europe/Berlin\"}}}";
    assert!(auto_detect_from_json(body).is_none());
}

#[test]
fn auto_detect_rejects_empty_admin_language_list() {
    let body = "{\"country\": {\"isoAlpha2\": \"DE\", \"isoAdminLanguages\": []}, \
                \"location\": {\"timeZone\": {\"ianaTimeId\": \"Europe/Berlin\"}}}";
    assert!(auto_detect_from_json(body).is_none());
}

#[test]
fn auto_detect_rejects_missing_timezone() {
    let body = "{\"country\": {\"isoAlpha2\": \"DE\", \
                \"isoAdminLanguages\": [{\"isoAlpha2\": \"de\"}]}, \"location\": {}}";
    assert!(auto_detect_from_json(body).is_none());
}

#[test]
fn auto_detect_rejects_non_string_field() {
    let body = "{\"country\": {\"isoAlpha2\": 7, \
                \"isoAdminLanguages\": [{\"isoAlpha2\": \"de\"}]}, \
                \"location\": {\"timeZone\": {\"ianaTimeId\": \"Europe/Berlin\"}}}";
    assert!(auto_detect_from_json(body).is_none());
}
