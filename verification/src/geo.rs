//! Extraction of a suggested selection from a geolocation response: the
//! country code, the country's first administrative language and the IANA
//! timezone identifier, composed into a keyboard code, a display locale and
//! a timezone.  The fields are read through serde_json and named, so that
//! the composed result is pinned as a function of the response body alone.

use vstd::prelude::*;
use vstd::string::*;

verus! {

/// A suggested selection extracted from one geolocation response: the
/// administrative language as keyboard code, the composed display locale,
/// and the timezone identifier.
pub struct GeoResult {
    pub keyboard: String,
    pub display_locale: String,
    pub timezone: String,
}

/// The (country code, first administrative language, timezone) fields that
/// parsing the body as JSON yields along the fixed path
/// `country.isoAlpha2`, `country.isoAdminLanguages[0].isoAlpha2` and
/// `location.timeZone.ianaTimeId`; `None` where the body is no JSON
/// document or some field on that path is absent or no string.  The result
/// depends on the body text alone.
pub uninterp spec fn geo_fields_of(body: Seq<char>) -> Option<(Seq<char>, Seq<char>, Seq<char>)>;

/// Relies on serde_json's `from_str`, `Value::get` and `Value::as_str`,
/// called along the fixed path that `geo_fields_of` names: the parse and
/// every lookup depend on the body text alone, and each returns `None`
/// where the document or the field is not there.
#[verifier::external_body]
fn extract_geo_fields(body: &str) -> (r: Option<(String, String, String)>)
    ensures
        (r is Some) == (geo_fields_of(body@) is Some),
        r matches Some(f) ==> geo_fields_of(body@) matches Some(g) && f.0@ == g.0 && f.1@ == g.1
            && f.2@ == g.2,
{
    let parsed: serde_json::Value = serde_json::from_str(body).ok()?;
    let country = parsed.get("country")?;
    let country_code = country.get("isoAlpha2")?.as_str()?.to_owned();
    let admin_language =
        country.get("isoAdminLanguages")?.get(0)?.get("isoAlpha2")?.as_str()?.to_owned();
    let timezone =
        parsed.get("location")?.get("timeZone")?.get("ianaTimeId")?.as_str()?.to_owned();
    Some((country_code, admin_language, timezone))
}

/// Joins an administrative language code and a country code into a display
/// locale, as in `de` and `DE` giving `de_DE`.
pub fn compose_locale(admin_language: &str, country_code: &str) -> (r: String)
    ensures
        r@ == admin_language@ + "_"@ + country_code@,
{
    let mut r = String::from_str(admin_language);
    r.append("_");
    r.append(country_code);
    r
}

/// Builds the suggested selection from the three extracted fields: the
/// administrative language becomes the keyboard code, the display locale is
/// the composed pair, and the timezone is kept as it is.
pub fn geo_result_of(admin_language: String, country_code: &str, timezone: String) -> (g:
    GeoResult)
    ensures
        g.keyboard@ == admin_language@,
        g.display_locale@ == admin_language@ + "_"@ + country_code@,
        g.timezone@ == timezone@,
{
    let display_locale = compose_locale(admin_language.as_str(), country_code);
    GeoResult { keyboard: admin_language, display_locale, timezone }
}

/// Extracts the suggested selection from a geolocation response body: a
/// result comes back exactly when the body carries the three named fields,
/// the keyboard code is the administrative language, the display locale is
/// the administrative language composed with the country code, and the
/// timezone is the named timezone field.
pub fn auto_detect_from_json(body: &str) -> (r: Option<GeoResult>)
    ensures
        (r is Some) == (geo_fields_of(body@) is Some),
        r matches Some(g) ==> geo_fields_of(body@) matches Some(f) && g.keyboard@ == f.1
            && g.display_locale@ == f.1 + "_"@ + f.0 && g.timezone@ == f.2,
{
    let fields = match extract_geo_fields(body) {
        Some(fields) => fields,
        None => {
            return None;
        },
    };
    let (country_code, admin_language, timezone) = fields;
    Some(geo_result_of(admin_language, country_code.as_str(), timezone))
}

} // verus!
