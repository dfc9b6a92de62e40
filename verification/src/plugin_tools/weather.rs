//! The weather plugin: city lookup and condition names.
use vstd::prelude::*;
use crate::plugin_manager::{lit, str_is};
use crate::text::{chars_of, push_str, string_of};

verus! {

/// The actions the weather plugin answers.
pub open spec fn is_weather_action(a: Seq<char>) -> bool {
    a == "weather"@ || a == "forecast"@ || a == "current"@
}

pub fn weather_action(action: &str) -> (r: bool)
    ensures
        r == is_weather_action(action@),
{
    str_is(action, "weather") || str_is(action, "forecast") || str_is(action, "current")
}

/// Spaces become `+`.
pub open spec fn plus_encoded(s: Seq<char>) -> Seq<char> {
    Seq::new(s.len(), |i: int| if s[i] == ' ' { '+' } else { s[i] })
}

pub fn urlencoded(s: &str) -> (r: String)
    ensures
        r@ == plus_encoded(s@),
{
    let v = chars_of(s);
    let mut out: Vec<char> = Vec::new();
    let mut i: usize = 0;
    while i < v.len()
        invariant
            i <= v@.len(),
            out@ == plus_encoded(v@).take(i as int),
        decreases v@.len() - i,
    {
        out.push(if v[i] == ' ' {
            '+'
        } else {
            v[i]
        });
        i = i + 1;
        assert(out@ =~= plus_encoded(v@).take(i as int));
    }
    assert(plus_encoded(v@).take(v@.len() as int) =~= plus_encoded(v@));
    string_of(&out)
}

/// The geocoding query for a city.
pub fn geocoding_url(city: &str) -> (r: String)
    ensures
        r@ == "https://geocoding-api.open-meteo.com/v1/search?name="@ + plus_encoded(city@)
            + "&count=1&language=en&format=json"@,
{
    let mut out: Vec<char> = Vec::new();
    push_str(&mut out, "https://geocoding-api.open-meteo.com/v1/search?name=");
    push_str(&mut out, urlencoded(city).as_str());
    push_str(&mut out, "&count=1&language=en&format=json");
    string_of(&out)
}

/// The name of a WMO weather code (day and night differ for a clear sky).
pub open spec fn weather_condition(code: u64, is_day: bool) -> Seq<char> {
    if code == 0 {
        if is_day {
            "Clear sky \u{2600}\u{fe0f}"@
        } else {
            "Clear sky \u{1f319}"@
        }
    } else if code == 1 {
        "Mainly clear \u{1f324}\u{fe0f}"@
    } else if code == 2 {
        "Partly cloudy \u{26c5}"@
    } else if code == 3 {
        "Overcast \u{2601}\u{fe0f}"@
    } else if code == 45 || code == 48 {
        "Foggy \u{1f32b}\u{fe0f}"@
    } else if code == 51 || code == 53 || code == 55 {
        "Drizzle \u{1f326}\u{fe0f}"@
    } else if code == 61 || code == 63 || code == 65 {
        "Rain \u{1f327}\u{fe0f}"@
    } else if code == 71 || code == 73 || code == 75 {
        "Snow \u{1f328}\u{fe0f}"@
    } else if code == 80 || code == 81 || code == 82 {
        "Rain showers \u{1f326}\u{fe0f}"@
    } else if code == 85 || code == 86 {
        "Snow showers \u{1f328}\u{fe0f}"@
    } else if code == 95 {
        "Thunderstorm \u{26c8}\u{fe0f}"@
    } else if code == 96 || code == 99 {
        "Thunderstorm with hail \u{26c8}\u{fe0f}"@
    } else {
        "Unknown"@
    }
}

pub fn weather_code_to_string(code: u64, is_day: bool) -> (r: String)
    ensures
        r@ == weather_condition(code, is_day),
{
    if code == 0 {
        if is_day {
            lit("Clear sky \u{2600}\u{fe0f}")
        } else {
            lit("Clear sky \u{1f319}")
        }
    } else if code == 1 {
        lit("Mainly clear \u{1f324}\u{fe0f}")
    } else if code == 2 {
        lit("Partly cloudy \u{26c5}")
    } else if code == 3 {
        lit("Overcast \u{2601}\u{fe0f}")
    } else if code == 45 || code == 48 {
        lit("Foggy \u{1f32b}\u{fe0f}")
    } else if code == 51 || code == 53 || code == 55 {
        lit("Drizzle \u{1f326}\u{fe0f}")
    } else if code == 61 || code == 63 || code == 65 {
        lit("Rain \u{1f327}\u{fe0f}")
    } else if code == 71 || code == 73 || code == 75 {
        lit("Snow \u{1f328}\u{fe0f}")
    } else if code == 80 || code == 81 || code == 82 {
        lit("Rain showers \u{1f326}\u{fe0f}")
    } else if code == 85 || code == 86 {
        lit("Snow showers \u{1f328}\u{fe0f}")
    } else if code == 95 {
        lit("Thunderstorm \u{26c8}\u{fe0f}")
    } else if code == 96 || code == 99 {
        lit("Thunderstorm with hail \u{26c8}\u{fe0f}")
    } else {
        lit("Unknown")
    }
}

/// `"<name>, <country>"`.
pub fn location_label(name: &str, country: &str) -> (r: String)
    ensures
        r@ == name@ + ", "@ + country@,
{
    let mut out: Vec<char> = Vec::new();
    push_str(&mut out, name);
    push_str(&mut out, ", ");
    push_str(&mut out, country);
    string_of(&out)
}

/// Why a weather lookup failed.
pub enum WeatherFailure {
    MissingCity,
    CityNotFound(String),
    GeocodingParse(String),
    GeocodingRequest(String),
    WeatherParse(String),
    WeatherRequest(String),
}

pub open spec fn weather_failure_text(f: WeatherFailure) -> Seq<char> {
    match f {
        WeatherFailure::MissingCity => "Missing 'city' in payload"@,
        WeatherFailure::CityNotFound(c) => "City '"@ + c@ + "' not found"@,
        WeatherFailure::GeocodingParse(e) => "Geocoding parse error: "@ + e@,
        WeatherFailure::GeocodingRequest(e) => "Geocoding request failed: "@ + e@,
        WeatherFailure::WeatherParse(e) => "Weather parse error: "@ + e@,
        WeatherFailure::WeatherRequest(e) => "Weather request failed: "@ + e@,
    }
}

pub fn weather_failure_message(f: &WeatherFailure) -> (r: String)
    ensures
        r@ == weather_failure_text(*f),
{
    let mut out: Vec<char> = Vec::new();
    match f {
        WeatherFailure::MissingCity => push_str(&mut out, "Missing 'city' in payload"),
        WeatherFailure::CityNotFound(c) => {
            push_str(&mut out, "City '");
            push_str(&mut out, c.as_str());
            push_str(&mut out, "' not found");
        },
        WeatherFailure::GeocodingParse(e) => {
            push_str(&mut out, "Geocoding parse error: ");
            push_str(&mut out, e.as_str());
        },
        WeatherFailure::GeocodingRequest(e) => {
            push_str(&mut out, "Geocoding request failed: ");
            push_str(&mut out, e.as_str());
        },
        WeatherFailure::WeatherParse(e) => {
            push_str(&mut out, "Weather parse error: ");
            push_str(&mut out, e.as_str());
        },
        WeatherFailure::WeatherRequest(e) => {
            push_str(&mut out, "Weather request failed: ");
            push_str(&mut out, e.as_str());
        },
    }
    string_of(&out)
}

/// Forecast days shown: at most three.
pub fn forecast_days(available: usize) -> (r: usize)
    ensures
        r == if available < 3 {
            available
        } else {
            3
        },
{
    if available < 3 {
        available
    } else {
        3
    }
}

} // verus!
