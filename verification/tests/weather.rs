use rusty_thermostat::weather::{
    units_or_default, APIError, Configuration, GeoLocation, WeatherInfo, WeatherSettings,
};

#[test]
fn configuration_default_basepath_not_empty() {
    let new_config = Configuration::new();

    assert!(!new_config.base_path.is_empty());
}

#[test]
fn configuration_default_useragent_is_some() {
    let new_config = Configuration::new();

    assert!(new_config.user_agent.is_some());
}

#[test]
fn configuration_default_location_is_none() {
    let new_config = Configuration::new();

    assert!(new_config.location.is_none());
}

#[test]
fn configuration_default_client_exists() {
    let new_config = Configuration::new();

    let client_debug: String = format!("{:?}", new_config.client);

    assert!(!client_debug.is_empty());
}

#[test]
fn configuration_default_api_key_is_none() {
    let new_config = Configuration::new();

    assert!(new_config.api_key.is_none());
}

#[test]
fn configuration_default_units_is_imperial() {
    let new_config = Configuration::new();

    assert_eq!(new_config.units, "imperial".to_string());
}

#[test]
fn configuration_default_api_key_is_set_returns_false() {
    let new_config = Configuration::new();

    assert!(!new_config.api_set());
}

#[test]
fn configuration_not_default_api_key_is_set_returns_true() {
    let mut new_config = Configuration::new();

    new_config.api_key = Some("testkey".to_string());

    assert!(new_config.api_set());
}

#[test]
fn configuration_set_units_to_metric() {
    let mut new_config = Configuration::new();

    new_config.set_units("metric");

    assert_eq!(new_config.units, "metric".to_string());
}

#[test]
fn configuration_set_units_to_standard() {
    let mut new_config = Configuration::new();

    new_config.set_units("standard");

    assert_eq!(new_config.units, "standard".to_string());
}

#[test]
fn configuration_set_units_to_imperial() {
    let mut new_config = Configuration::new();

    new_config.set_units("imperial");

    assert_eq!(new_config.units, "imperial".to_string());
}

#[test]
fn configuration_set_units_to_imperial_with_nonsense() {
    let mut new_config = Configuration::new();

    new_config.set_units("absolutely hot garbage");

    assert_eq!(new_config.units, "imperial".to_string());
}

#[test]
fn configuration_set_units_ignores_letter_case() {
    let mut new_config = Configuration::new();

    new_config.set_units("MeTrIc");
    assert_eq!(new_config.units, "metric");
    new_config.set_units("STANDARD");
    assert_eq!(new_config.units, "standard");
    assert_eq!(new_config.base_path, "https://api.openweathermap.org/");
    assert_eq!(new_config.user_agent.as_deref(), Some("rusty_thermostat/0.0.1"));
}

#[test]
fn units_after_lower_casing() {
    assert_eq!(units_or_default("metric".to_string()), "metric");
    assert_eq!(units_or_default("standard".to_string()), "standard");
    assert_eq!(units_or_default("imperial".to_string()), "imperial");
    assert_eq!(units_or_default("Metric".to_string()), "imperial");
    assert_eq!(units_or_default("".to_string()), "imperial");
}

#[test]
fn request_addresses() {
    let mut c = Configuration::new();
    assert_eq!(c.request_url("geo/1.0/zip?zip=1,2"), "https://api.openweathermap.org/geo/1.0/zip?zip=1,2");
    assert_eq!(c.weather_uri(), "data/2.5/weather?&units=imperial");
    assert_eq!(c.pollution_uri(), "data/2.5/air_pollution?");
    c.api_key = Some("k".to_string());
    c.location = Some(GeoLocation {
        zip: 90210,
        name: "Beverly Hills".to_string(),
        lat: "34.0901".to_string(),
        lon: "-118.4065".to_string(),
        country: "US".to_string(),
    });
    c.set_units("metric");
    assert_eq!(c.weather_uri(), "data/2.5/weather?lat=34.0901&lon=-118.4065&units=metric");
    assert_eq!(c.pollution_uri(), "data/2.5/air_pollution?lat=34.0901&lon=-118.4065");
    assert_eq!(
        c.request_url(&c.pollution_uri()),
        "https://api.openweathermap.org/data/2.5/air_pollution?lat=34.0901&lon=-118.4065&appid=k"
    );
}

#[test]
fn weather_info_getters() {
    let info = WeatherInfo::new(
        69,
        "Sunny".to_string(),
        "It's totally sunny".to_string(),
        "2px.png".to_string(),
    );
    assert_eq!(info.get_id(), 69);
    assert_eq!(info.get_icon(), "https://openweathermap.org/img/wn/2px.png@2x.png");
    assert_eq!(info.get_weather_head(), "Sunny");
    assert_eq!(info.get_weather_description(), "It's totally sunny");
}

#[test]
fn api_error_in_words() {
    let mut e = APIError {
        status_code: "401".to_string(),
        message: "Invalid API key".to_string(),
        parameters: None,
    };
    assert_eq!(e.describe(), "Status: 401, Message: Invalid API key");
    e.parameters = Some(Vec::new());
    assert_eq!(e.describe(), "Status: 401, Message: Invalid API key, Related parameters: ");
    e.parameters = Some(vec!["zip".to_string(), "appid".to_string()]);
    assert_eq!(
        e.describe(),
        "Status: 401, Message: Invalid API key, Related parameters: , zip, appid"
    );
}

#[test]
fn weather_settings() {
    let mut s = WeatherSettings {
        monitor_weather: false,
        monitor_pollution: false,
        zip_code: "90210".to_string(),
        country: None,
        units: None,
        openweather_apikey: None,
    };
    assert!(!s.is_active());
    assert_eq!(s.place_query(), "90210");
    s.monitor_pollution = true;
    assert!(s.is_active());
    s.monitor_pollution = false;
    s.monitor_weather = true;
    assert!(s.is_active());
    s.country = Some("US".to_string());
    assert_eq!(s.place_query(), "90210,US");
}
