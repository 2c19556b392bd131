//! What the weather service reports, as far as it is text and whole
//! numbers, and the addresses under which it is asked.

use crate::dbman::is_word;
use crate::format::{lowercase, to_lowercase};
use vstd::prelude::*;
use vstd::string::{StrSliceExecFns, StringExecFns};

verus! {

/// The conditions of the weather.
#[derive(Debug, Clone)]
pub struct WeatherInfo {
    id: i32,
    main: String,
    description: String,
    icon: String,
}

/// The characters of the four parts of a weather condition.
pub struct WeatherInfoView {
    pub id: int,
    pub main: Seq<char>,
    pub description: Seq<char>,
    pub icon: Seq<char>,
}

impl View for WeatherInfo {
    type V = WeatherInfoView;

    closed spec fn view(&self) -> WeatherInfoView {
        WeatherInfoView {
            id: self.id as int,
            main: self.main@,
            description: self.description@,
            icon: self.icon@,
        }
    }
}

impl WeatherInfo {
    /// A weather condition: its number, its group, its description and the
    /// name of its icon.
    pub fn new(id: i32, main: String, description: String, icon: String) -> (info: WeatherInfo)
        ensures
            info@ == (WeatherInfoView {
                id: id as int,
                main: main@,
                description: description@,
                icon: icon@,
            }),
    {
        WeatherInfo { id, main, description, icon }
    }

    /// The number of the condition.
    pub fn get_id(&self) -> (id: i32)
        ensures
            id == self@.id,
    {
        self.id
    }

    /// The address of the picture for the condition.
    pub fn get_icon(&self) -> (address: String)
        ensures
            address@ == "https://openweathermap.org/img/wn/"@ + self@.icon + "@2x.png"@,
    {
        let mut address = String::from_str("https://openweathermap.org/img/wn/");
        address.append(self.icon.as_str());
        address.append("@2x.png");
        address
    }

    /// The group of the condition, such as rain or snow.
    pub fn get_weather_head(&self) -> (head: String)
        ensures
            head@ == self@.main,
    {
        self.main.clone()
    }

    /// The description of the condition within its group.
    pub fn get_weather_description(&self) -> (description: String)
        ensures
            description@ == self@.description,
    {
        self.description.clone()
    }
}

/// The air quality index.
#[derive(Clone, Copy, Debug, PartialEq, Eq)]
pub struct MainAqi {
    pub aqi: i8,
}

/// Where and when the sun rises and sets.
#[derive(Debug, Clone)]
pub struct SysInfo {
    pub country: String,
    pub sunrise: i32,
    pub sunset: i32,
}

/// How much of the sky is covered, in percent.
#[derive(Clone, Copy, Debug, PartialEq, Eq)]
pub struct CloudInfo {
    pub all: i32,
}

/// An error that the weather service reported.
#[derive(Debug, Clone)]
pub struct APIError {
    pub status_code: String,
    pub message: String,
    pub parameters: Option<Vec<String>>,
}

/// The parameters of an error, each behind a comma and a blank.
pub open spec fn listed(parameters: Seq<String>) -> Seq<char>
    decreases parameters.len(),
{
    if parameters.len() == 0 {
        Seq::empty()
    } else {
        listed(parameters.drop_last()) + ", "@ + parameters.last()@
    }
}

/// What an error reads as: its status, its message and, where it names
/// parameters, those behind the message.
pub open spec fn error_words(e: APIError) -> Seq<char> {
    "Status: "@ + e.status_code@ + ", Message: "@ + e.message@ + match e.parameters {
        Some(parameters) => ", Related parameters: "@ + listed(parameters@),
        None => Seq::empty(),
    }
}

impl APIError {
    /// The error in words.
    pub fn describe(&self) -> (words: String)
        ensures
            words@ == error_words(*self),
    {
        let mut words = String::from_str("Status: ");
        words.append(self.status_code.as_str());
        words.append(", Message: ");
        words.append(self.message.as_str());
        match &self.parameters {
            Some(parameters) => {
                words.append(", Related parameters: ");
                let ghost head = words@;
                let mut i: usize = 0;
                assert(parameters@.subrange(0, 0) =~= Seq::<String>::empty());
                while i < parameters.len()
                    invariant
                        i <= parameters@.len(),
                        words@ == head + listed(parameters@.subrange(0, i as int)),
                    decreases parameters@.len() - i,
                {
                    words.append(", ");
                    words.append(parameters[i].as_str());
                    proof {
                        let done = parameters@.subrange(0, i as int + 1);
                        assert(done.drop_last() =~= parameters@.subrange(0, i as int));
                        assert(done.last() == parameters@[i as int]);
                        assert(words@ =~= head + listed(done));
                    }
                    i = i + 1;
                }
                assert(parameters@.subrange(0, i as int) =~= parameters@);
                assert(words@ =~= error_words(*self));
            },
            None => {
                assert(words@ =~= error_words(*self));
            },
        }
        words
    }
}

/// The units that a lower-cased wish stands for: the wish itself where it
/// is one of the three systems, the imperial system for anything else.
pub open spec fn units_for(lowered: Seq<char>) -> Seq<char> {
    if lowered == "standard"@ || lowered == "imperial"@ || lowered == "metric"@ {
        lowered
    } else {
        "imperial"@
    }
}

/// The units that a lower-cased wish stands for.
pub fn units_or_default(lowered: String) -> (units: String)
    ensures
        units@ == units_for(lowered@),
{
    if is_word(&lowered, "standard") || is_word(&lowered, "imperial") || is_word(
        &lowered,
        "metric",
    ) {
        lowered
    } else {
        String::from_str("imperial")
    }
}

/// A place that the weather service knows, with its coordinates as the
/// service wrote them.
#[derive(Debug, Clone)]
pub struct GeoLocation {
    pub zip: i32,
    pub name: String,
    pub lat: String,
    pub lon: String,
    pub country: String,
}

impl GeoLocation {
    /// The place as the part of an address.
    pub fn create_uri(&self) -> (uri: String)
        ensures
            uri@ == "lat="@ + self.lat@ + "&lon="@ + self.lon@,
    {
        let mut uri = String::from_str("lat=");
        uri.append(self.lat.as_str());
        uri.append("&lon=");
        uri.append(self.lon.as_str());
        uri
    }
}

/// Whether a text holds a comma.
pub fn has_comma(text: &str) -> (found: bool)
    ensures
        found == text@.contains(','),
{
    let n = text.unicode_len();
    let mut i: usize = 0;
    while i < n
        invariant
            i <= n == text@.len(),
            forall|j: int| 0 <= j < i ==> text@[j] != ',',
        decreases n - i,
    {
        if text.get_char(i) == ',' {
            assert(text@[i as int] == ',');
            return true;
        }
        i = i + 1;
    }
    false
}

/// The settings of the connection to the weather service. The connection
/// itself is kept by whoever sends the requests.
#[derive(Debug, Clone, Copy, PartialEq, Eq)]
pub struct Client;

/// Where and how the weather service is asked.
#[derive(Debug, Clone)]
pub struct Configuration {
    pub base_path: String,
    pub user_agent: Option<String>,
    pub location: Option<GeoLocation>,
    pub client: Client,
    pub api_key: Option<String>,
    pub units: String,
}

/// The address of a request: the base path and the request, and the key
/// behind them where one is set.
pub open spec fn request_address(c: Configuration, uri: Seq<char>) -> Seq<char> {
    c.base_path@ + uri + match c.api_key {
        Some(key) => "&appid="@ + key@,
        None => Seq::empty(),
    }
}

/// The place part of a request.
pub open spec fn place_part(c: Configuration) -> Seq<char> {
    match c.location {
        Some(place) => "lat="@ + place.lat@ + "&lon="@ + place.lon@,
        None => Seq::empty(),
    }
}

impl Default for Configuration {
    fn default() -> (c: Configuration)
        ensures
            c.base_path@ == "https://api.openweathermap.org/"@,
            c.user_agent is Some,
            c.user_agent->0@ == "rusty_thermostat/0.0.1"@,
            c.location is None,
            c.api_key is None,
            c.units@ == "imperial"@,
    {
        Configuration {
            base_path: String::from_str("https://api.openweathermap.org/"),
            user_agent: Some(String::from_str("rusty_thermostat/0.0.1")),
            location: None,
            client: Client,
            api_key: None,
            units: String::from_str("imperial"),
        }
    }
}

impl Configuration {
    /// The default configuration.
    pub fn new() -> (c: Configuration)
        ensures
            c.base_path@ == "https://api.openweathermap.org/"@,
            c.user_agent is Some,
            c.user_agent->0@ == "rusty_thermostat/0.0.1"@,
            c.location is None,
            c.api_key is None,
            c.units@ == "imperial"@,
    {
        Configuration::default()
    }

    /// Whether a key for the service is set.
    pub fn api_set(&self) -> (set: bool)
        ensures
            set == self.api_key is Some,
    {
        match self.api_key {
            Some(_) => true,
            None => false,
        }
    }

    /// Sets the units: `standard`, `imperial` or `metric` in any letter
    /// case, and the imperial system for anything else.
    pub fn set_units(&mut self, set_units: &str)
        ensures
            final(self).units@ == units_for(lowercase(set_units@)),
            final(self).base_path == old(self).base_path,
            final(self).user_agent == old(self).user_agent,
            final(self).location == old(self).location,
            final(self).api_key == old(self).api_key,
    {
        self.units = units_or_default(to_lowercase(set_units));
    }

    /// The address under which a request is sent.
    pub fn request_url(&self, uri: &str) -> (address: String)
        ensures
            address@ == request_address(*self, uri@),
    {
        let mut address = self.base_path.clone();
        address.append(uri);
        match &self.api_key {
            Some(key) => {
                address.append("&appid=");
                address.append(key.as_str());
                assert(address@ =~= request_address(*self, uri@));
            },
            None => {
                assert(address@ =~= request_address(*self, uri@));
            },
        }
        address
    }

    /// The request for the place of a postal code. A code without a comma
    /// names no country: the United States are taken, under their number.
    pub fn zip_uri(&self, zipcode: &str) -> (uri: String)
        ensures
            uri@ == "geo/1.0/zip?zip="@ + zipcode@ + (if zipcode@.contains(',') {
                Seq::<char>::empty()
            } else {
                ",840"@
            }),
    {
        let mut uri = String::from_str("geo/1.0/zip?zip=");
        uri.append(zipcode);
        if !has_comma(zipcode) {
            uri.append(",840");
        } else {
            assert(uri@ =~= "geo/1.0/zip?zip="@ + zipcode@ + Seq::<char>::empty());
        }
        uri
    }

    /// The request for the weather at the place that is set.
    pub fn weather_uri(&self) -> (uri: String)
        ensures
            uri@ == "data/2.5/weather?"@ + place_part(*self) + "&units="@ + self.units@,
    {
        let mut uri = String::from_str("data/2.5/weather?");
        match &self.location {
            Some(place) => {
                let part = place.create_uri();
                uri.append(part.as_str());
                assert(uri@ =~= "data/2.5/weather?"@ + place_part(*self));
            },
            None => {
                assert(uri@ =~= "data/2.5/weather?"@ + place_part(*self));
            },
        }
        uri.append("&units=");
        uri.append(self.units.as_str());
        uri
    }

    /// The request for the air pollution at the place that is set.
    pub fn pollution_uri(&self) -> (uri: String)
        ensures
            uri@ == "data/2.5/air_pollution?"@ + place_part(*self),
    {
        let mut uri = String::from_str("data/2.5/air_pollution?");
        match &self.location {
            Some(place) => {
                let part = place.create_uri();
                uri.append(part.as_str());
            },
            None => {
                assert(uri@ =~= "data/2.5/air_pollution?"@ + place_part(*self));
            },
        }
        uri
    }
}

/// Which parts of the weather service the application watches.
#[derive(Clone, Debug)]
pub struct WeatherSettings {
    pub monitor_weather: bool,
    pub monitor_pollution: bool,
    pub zip_code: String,
    pub country: Option<String>,
    pub units: Option<String>,
    pub openweather_apikey: Option<String>,
}

impl WeatherSettings {
    /// Whether anything is watched at all.
    pub fn is_active(&self) -> (active: bool)
        ensures
            active == (self.monitor_weather || self.monitor_pollution),
    {
        if self.monitor_weather {
            true
        } else if self.monitor_pollution {
            true
        } else {
            false
        }
    }

    /// The place to ask for: the postal code and, where one is set, the
    /// country behind a comma.
    pub fn place_query(&self) -> (query: String)
        ensures
            query@ == self.zip_code@ + match self.country {
                Some(country) => ","@ + country@,
                None => Seq::empty(),
            },
    {
        let mut query = self.zip_code.clone();
        match &self.country {
            Some(country) => {
                query.append(",");
                query.append(country.as_str());
                assert(query@ =~= self.zip_code@ + (","@ + country@));
            },
            None => {
                assert(query@ =~= self.zip_code@ + Seq::<char>::empty());
            },
        }
        query
    }
}

} // verus!
