//! What is known of a sensor besides its readings.

use crate::device::{is_version4, DeviceId};
use crate::reading::SerialReading;
use vstd::prelude::*;
use vstd::string::StringExecFns;

verus! {

/// A sensor as the application knows it. Times are seconds since 1970.
#[derive(Clone, Debug)]
pub struct Sensor {
    pub id: DeviceId,
    pub active: bool,
    pub name: String,
    pub token: Option<String>,
    pub associated_zone: Option<i32>,
    pub time_added: i64,
    pub time_updated: Option<i64>,
    pub com_type: i32,
    pub last_reading: Option<SerialReading>,
}

impl Sensor {
    /// A sensor that was just found: a fresh identifier, a placeholder
    /// name, not active, and added at `now`.
    pub fn new(now: i64) -> (sensor: Sensor)
        ensures
            is_version4(sensor.id.value),
            !sensor.active,
            sensor.name@ == "New Sensor"@,
            sensor.token is None,
            sensor.associated_zone is None,
            sensor.time_added == now,
            sensor.time_updated is None,
            sensor.com_type == 0,
            sensor.last_reading is None,
    {
        Sensor {
            id: DeviceId::new_v4(),
            active: false,
            name: String::from_str("New Sensor"),
            token: None,
            associated_zone: None,
            time_added: now,
            time_updated: None,
            com_type: 0,
            last_reading: None,
        }
    }

    /// The token of the sensor, or `N/A` where it has none.
    pub fn get_token(&self) -> (token: String)
        ensures
            token@ == match self.token {
                Some(t) => t@,
                None => "N/A"@,
            },
    {
        match &self.token {
            Some(toke) => toke.clone(),
            None => String::from_str("N/A"),
        }
    }
}

} // verus!
