use rusty_thermostat::api::{
    api_index, controller_status, expires_at, index, parse_any, pollution, sensor_status,
    status_answer, zone_status, JWTClaims,
};
use rusty_thermostat::device::DeviceId;
use rusty_thermostat::format::{bool_str, decimal_string, digit_str};

#[test]
fn fixed_answers() {
    assert_eq!(index(), "Hello, world!");
    assert_eq!(api_index(), "Hello, API!");
    assert_eq!(pollution(), "Current pollution");
}

#[test]
fn zone_answers_name_the_zone() {
    assert_eq!(zone_status(0), Ok("Info for zone 0:".to_string()));
    assert_eq!(zone_status(17), Ok("Info for zone 17:".to_string()));
    assert_eq!(zone_status(u32::MAX), Ok("Info for zone 4294967295:".to_string()));
}

#[test]
fn tokens_last_a_quarter_of_an_hour() {
    assert_eq!(expires_at(1_700_000_000, 5), 1_700_000_900);
    assert_eq!(expires_at(-900, 5), 0);
    assert_eq!(expires_at(-901, 5), 5);
    assert_eq!(expires_at(i64::MAX - 900, 5), i64::MAX as u64);
}

#[test]
fn claims_by_group() {
    let id = DeviceId::from_u128(0x0f3832c6201547c9a296962fd94b3e38);
    let sensor = JWTClaims::new_sensor(id, 1000, 0);
    assert_eq!(sensor.iss, "Rusty Thermostat");
    assert_eq!(sensor.sub, "0f3832c6201547c9a296962fd94b3e38");
    assert_eq!(sensor.groups, "WebSensor");
    assert_eq!(sensor.exp, 1900);
    assert_eq!(JWTClaims::new_collector(id, 1000, 0).groups, "Collector");
    assert_eq!(JWTClaims::new_viewer(id, 1000, 0).groups, "ViewOnly");
    assert_eq!(JWTClaims::new_admin(id, 1000, 0).groups, "Super");
    assert_eq!(JWTClaims::for_group(id, "x", -2000, 77).exp, 77);
    let nobody = JWTClaims::default_at(42);
    assert_eq!(nobody.sub, "DebugSub");
    assert_eq!(nobody.groups, "NONE");
    assert_eq!(nobody.exp, 42);
}

#[test]
fn decimal_numbers() {
    assert_eq!(decimal_string(0), "0");
    assert_eq!(decimal_string(9), "9");
    assert_eq!(decimal_string(10), "10");
    assert_eq!(decimal_string(5432), "5432");
    assert_eq!(decimal_string(u64::MAX), "18446744073709551615");
    for d in 0..10u64 {
        assert_eq!(digit_str(d), d.to_string());
    }
    assert_eq!(bool_str(true), "true");
    assert_eq!(bool_str(false), "false");
}

#[test]
fn status_answers_show_the_identifier_with_dashes() {
    assert_eq!(
        sensor_status("0f3832c6201547c9a296962fd94b3e38"),
        Ok("The ID provided: 0f3832c6201547c9a296962fd94b3e38 can be seen like this: 0f3832c6-2015-47c9-a296-962fd94b3e38".to_string())
    );
    assert_eq!(
        controller_status("{0F3832C6-2015-47C9-A296-962FD94B3E38}"),
        Ok("The ID provided: {0F3832C6-2015-47C9-A296-962FD94B3E38} can be seen like this: 0f3832c6-2015-47c9-a296-962fd94b3e38".to_string())
    );
    assert_eq!(
        sensor_status("kitchen"),
        Err("The provided ID: kitchen cannot become a UUID.".to_string())
    );
    assert_eq!(
        parse_any("urn:uuid:0f3832c6-2015-47c9-a296-962fd94b3e38"),
        Some(DeviceId::from_u128(0x0f3832c6201547c9a296962fd94b3e38))
    );
    assert_eq!(parse_any(""), None);
    assert_eq!(
        status_answer("x", Some(DeviceId::nil())),
        Ok("The ID provided: x can be seen like this: 00000000-0000-0000-0000-000000000000".to_string())
    );
    assert_eq!(status_answer("x", None), Err("The provided ID: x cannot become a UUID.".to_string()));
}
