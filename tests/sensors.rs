use chrono::Utc;
use sensors::decimal::one_decimal;
use sensors::measure::{float_equal, Measure, MeasureKind};
use sensors::sensor::{EncodeError, SensorData, SensorDefinition, Timestamp};
use std::collections::HashMap;

fn now() -> Timestamp {
    let now = Utc::now();
    Timestamp {
        secs: now.timestamp(),
        nanos: now.timestamp_subsec_nanos(),
    }
}

fn data(measures: Vec<Measure>) -> SensorData {
    SensorData {
        sensor_id: "sensor-1".to_string(),
        date: now(),
        measures,
    }
}

fn as_map(pairs: Vec<(String, String)>) -> HashMap<String, String> {
    pairs.into_iter().collect()
}

#[test]
fn test_sensor_data_get_formatted_measures() {
    let data = SensorData {
        sensor_id: "sensor-1".to_string(),
        date: now(),
        measures: vec![
            Measure::Temperature(25.0f32.to_bits()),
            Measure::Humidity(50.0f32.to_bits()),
            Measure::Unknown(10.0f32.to_bits()),
        ],
    };
    let formatted_measures = as_map(data.get_formatted_measures());
    let expected_result: HashMap<String, String> = [
        ("temperature".to_string(), "25.0 °C".to_string()),
        ("humidity".to_string(), "50.0 %".to_string()),
        ("unknown".to_string(), "10.0 °C".to_string()),
    ]
    .iter()
    .cloned()
    .collect();
    assert_eq!(formatted_measures, expected_result);
}

#[test]
fn formatted_view_order_is_fixed() {
    let d = data(vec![
        Measure::Unknown(1.5f32.to_bits()),
        Measure::Humidity(2.0f32.to_bits()),
        Measure::Temperature(3.0f32.to_bits()),
    ]);
    assert_eq!(
        d.get_formatted_measures(),
        vec![
            ("temperature".to_string(), "3.0 °C".to_string()),
            ("humidity".to_string(), "2.0 %".to_string()),
            ("unknown".to_string(), "1.5 °C".to_string()),
        ]
    );
}

#[test]
fn formatting_precision() {
    assert_eq!(Measure::Temperature(25.0f32.to_bits()).formatted(), "25.0 °C");
    assert_eq!(Measure::Humidity(50.0f32.to_bits()).formatted(), "50.0 %");
    assert_eq!(Measure::Unknown(10.0f32.to_bits()).formatted(), "10.0 °C");
}

#[test]
fn last_write_wins_on_duplicate_kinds() {
    let d = data(vec![
        Measure::Temperature(20.0f32.to_bits()),
        Measure::Temperature(30.0f32.to_bits()),
    ]);
    let view = as_map(d.get_formatted_measures());
    assert_eq!(view.len(), 1);
    assert_eq!(view["temperature"], "30.0 °C");
}

#[test]
fn empty_measures_give_empty_view() {
    assert!(data(vec![]).get_formatted_measures().is_empty());
}

#[test]
fn decoded_values_format_to_one_decimal() {
    let d = SensorData {
        sensor_id: "esp8266_tmphum_001".to_string(),
        date: Timestamp {
            secs: 1681588506,
            nanos: 973482577,
        },
        measures: vec![
            Measure::Temperature((23.170000076293945f64 as f32).to_bits()),
            Measure::Humidity((56.197265625f64 as f32).to_bits()),
        ],
    };
    let view = as_map(d.get_formatted_measures());
    assert_eq!(view.len(), 2);
    assert_eq!(view["temperature"], "23.2 °C");
    assert_eq!(view["humidity"], "56.2 %");
}

#[test]
fn one_decimal_exact_values() {
    assert_eq!(one_decimal(0.25f32.to_bits()), "0.2");
    assert_eq!(one_decimal(0.75f32.to_bits()), "0.8");
    assert_eq!(one_decimal(1.25f32.to_bits()), "1.2");
    assert_eq!(one_decimal(0.0f32.to_bits()), "0.0");
    assert_eq!(one_decimal((-0.0f32).to_bits()), "-0.0");
    assert_eq!(one_decimal((-0.04f32).to_bits()), "-0.0");
    assert_eq!(one_decimal((-12.36f32).to_bits()), "-12.4");
    assert_eq!(one_decimal(f32::NAN.to_bits()), "NaN");
    assert_eq!(one_decimal(f32::INFINITY.to_bits()), "inf");
    assert_eq!(one_decimal(f32::NEG_INFINITY.to_bits()), "-inf");
    assert_eq!(one_decimal(16777216.0f32.to_bits()), "16777216.0");
    assert_eq!(
        one_decimal(f32::MAX.to_bits()),
        "340282346638528859811704183484516925440.0"
    );
}

#[test]
fn one_decimal_agrees_with_std_formatting() {
    let mut samples: Vec<f32> = vec![
        f32::MIN_POSITIVE,
        f32::MAX,
        f32::MIN,
        f32::EPSILON,
        1.0e-45,
        0.05,
        0.95,
        9.95,
        99.95,
        123456.789,
        -7.25,
        -7.75,
        1.0e20,
        3.0e38,
    ];
    let mut x: u32 = 0;
    while x < 0xFFFF_FFFF - 0x0001_0001 {
        samples.push(f32::from_bits(x));
        x += 0x0001_0001;
    }
    for v in samples {
        assert_eq!(one_decimal(v.to_bits()), format!("{v:.1}"), "bits {:#x}", v.to_bits());
    }
}

#[test]
fn measure_equality_follows_floats() {
    let t = Measure::Temperature(1.0f32.to_bits());
    assert!(t == Measure::Temperature(1.0f32.to_bits()));
    assert!(t != Measure::Humidity(1.0f32.to_bits()));
    assert!(t != Measure::Temperature(2.0f32.to_bits()));
    assert!(Measure::Unknown(0.0f32.to_bits()) == Measure::Unknown((-0.0f32).to_bits()));
    let nan = Measure::Temperature(f32::NAN.to_bits());
    assert!(nan != nan);
    assert!(float_equal(0.5f32.to_bits(), 0.5f32.to_bits()));
    assert!(!float_equal(f32::NAN.to_bits(), f32::NAN.to_bits()));
}

#[test]
fn measure_default_is_unknown_zero() {
    let m = Measure::default();
    assert_eq!(m.kind(), MeasureKind::Unknown);
    assert_eq!(m.bits(), 0);
    assert!(m == Measure::Unknown(0.0f32.to_bits()));
}

#[test]
fn kind_labels_and_units() {
    assert_eq!(MeasureKind::Temperature.label(), "temperature");
    assert_eq!(MeasureKind::Humidity.label(), "humidity");
    assert_eq!(MeasureKind::Unknown.label(), "unknown");
    assert_eq!(MeasureKind::Temperature.unit(), " °C");
    assert_eq!(MeasureKind::Humidity.unit(), " %");
    assert_eq!(MeasureKind::Unknown.unit(), " °C");
}

#[test]
fn sensor_data_equality() {
    let a = SensorData {
        sensor_id: "x".to_string(),
        date: Timestamp { secs: 5, nanos: 7 },
        measures: vec![Measure::Humidity(50.0f32.to_bits())],
    };
    let mut b = a.clone();
    assert!(a == b);
    b.date.nanos = 8;
    assert!(a != b);
    let mut c = a.clone();
    c.measures.push(Measure::default());
    assert!(a != c);
    let nan = SensorData {
        measures: vec![Measure::Unknown(f32::NAN.to_bits())],
        ..a.clone()
    };
    assert!(nan != nan.clone());
}

#[test]
fn sensor_definition_encoding() {
    let d = SensorDefinition {
        sensor_id: "esp8266_tmphum_001".to_string(),
        sensor_type: "temperature".to_string(),
        component: "living-room".to_string(),
    };
    assert_eq!(
        d.encode(),
        Ok(r#"{"sensor_id":"esp8266_tmphum_001","sensor_type":"temperature","component":"living-room"}"#.to_string())
    );
    let empty = SensorDefinition::default();
    assert_eq!(
        empty.encode(),
        Ok(r#"{"sensor_id":"","sensor_type":"","component":""}"#.to_string())
    );
}

#[test]
fn sensor_definition_encoding_escapes() {
    let d = SensorDefinition {
        sensor_id: "a\"b\\c".to_string(),
        sensor_type: "t\n\u{1}".to_string(),
        component: "°".to_string(),
    };
    let r: Result<String, EncodeError> = d.encode();
    assert_eq!(
        r,
        Ok(r#"{"sensor_id":"a\"b\\c","sensor_type":"t\n\u0001","component":"°"}"#.to_string())
    );
}
