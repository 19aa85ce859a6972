use nodejs_snowflake::codec::{instance_id_from_id, timestamp_from_id};
use nodejs_snowflake::generator::{Snowflake, SnowflakeConfig, SnowflakeError};
use std::time::{SystemTime, UNIX_EPOCH};

fn now_ms() -> u64 {
    SystemTime::now().duration_since(UNIX_EPOCH).unwrap().as_millis() as u64
}

fn draw_instance_id() -> u16 {
    (SystemTime::now().duration_since(UNIX_EPOCH).unwrap().subsec_nanos() % 4096) as u16
}

fn build(opts: Option<SnowflakeConfig>) -> Result<Snowflake, SnowflakeError> {
    Snowflake::new(opts, now_ms(), draw_instance_id())
}

fn generate(uid: &mut Snowflake) -> u64 {
    loop {
        if let Some(id) = uid.get_unique_id(now_ms()) {
            return id;
        }
    }
}

#[test]
fn create_snowflake_with_no_parameters() {
    let now = now_ms();

    let uid = build(None).unwrap();

    let instance_id = uid.instance_id();
    let snowflake_epoch_offset = uid.custom_epoch();

    assert!(instance_id <= 4095);
    assert!(snowflake_epoch_offset >= now && snowflake_epoch_offset < now + 2);
}

#[test]
fn create_snowflake_with_empty_opts() {
    let opts = SnowflakeConfig { custom_epoch: None, instance_id: None };
    let now = now_ms();

    let uid = build(Some(opts)).unwrap();

    let instance_id = uid.instance_id();
    let snowflake_epoch_offset = uid.custom_epoch();

    assert!(instance_id <= 4095);
    assert!(snowflake_epoch_offset >= now && snowflake_epoch_offset < now + 2);
}

#[test]
fn create_snowflake_with_custom_epoch_only() {
    let custom_epoch: u64 = 1546300800000;

    let opts = SnowflakeConfig { custom_epoch: Some(custom_epoch), instance_id: None };

    let uid = build(Some(opts)).unwrap();

    assert!(uid.instance_id() <= 4095);
    assert_eq!(uid.custom_epoch(), custom_epoch);
}

#[test]
fn create_snowflake_with_custom_instance_id_only() {
    let custom_instance_id: u16 = 1234;
    let now = now_ms();

    let opts = SnowflakeConfig { custom_epoch: None, instance_id: Some(custom_instance_id) };

    let uid = build(Some(opts)).unwrap();

    let snowflake_epoch_offset = uid.custom_epoch();

    assert_eq!(uid.instance_id(), custom_instance_id);
    assert!(snowflake_epoch_offset >= now && snowflake_epoch_offset < now + 2);
}

#[test]
fn create_snowflake_with_custom_instance_id_and_custom_epoch() {
    let custom_instance_id: u16 = 1234;
    let custom_epoch: u64 = 1546300800000;

    let opts = SnowflakeConfig { custom_epoch: Some(custom_epoch), instance_id: Some(custom_instance_id) };

    let uid = build(Some(opts)).unwrap();

    assert_eq!(uid.instance_id(), custom_instance_id);
    assert_eq!(uid.custom_epoch(), custom_epoch);
}

#[test]
fn create_snowflake_with_invalid_instance_ids() {
    let custom_instance_ids = [10000, 4096u16];

    for custom_instance_id in custom_instance_ids.iter() {
        let opts = SnowflakeConfig { custom_epoch: None, instance_id: Some(*custom_instance_id) };

        let uid = build(Some(opts));

        assert!(matches!(uid, Err(SnowflakeError::InvalidInstanceId)));
    }
}

#[test]
fn largest_instance_id_is_accepted() {
    let opts = SnowflakeConfig { custom_epoch: Some(0), instance_id: Some(4095) };
    let uid = Snowflake::new(Some(opts), 0, 0).unwrap();
    assert_eq!(uid.instance_id(), 4095);

    let opts = SnowflakeConfig { custom_epoch: Some(0), instance_id: Some(4096) };
    assert!(matches!(Snowflake::new(Some(opts), 0, 0), Err(SnowflakeError::InvalidInstanceId)));
}

#[test]
fn drawn_instance_id_out_of_range_is_refused() {
    assert!(matches!(Snowflake::new(None, 5, 5000), Err(SnowflakeError::InvalidInstanceId)));
    let uid = Snowflake::new(None, 5, 17).unwrap();
    assert_eq!(uid.instance_id(), 17);
    assert_eq!(uid.custom_epoch(), 5);
}

#[test]
fn verify_timestamp_of_creation() {
    let mut uid = build(None).unwrap();

    let before = now_ms();
    let id = generate(&mut uid);
    let after = now_ms();

    let ts = timestamp_from_id(id, uid.custom_epoch());

    assert!(ts >= before && ts <= after);
}

#[test]
fn verify_instance_id() {
    let mut uid = build(None).unwrap();

    let id = generate(&mut uid);
    let ciid = uid.instance_id();
    let iid = instance_id_from_id(id);

    assert_eq!(iid, ciid);
}

#[test]
fn generate_id_from_timestamp() {
    let uid = build(None).unwrap();

    let ts = now_ms();
    let id = uid.id_from_timestamp(ts);
    let extracted_ts = timestamp_from_id(id, uid.custom_epoch());

    assert_eq!(ts, extracted_ts);
    assert_eq!(id & 1023, 0);
    assert_eq!(instance_id_from_id(id), uid.instance_id());
}

#[test]
fn integrity_test() {
    const RUN_FOR_MS: u64 = 1000;

    let mut uid = build(None).unwrap();
    let mut ids = Vec::new();

    let before = now_ms();
    while now_ms() - before < RUN_FOR_MS {
        ids.push(generate(&mut uid));
    }

    let mut copy = ids.clone();
    copy.sort_unstable();
    copy.dedup();

    assert_eq!(copy.len(), ids.len());
}
