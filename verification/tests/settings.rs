use mai::{Bytes, EngineSettings, InitialBufferPoolSize, InitialBufferSize, Kilobytes, MaxBufferPoolSize, Megabytes, OptionSetter, ToBytes};

#[test]
fn sizes_in_bytes() {
    assert_eq!(Bytes(12).to_bytes(), Bytes(12));
    assert_eq!(Kilobytes(32).to_bytes(), Bytes(32_000));
    assert_eq!(Megabytes(2).to_bytes(), Bytes(2_000_000));
}

#[test]
fn default_settings() {
    let settings = EngineSettings::new();
    assert_eq!(settings.starting_buffer_size, Bytes(32_000));
    assert_eq!(settings.buffer_pool_size, 32);
    assert_eq!(settings.max_buffer_pool_size, 32);
}

#[test]
fn options_change_one_setting_each() {
    let settings = EngineSettings::new();
    let settings = InitialBufferSize(Kilobytes(64)).set_option(settings);
    assert_eq!(settings.starting_buffer_size, Bytes(64_000));
    assert_eq!(settings.buffer_pool_size, 32);
    let settings = InitialBufferPoolSize(16).set_option(settings);
    assert_eq!(settings.buffer_pool_size, 16);
    assert_eq!(settings.max_buffer_pool_size, 32);
    let settings = MaxBufferPoolSize(128).set_option(settings);
    assert_eq!(settings.max_buffer_pool_size, 128);
    assert_eq!(settings.starting_buffer_size, Bytes(64_000));
}

#[test]
fn a_megabyte_is_a_thousand_kilobytes() {
    assert_eq!(Megabytes(3).to_bytes(), Kilobytes(3_000).to_bytes());
    assert_eq!(Kilobytes(7).to_bytes(), Bytes(7_000).to_bytes());
}

#[test]
fn options_commute_and_last_wins() {
    let start = EngineSettings::new();
    let one = MaxBufferPoolSize(8).set_option(InitialBufferPoolSize(4).set_option(start));
    let other = InitialBufferPoolSize(4).set_option(MaxBufferPoolSize(8).set_option(start));
    assert_eq!(one, other);
    let last = InitialBufferPoolSize(9).set_option(InitialBufferPoolSize(4).set_option(start));
    assert_eq!(last.buffer_pool_size, 9);
}
