use av2::get_lidar_path;
use av2::get_log_dir;
use av2::get_split_dir;
use av2::paths::u64_to_decimal;

#[test]
fn decimal_zero() {
    assert_eq!(u64_to_decimal(0), "0");
}

#[test]
fn decimal_single_digit() {
    assert_eq!(u64_to_decimal(7), "7");
}

#[test]
fn decimal_round_number() {
    assert_eq!(u64_to_decimal(100_000_000), "100000000");
}

#[test]
fn decimal_all_digits() {
    assert_eq!(u64_to_decimal(9_876_543_210), "9876543210");
}

#[test]
fn decimal_largest_value() {
    assert_eq!(u64_to_decimal(u64::MAX), "18446744073709551615");
}

#[test]
fn lidar_path_layout() {
    let p = get_lidar_path("data/train/log0", 315967376899099000);
    assert_eq!(p, "data/train/log0/sensors/lidar/315967376899099000.feather");
}

#[test]
fn lidar_path_zero_timestamp() {
    assert_eq!(get_lidar_path("d", 0), "d/sensors/lidar/0.feather");
}

#[test]
fn split_dir_layout() {
    assert_eq!(get_split_dir("root", "sensor", "train"), "root/sensor/train");
}

#[test]
fn log_dir_layout() {
    assert_eq!(get_log_dir("root/sensor/train", "log0"), "root/sensor/train/log0");
}

#[test]
fn dirs_compose_into_lidar_path() {
    let split = get_split_dir("av2", "sensor", "val");
    let log = get_log_dir(&split, "ab-cd");
    let p = get_lidar_path(&log, 42);
    assert_eq!(p, "av2/sensor/val/ab-cd/sensors/lidar/42.feather");
}
