use calc_os::hardware::SystemDriver;
use calc_os::system::{
    battery_percent, ram_total, ram_used, System, FAKEMEM_FLOOR, FAKEMEM_TOTAL,
};

#[test]
fn stand_in_memory_stays_within_the_total() {
    let mut system = System::new();
    for _ in 0..2000 {
        let used = system.memory_used();
        let total = system.memory_total();
        assert!(used <= total);
        assert!(used >= 1024);
        assert!(used < 1024 * 1024);
    }
}

#[test]
fn stand_in_has_a_mebibyte() {
    let mut system = System::new();
    assert_eq!(system.memory_total(), 1024 * 1024);
    assert_eq!(FAKEMEM_TOTAL, 1_048_576);
    assert_eq!(FAKEMEM_FLOOR, 1024);
}

#[test]
fn stand_in_samples_anew_on_each_call() {
    let mut system = System::new();
    let first = system.memory_used();
    let mut differs = false;
    for _ in 0..200 {
        if system.memory_used() != first {
            differs = true;
        }
    }
    assert!(differs);
}

#[test]
fn stand_in_remembers_its_last_sample() {
    let mut system = System::new();
    assert_eq!(system.last_used(), 0);
    let used = system.memory_used();
    assert_eq!(system.last_used(), used);
    system.memory_total();
    system.battery_level();
    assert_eq!(system.last_used(), used);
}

#[test]
fn stand_in_battery_is_a_percentage() {
    let mut system = System::new();
    assert!(system.battery_level() <= 100);
    assert_eq!(system.battery_level(), 100);
}

#[test]
fn device_memory_is_a_quarter_mebibyte() {
    assert_eq!(ram_total(), 0x4_0000);
    assert_eq!(ram_total(), 262_144);
}

#[test]
fn memory_in_use_is_the_depth_of_the_stack() {
    assert_eq!(ram_used(0x2004_0000), 0);
    assert_eq!(ram_used(0x2003_FFFC), 4);
    assert_eq!(ram_used(0x2003_F000), 0x1000);
    assert_eq!(ram_used(0x2000_0001), 0x3_FFFF);
    assert_eq!(ram_used(0x2000_0000), 0x4_0000);
}

#[test]
fn memory_in_use_never_exceeds_the_total() {
    assert_eq!(ram_used(0), 0x4_0000);
    assert_eq!(ram_used(0x1FFF_FFFF), 0x4_0000);
    assert_eq!(ram_used(0x2004_0001), 0);
    assert_eq!(ram_used(u32::MAX), 0);
    let mut pointer: u32 = 0x1FFF_0000;
    while pointer < 0x2005_0000 {
        assert!(ram_used(pointer) <= ram_total());
        pointer += 0x0333;
    }
}

#[test]
fn battery_charge_is_linear_between_empty_and_full() {
    assert_eq!(battery_percent(1862), 0);
    assert_eq!(battery_percent(1863), 0);
    assert_eq!(battery_percent(1870), 1);
    assert_eq!(battery_percent(2234), 50);
    assert_eq!(battery_percent(2605), 99);
    assert_eq!(battery_percent(2606), 100);
}

#[test]
fn battery_charge_is_held_to_a_percentage() {
    assert_eq!(battery_percent(0), 0);
    assert_eq!(battery_percent(1861), 0);
    assert_eq!(battery_percent(2607), 100);
    assert_eq!(battery_percent(4095), 100);
    assert_eq!(battery_percent(u32::MAX), 100);
    for counts in 0..5000 {
        assert!(battery_percent(counts) <= 100);
    }
}
