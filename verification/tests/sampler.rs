use session_control::health::Sys;
use session_control::sampler::{memory_in_use, Sampler};

#[test]
fn sampler_hands_the_load_on() {
    let sampler = Sampler::new();
    assert_eq!(sampler.readings(520).load, 520);
    assert_eq!(sampler.readings(-1).load, -1);
    assert_eq!(sampler.readings(i64::MAX).load, i64::MAX);
}

#[test]
fn sampler_hands_on_the_disks_that_it_holds() {
    let mut sampler = Sampler::new();
    let first = sampler.readings(0);
    let second = sampler.readings(7);
    assert_eq!(first.disks, second.disks);
    sampler.refresh();
    let third = sampler.readings(0);
    let fourth = sampler.readings(0);
    assert_eq!(third.disks, fourth.disks);
}

#[test]
fn sampled_memory_in_use_is_no_more_than_installed() {
    let mut sampler = Sampler::new();
    let readings = sampler.readings(0);
    assert!(readings.ram_used <= readings.ram_total);
    sampler.refresh();
    let readings = sampler.readings(0);
    assert!(readings.ram_used <= readings.ram_total);
}

#[test]
fn memory_in_use_is_installed_less_available() {
    assert_eq!(memory_in_use(16, 4), 12);
    assert_eq!(memory_in_use(16, 16), 0);
    assert_eq!(memory_in_use(16, 0), 16);
    assert_eq!(memory_in_use(16, 17), 0);
    assert_eq!(memory_in_use(0, 0), 0);
    assert_eq!(memory_in_use(u64::MAX, 1), u64::MAX - 1);
    assert_eq!(memory_in_use(0, u64::MAX), 0);
}

#[test]
fn sampled_machine_makes_a_snapshot() {
    let mut sampler = Sampler::new();
    let mut sys = Sys::new(sampler.readings(0));
    let first = sys.render();
    assert!(first.contains("disks: \n"));
    assert!(first.contains("\nload average: 0 \ncpu average: 0% system uptime: "));
    assert!(first.ends_with(" hrs"));
    sampler.refresh();
    sys.refresh(sampler.readings(1500));
    let second = sys.render();
    assert!(second.contains("\nload average: 1.5 \ncpu average: "));
    let shown = sys.into_display();
    assert_eq!(shown.cpu_avg.0, 1500);
    assert!(shown.cpu_avg.1 >= 1 && shown.cpu_avg.1 <= 1500);
}
