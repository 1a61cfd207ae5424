use arceos_tutorial::driver::{initcalls_len, one, traverse_drivers, CallEntry, Driver, Identity};
use arceos_tutorial::drivers::{drv0_init_fn, drv1_init_fn, drv2_init_fn};

type InitFn = fn() -> Driver<'static>;

static INIT_CALLS: [CallEntry<InitFn>; 3] = [
    CallEntry { init_fn: drv0_init_fn },
    CallEntry { init_fn: drv1_init_fn },
    CallEntry { init_fn: drv2_init_fn },
];

#[test]
fn info_keeps_name_and_compatible() {
    let d = Driver::info("rtc", "google,goldfish-rtc");
    assert_eq!(d.name, "rtc");
    assert_eq!(d.compatible, "google,goldfish-rtc");
}

#[test]
fn registered_drivers_describe_themselves() {
    let d0 = drv0_init_fn();
    assert_eq!((d0.name, d0.compatible), ("rtc", "google,goldfish-rtc"));
    let d1 = drv1_init_fn();
    assert_eq!((d1.name, d1.compatible), ("uart", "ns16550a"));
    let d2 = drv2_init_fn();
    assert_eq!((d2.name, d2.compatible), ("gpio-keys", "gpio-keys"));
}

#[test]
fn one_counts_each_entry_once() {
    let n = 0 + one(&INIT_CALLS[0]) + one(&INIT_CALLS[1]) + one(&INIT_CALLS[2]);
    assert_eq!(n, INIT_CALLS.len());
    assert_eq!(one(&"anything"), 1);
}

#[test]
fn identity_is_the_type_itself() {
    let e: Identity<CallEntry<InitFn>> = CallEntry { init_fn: drv1_init_fn };
    assert_eq!((e.init_fn)().name, "uart");
}

#[test]
fn traverse_reports_drivers_in_table_order() {
    let found = traverse_drivers(&INIT_CALLS);
    let pairs: Vec<(&str, &str)> = found.iter().map(|d| (d.name, d.compatible)).collect();
    assert_eq!(
        pairs,
        vec![("rtc", "google,goldfish-rtc"), ("uart", "ns16550a"), ("gpio-keys", "gpio-keys")]
    );
}

#[test]
fn traverse_of_no_entries_reports_nothing() {
    let none: [CallEntry<InitFn>; 0] = [];
    assert!(traverse_drivers(&none).is_empty());
}

#[test]
fn initcalls_len_counts_whole_entries() {
    assert_eq!(initcalls_len(0x1000, 0x1030, 16), 3);
    assert_eq!(initcalls_len(0x1000, 0x1000, 8), 0);
    let size = core::mem::size_of::<CallEntry<InitFn>>();
    let range = INIT_CALLS.as_ptr_range();
    assert_eq!(initcalls_len(range.start as usize, range.end as usize, size), 3);
}
