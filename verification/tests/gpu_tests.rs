use sysmon_companion::gpu::{
    counter_status_usable, decoded_names, describe_adapter, engine_groups, engine_key,
    instance_on_adapter, luid_of_key, name_end, select_adapter, AdapterDesc,
    ADAPTER_FLAG_SOFTWARE, MAX_ADAPTERS,
};

fn desc(name: &str, flags: u32) -> AdapterDesc {
    let mut description: Vec<u16> = name.encode_utf16().collect();
    description.resize(128, 0);
    AdapterDesc { description, dedicated_video_memory: 8 << 30, luid_low: 0xD1B6, luid_high: 0, flags }
}

#[test]
fn first_hardware_adapter_is_chosen() {
    let slots = vec![
        Some(desc("Microsoft Basic Render Driver", ADAPTER_FLAG_SOFTWARE)),
        None,
        Some(desc("GPU A", 0)),
        Some(desc("GPU B", 0)),
    ];
    assert_eq!(select_adapter(&slots), Some(2));
}

#[test]
fn other_flags_do_not_exclude() {
    let slots = vec![Some(desc("GPU", 1)), Some(desc("GPU 2", 0))];
    assert_eq!(select_adapter(&slots), Some(0));
}

#[test]
fn no_hardware_adapter() {
    let slots = vec![Some(desc("Soft", ADAPTER_FLAG_SOFTWARE | 1)), None];
    assert_eq!(select_adapter(&slots), None);
    assert_eq!(select_adapter(&Vec::new()), None);
}

#[test]
fn only_first_slots_are_examined() {
    let mut slots: Vec<Option<AdapterDesc>> = (0..MAX_ADAPTERS).map(|_| None).collect();
    slots.push(Some(desc("Late GPU", 0)));
    assert_eq!(select_adapter(&slots), None);
}

#[test]
fn name_stops_at_nul() {
    assert_eq!(name_end(&vec![65, 66, 0, 67]), 2);
    assert_eq!(name_end(&vec![65, 66]), 2);
    assert_eq!(name_end(&vec![0, 1]), 0);
}

#[test]
fn adapter_description() {
    let d = desc("NVIDIA GeForce RTX 4070 – Ω", 0);
    let g = describe_adapter(&d);
    assert_eq!(g.name, "NVIDIA GeForce RTX 4070 – Ω");
    assert_eq!(g.dedicated_total_bytes, 8 << 30);
    assert_eq!((g.luid_high, g.luid_low), (0, 0xD1B6));
}

#[test]
fn surrogate_pair_is_decoded() {
    let mut d = desc("", 0);
    d.description[0] = 0xD83D;
    d.description[1] = 0xDE80;
    d.description[2] = 0x47;
    assert_eq!(describe_adapter(&d).name, "\u{1F680}G");
}

#[test]
fn lone_surrogate_is_replaced() {
    let mut d = desc("", 0);
    d.description[0] = 0x41;
    d.description[1] = 0xD800;
    d.description[2] = 0x42;
    assert_eq!(describe_adapter(&d).name, "A\u{FFFD}B");
    d.description[0] = 0xDC00;
    d.description[1] = 0xD800;
    d.description[2] = 0xD800;
    d.description[3] = 0x43;
    assert_eq!(describe_adapter(&d).name, "\u{FFFD}\u{FFFD}\u{FFFD}C");
}

#[test]
fn engine_part_of_instance_names() {
    assert_eq!(
        engine_key("pid_1234_luid_0x00000000_0x0000D1B6_phys_0_eng_3_engtype_3D"),
        "_luid_0x00000000_0x0000D1B6_phys_0_eng_3_engtype_3D"
    );
    assert_eq!(engine_key("no marker here"), "no marker here");
}

#[test]
fn adapter_identifier_of_engine_part() {
    assert_eq!(
        luid_of_key("_luid_0x00000000_0x0000D1B6_phys_0_eng_3_engtype_3D"),
        Some((0, 0xD1B6))
    );
    assert_eq!(luid_of_key("_luid_0xffffffff_0x0001a2b3_phys_0"), Some((u32::MAX, 0x1A2B3)));
    assert_eq!(luid_of_key("_luid_0x0_0x5_"), Some((0, 5)));
    assert_eq!(luid_of_key("_luid_0x00000000_0x0000D1B6"), None);
    assert_eq!(luid_of_key("_luid_0x_0x5_"), None);
    assert_eq!(luid_of_key("_luid_0x000000000_0x5_"), None);
    assert_eq!(luid_of_key("_luid_0xZZ_0x5_"), None);
    assert_eq!(luid_of_key("_luid_0x1_5_"), None);
    assert_eq!(luid_of_key("pid_4_luid_0x0_0x5_"), None);
}

#[test]
fn real_counter_instance_names() {
    // Instance names as the GPU Engine counter set reports them.
    let names = [
        "pid_10372_luid_0x00000000_0x0000D1B6_phys_0_eng_0_engtype_3D",
        "pid_10372_luid_0x00000000_0x0000D1B6_phys_0_eng_1_engtype_VideoDecode",
        "pid_1912_luid_0x00000000_0x00010A3E_phys_0_eng_3_engtype_Copy",
    ];
    assert!(instance_on_adapter(names[0], 0, 0xD1B6));
    assert!(instance_on_adapter(names[1], 0, 0xD1B6));
    assert!(!instance_on_adapter(names[2], 0, 0xD1B6));
    assert!(instance_on_adapter(names[2], 0, 0x10A3E));
    assert!(!instance_on_adapter(names[0], 1, 0xD1B6));
    assert!(instance_on_adapter("pid_1_luid_0xFFFFFFFF_0x00000001_phys_0", -1, 1));
    assert!(!instance_on_adapter("no identifier", 0, 0));
}

#[test]
fn one_undecodable_name_discards_the_reading() {
    let names = vec![Some("a".to_string()), None, Some("b".to_string())];
    assert_eq!(decoded_names(&names), None);
    let names = vec![Some("a".to_string()), Some("b".to_string())];
    assert_eq!(decoded_names(&names), Some(vec!["a".to_string(), "b".to_string()]));
    assert_eq!(decoded_names(&Vec::new()), Some(Vec::new()));
}

#[test]
fn counters_grouped_by_engine_of_selected_adapter() {
    let names: Vec<String> = vec![
        "pid_1_luid_0x00000000_0x0000D1B6_phys_0_eng_0_engtype_3D",
        "pid_2_luid_0x00000000_0x0000D1B6_phys_0_eng_3_engtype_Copy",
        "pid_3_luid_0x00000000_0x0000AAAA_phys_0_eng_0_engtype_3D",
        "pid_4_luid_0x00000000_0x0000D1B6_phys_0_eng_0_engtype_3D",
        "garbage",
        "pid_5_luid_0x00000000_0x0000D1B6_phys_0_eng_3_engtype_Copy",
    ]
    .into_iter()
    .map(String::from)
    .collect();
    assert_eq!(
        engine_groups(&names, 0, 0xD1B6),
        vec![Some(0), Some(1), None, Some(0), None, Some(1)]
    );
}

#[test]
fn usable_counter_statuses() {
    assert!(counter_status_usable(0));
    assert!(counter_status_usable(1));
    assert!(!counter_status_usable(2));
    assert!(!counter_status_usable(0xC0000BBA));
}
