use audio_switch::device::collect_devices;
use audio_switch::selector::{device_matches, find_match};
use audio_switch::{AudioDevice, EndpointProbe, MatchCriterion};

fn device(id: &str, name: &str) -> AudioDevice {
    AudioDevice { id: id.to_string(), name: name.to_string() }
}

fn listing() -> Vec<AudioDevice> {
    vec![
        device("{0.0.0.00000000}.{aaa}", "Speakers (Realtek Audio)"),
        device("{0.0.0.00000000}.{bbb}", "Headphones (USB Headset)"),
        device("{0.0.0.00000000}.{ccc}", "USB Speaker"),
        device("{0.0.0.00000000}.{ddd}", "Headphone Jack"),
    ]
}

fn exact(id: &str) -> MatchCriterion {
    MatchCriterion::ExactId(id.to_string())
}

fn substring(text: &str) -> MatchCriterion {
    MatchCriterion::Substring(text.to_string())
}

#[test]
fn exact_id_matches_only_the_same_id() {
    let d = device("{id}", "Speakers");
    assert!(device_matches(&d, &exact("{id}")));
    assert!(!device_matches(&d, &exact("{ID}")));
    assert!(!device_matches(&d, &exact("{id")));
    assert!(!device_matches(&d, &exact("Speakers")));
}

#[test]
fn substring_matches_the_name_whatever_the_case() {
    let d = device("{id}", "Headphones (USB Headset)");
    assert!(device_matches(&d, &substring("headphone")));
    assert!(device_matches(&d, &substring("USB HEAD")));
    assert!(!device_matches(&d, &substring("speaker")));
}

#[test]
fn substring_matches_the_id_whatever_the_case() {
    let d = device("{0.0.0.00000000}.{ABC-def}", "Speakers");
    assert!(device_matches(&d, &substring("abc-DEF")));
    assert!(device_matches(&d, &substring("{0.0.0")));
}

#[test]
fn select_by_substring_with_no_match_finds_nothing() {
    assert_eq!(find_match(&listing(), &substring("bluetooth")), None);
}

#[test]
fn select_in_empty_listing_finds_nothing() {
    assert_eq!(find_match(&Vec::new(), &substring("")), None);
    assert_eq!(find_match(&Vec::new(), &exact("x")), None);
}

#[test]
fn select_by_substring_takes_the_first_of_several() {
    // "headphone" is in the second and in the fourth device
    assert_eq!(find_match(&listing(), &substring("headphone")), Some(1));
    // "usb" is in the second (name) and in the third
    assert_eq!(find_match(&listing(), &substring("usb")), Some(1));
    assert_eq!(find_match(&listing(), &substring("usb speaker")), Some(2));
}

#[test]
fn select_by_substring_is_the_same_every_time() {
    let devices = listing();
    let first = find_match(&devices, &substring("speaker"));
    for _ in 0..5 {
        assert_eq!(find_match(&devices, &substring("speaker")), first);
    }
    assert_eq!(first, Some(0));
}

#[test]
fn select_by_exact_id_finds_every_listed_id() {
    let devices = listing();
    for (place, d) in devices.iter().enumerate() {
        assert_eq!(find_match(&devices, &exact(&d.id)), Some(place));
    }
}

#[test]
fn select_by_exact_id_of_a_twice_listed_id_takes_the_first() {
    let devices = vec![device("a", "one"), device("b", "two"), device("a", "three")];
    assert_eq!(find_match(&devices, &exact("a")), Some(0));
}

#[test]
fn select_by_unknown_id_finds_nothing() {
    assert_eq!(find_match(&listing(), &exact("{0.0.0.00000000}.{zzz}")), None);
}

#[test]
fn enumerate_then_select_by_id_finds_that_id() {
    let probes = vec![
        EndpointProbe { id: Some("x".to_string()), name: None },
        EndpointProbe { id: None, name: Some("lost".to_string()) },
        EndpointProbe { id: Some("y".to_string()), name: Some("Y".to_string()) },
    ];
    let devices = collect_devices(&probes);
    for d in devices.iter() {
        let found = find_match(&devices, &exact(&d.id)).expect("listed id");
        assert_eq!(devices[found].id, d.id);
    }
}

#[test]
fn empty_substring_selects_the_first_device() {
    assert_eq!(find_match(&listing(), &substring("")), Some(0));
}
