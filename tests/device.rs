use lpd8_obs::device::select_port;

fn names(list: &[&str]) -> Vec<String> {
    list.iter().map(|s| s.to_string()).collect()
}

#[test]
fn first_port_carrying_the_marker_is_chosen() {
    let ports = names(&["Midi Through:0", "Keystation 49", "LPD8:LPD8 MIDI 1", "LPD8 mk2"]);
    assert_eq!(select_port(&ports), Some(2));
}

#[test]
fn no_port_is_chosen_without_the_marker() {
    assert_eq!(select_port(&names(&["Midi Through:0", "lpd8 lowercase", "LPD"])), None);
    assert_eq!(select_port(&names(&[])), None);
}
