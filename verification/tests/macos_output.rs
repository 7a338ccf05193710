use default_mac::macos::{default_interface, get_mac, info_from_capture, MAC_PATTERN};
use default_mac::{is_valid_mac, MacError};

const ROUTE_OUTPUT: &str = "   route to: default\ndestination: default\n       mask: default\n    gateway: 192.168.1.1\n  interface: en0\n      flags: <UP,GATEWAY,DONE,STATIC,PRCLONING,GLOBAL>\n recvpipe  sendpipe  ssthresh  rtt,msec    rttvar  hopcount      mtu     expire\n       0         0         0         0         0         0      1500         0 \n";

#[test]
fn interface_is_the_last_field_of_the_interface_row() {
    assert_eq!(default_interface(ROUTE_OUTPUT), Ok("en0".to_string()));
}

#[test]
fn first_row_that_mentions_the_interface_decides() {
    assert_eq!(default_interface("interface: en1\ninterface: en2\n"), Ok("en1".to_string()));
    assert_eq!(default_interface("x\nthe interface is   utun3  \n"), Ok("utun3".to_string()));
}

#[test]
fn a_row_that_is_only_the_label_gives_the_label() {
    assert_eq!(default_interface("interface"), Ok("interface".to_string()));
    assert_eq!(default_interface("interface:\n"), Ok("interface:".to_string()));
}

#[test]
fn output_without_an_interface_row_is_a_command_error() {
    assert_eq!(default_interface(""), Err(MacError::CommandError));
    assert_eq!(default_interface("route: writing to routing socket: not in table\n"), Err(
        MacError::CommandError
    ));
    assert_eq!(default_interface("inter\nface\n"), Err(MacError::CommandError));
    assert_eq!(default_interface("Interface: en0\n"), Err(MacError::CommandError));
}

#[test]
fn address_is_found_in_the_command_output() {
    let info = get_mac("en0", "Ethernet Address: a4:83:e7:12:34:56 (Hardware Port: Wi-Fi)\n").unwrap();
    assert_eq!(info.name, "en0");
    assert_eq!(info.addr, "a4:83:e7:12:34:56");
    assert!(is_valid_mac(&info.addr));
}

#[test]
fn the_first_address_in_the_output_is_taken() {
    let info = get_mac("en0", "x 00:1A:2B:3C:4D:5E y AA:BB:CC:DD:EE:FF").unwrap();
    assert_eq!(info.addr, "00:1A:2B:3C:4D:5E");
    let info = get_mac("en0", "AA:BB:CC:DD:EE:FF:00:11").unwrap();
    assert_eq!(info.addr, "AA:BB:CC:DD:EE:FF");
}

#[test]
fn the_address_is_cut_out_of_its_surroundings() {
    let output = "Ethernet Address: a4:83:e7:12:34:56 (Hardware Port: Wi-Fi)\n";
    let info = get_mac("en0", output).unwrap();
    assert_ne!(info.addr, output);
    assert_ne!(info.addr, MAC_PATTERN);
    assert_eq!(info.addr.len(), 17);
}

#[test]
fn output_without_an_address_is_a_command_error() {
    assert_eq!(get_mac("en0", "").unwrap_err(), MacError::CommandError);
    assert_eq!(get_mac("en0", "Ethernet Address: N/A (Hardware Port: Bridge)\n").unwrap_err(), MacError::CommandError);
    assert_eq!(get_mac("en0", "a4:83:e7:12:34\n").unwrap_err(), MacError::CommandError);
    assert_eq!(get_mac("en0", "a4-83-e7-12-34-56\n").unwrap_err(), MacError::CommandError);
}

#[test]
fn nothing_captured_is_a_command_error() {
    assert_eq!(info_from_capture("en0", None).unwrap_err(), MacError::CommandError);
}

#[test]
fn a_capture_of_the_right_form_becomes_the_address() {
    let info = info_from_capture("en5", Some("0a:1B:2c:3D:4e:5F".to_string())).unwrap();
    assert_eq!(info.name, "en5");
    assert_eq!(info.addr, "0a:1B:2c:3D:4e:5F");
}

#[test]
fn a_capture_of_the_wrong_form_is_an_invalid_mac_format() {
    assert_eq!(info_from_capture("en0", Some("0a:1B:2c:3D:4e".to_string())).unwrap_err(), MacError::InvalidMacFormat);
    assert_eq!(info_from_capture("en0", Some(String::new())).unwrap_err(), MacError::InvalidMacFormat);
    assert_eq!(
        info_from_capture("en0", Some("0a:1B:2c:3D:4e:5F ".to_string())).unwrap_err(),
        MacError::InvalidMacFormat
    );
}
