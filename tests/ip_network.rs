use ipnetwork::Ipv4Network;
use my_tools::netspec::{format_ipv4, is_netmask, parse_dotted_quad, parse_network};
use my_tools::{arg_to_ipv4network, MyToolsError, NetworkSpec, NetworkSpecError};

const LOCALHOST: u32 = 0x7f00_0001;

fn net(address: u32, prefix: u8) -> NetworkSpec {
    NetworkSpec::new(address, prefix).unwrap()
}

// One argument

#[test]
fn arg_to_ipv4network_test_1_arg_ip_nok() {
    let arg1 = "this is not an ip/8";
    let arg_object = arg_to_ipv4network(arg1, None);
    assert_eq!(
        arg_object.unwrap_err(),
        MyToolsError::ParseCommandError(format!(
            "Invalid IP address: '{}'",
            arg1.split_once("/").unwrap().0
        ))
    )
}

#[test]
fn arg_to_ipv4network_test_1_arg_no_separator() {
    let arg1 = "127.0.0.1-8";
    let arg_object = arg_to_ipv4network(arg1, None);
    assert_eq!(
        arg_object.unwrap_err(),
        MyToolsError::ParseCommandError("Separator '/' is missing".to_string())
    )
}

#[test]
fn arg_to_ipv4network_test_1_arg_ip_ok_cidr_or_netmask_missing_1() {
    let arg1 = "127.0.0.1";
    let arg_object = arg_to_ipv4network(arg1, None);
    assert_eq!(
        arg_object.unwrap_err(),
        MyToolsError::ParseCommandError("Separator '/' is missing".to_string())
    )
}

#[test]
fn arg_to_ipv4network_test_1_arg_ip_ok_cidr_or_netmask_missing_2() {
    let arg1 = "127.0.0.1/";
    let arg_object = arg_to_ipv4network(arg1, None);
    assert_eq!(
        arg_object.unwrap_err(),
        MyToolsError::ParseCommandError("Argument is missing a CIDR or a netmask".to_string())
    )
}

#[test]
fn arg_to_ipv4network_test_1_arg_ip_ok_cidr_ok() {
    let arg1 = "127.0.0.1/24";
    let arg_object = arg_to_ipv4network(arg1, None);
    assert_eq!(arg_object.unwrap(), net(LOCALHOST, 24))
}

#[test]
fn arg_to_ipv4network_test_1_arg_ip_ok_cidr_nok() {
    let arg1 = "127.0.0.1/33";
    let arg_object = arg_to_ipv4network(arg1, None);
    assert_eq!(
        arg_object.unwrap_err(),
        MyToolsError::ParseCommandError(format!(
            "Argument '{}' is neither a valid CIDR nor a netmask",
            arg1.split_once("/").unwrap().1
        ))
    )
}

#[test]
fn arg_to_ipv4network_test_1_arg_ip_ok_netmask_ok() {
    let arg1 = "127.0.0.1/255.0.0.0";
    let arg_object = arg_to_ipv4network(arg1, None);
    assert_eq!(arg_object.unwrap(), net(LOCALHOST, 8))
}

#[test]
fn arg_to_ipv4network_test_1_arg_ip_ok_netmask_nok() {
    let arg1 = "127.0.0.1/255.255.255.256";
    let arg_object = arg_to_ipv4network(arg1, None);
    assert_eq!(
        arg_object.unwrap_err(),
        MyToolsError::ParseCommandError(format!(
            "Argument '{}' is neither a valid CIDR nor a netmask",
            arg1.split_once("/").unwrap().1
        ))
    )
}

// Two arguments

#[test]
fn arg_to_ipv4network_test_2_args_ip_nok_1() {
    let arg1 = "this is not an ip";
    let arg2 = "8";
    let arg_object = arg_to_ipv4network(arg1, Some(arg2));
    assert_eq!(
        arg_object.unwrap_err(),
        MyToolsError::ParseCommandError(format!("Invalid IP address: '{}'", arg1))
    )
}

#[test]
fn arg_to_ipv4network_test_2_args_ip_nok_2() {
    let arg1 = "127.0.0.256";
    let arg2 = "8";
    let arg_object = arg_to_ipv4network(arg1, Some(arg2));
    assert_eq!(
        arg_object.unwrap_err(),
        MyToolsError::ParseCommandError(format!("Invalid IP address: '{}'", arg1))
    )
}

#[test]
fn arg_to_ipv4network_test_2_arg_ip_ok_cidr_or_netmask_missing() {
    let arg1 = "127.0.0.1";
    let arg2 = "";
    let arg_object = arg_to_ipv4network(arg1, Some(arg2));
    assert_eq!(
        arg_object.unwrap_err(),
        MyToolsError::ParseCommandError("Argument is missing a CIDR or a netmask".to_string())
    )
}

#[test]
fn arg_to_ipv4network_test_2_args_ip_ok_cidr_ok() {
    let arg_object = arg_to_ipv4network("127.0.0.1", Some("8")).unwrap();
    let ip_object = net(LOCALHOST, 8);
    assert_eq!(arg_object, ip_object)
}

#[test]
fn arg_to_ipv4network_test_2_args_ip_ok_cidr_nok() {
    let arg2 = "33";
    let arg_object = arg_to_ipv4network("127.0.0.1", Some(arg2));
    assert_eq!(
        arg_object.unwrap_err(),
        MyToolsError::ParseCommandError(format!(
            "Argument '{}' is neither a valid CIDR nor a netmask",
            arg2
        ))
    )
}

#[test]
fn arg_to_ipv4network_test_2_args_ip_ok_netmask_ok() {
    let arg_object = arg_to_ipv4network("127.0.0.1", Some("255.255.255.0")).unwrap();
    let ip_object = net(LOCALHOST, 24);
    assert_eq!(arg_object, ip_object)
}

#[test]
fn arg_to_ipv4network_test_2_args_ip_ok_netmask_nok_1() {
    let arg2 = "255.255.255.256";
    let arg_object = arg_to_ipv4network("127.0.0.1", Some(arg2));
    assert_eq!(
        arg_object.unwrap_err(),
        MyToolsError::ParseCommandError(format!(
            "Argument '{}' is neither a valid CIDR nor a netmask",
            arg2
        ))
    )
}

#[test]
fn arg_to_ipv4network_test_2_args_ip_ok_netmask_nok_2() {
    let arg2 = "255.255.0.128";
    let arg_object = arg_to_ipv4network("127.0.0.1", Some(arg2));
    assert_eq!(
        arg_object.unwrap_err(),
        MyToolsError::ParseCommandError(format!(
            "Argument '{}' is neither a valid CIDR nor a netmask",
            arg2
        ))
    )
}

// Further cases

#[test]
fn every_prefix_up_to_32_is_accepted() {
    for c in 0u8..=32 {
        let n = parse_network(&format!("10.1.2.3/{}", c), None).unwrap();
        assert_eq!(n, net(0x0a01_0203, c));
        assert_eq!(n.prefix(), c);
    }
}

#[test]
fn prefixes_over_32_are_refused() {
    for c in [33u32, 64, 255, 256, 1000] {
        let s = c.to_string();
        assert_eq!(
            parse_network(&format!("10.1.2.3/{}", s), None),
            Err(NetworkSpecError::InvalidPrefixOrMask(s.clone()))
        );
    }
}

#[test]
fn plus_sign_and_leading_zeros_in_prefix() {
    assert_eq!(parse_network("10.0.0.1/+8", None).unwrap(), net(0x0a00_0001, 8));
    assert_eq!(parse_network("10.0.0.1/008", None).unwrap(), net(0x0a00_0001, 8));
}

#[test]
fn netmask_accepted_gives_its_prefix() {
    assert_eq!(parse_network("1.2.3.4", Some("255.255.255.0")).unwrap().prefix(), 24);
    assert_eq!(parse_network("1.2.3.4", Some("0.0.0.0")).unwrap().prefix(), 0);
    assert_eq!(parse_network("1.2.3.4", Some("255.255.255.255")).unwrap().prefix(), 32);
    assert_eq!(parse_network("1.2.3.4", Some("255.255.128.0")).unwrap().prefix(), 17);
}

#[test]
fn netmask_rule_on_bits() {
    assert!(is_netmask(0xffff_ff00));
    assert!(is_netmask(0));
    assert!(is_netmask(u32::MAX));
    assert!(!is_netmask(0xffff_0080));
    assert!(!is_netmask(0x0000_00ff));
    assert!(!is_netmask(0x8000_0001));
}

#[test]
fn one_and_two_argument_forms_agree() {
    for (ip, suffix) in [
        ("192.168.1.10", "255.255.255.0"),
        ("10.0.0.5", "28"),
        ("10.0.0.5", "33"),
        ("10.0.0.5", "255.0.255.0"),
        ("10.0.0.x", "8"),
    ] {
        assert_eq!(
            parse_network(&format!("{}/{}", ip, suffix), None),
            parse_network(ip, Some(suffix))
        );
    }
}

#[test]
fn missing_separator_and_missing_suffix() {
    assert_eq!(parse_network("10.0.0.1", None), Err(NetworkSpecError::MissingSeparator));
    assert_eq!(parse_network("10.0.0.1/", None), Err(NetworkSpecError::MissingPrefixOrMask));
    assert_eq!(parse_network("10.0.0.1", Some("")), Err(NetworkSpecError::MissingPrefixOrMask));
}

#[test]
fn invalid_address_comes_before_missing_suffix() {
    assert_eq!(
        parse_network("10.0.0/", None),
        Err(NetworkSpecError::InvalidAddress("10.0.0".to_string()))
    );
}

#[test]
fn split_happens_at_first_slash() {
    assert_eq!(
        parse_network("10.0.0.1/8/8", None),
        Err(NetworkSpecError::InvalidPrefixOrMask("8/8".to_string()))
    );
}

#[test]
fn dotted_quad_grammar() {
    assert_eq!(parse_dotted_quad("127.0.0.1"), Some(LOCALHOST));
    assert_eq!(parse_dotted_quad("255.255.255.255"), Some(u32::MAX));
    assert_eq!(parse_dotted_quad("0.0.0.0"), Some(0));
    assert_eq!(parse_dotted_quad("01.0.0.1"), None);
    assert_eq!(parse_dotted_quad("1.2.3"), None);
    assert_eq!(parse_dotted_quad("1.2.3.4.5"), None);
    assert_eq!(parse_dotted_quad("1.2.3.4."), None);
    assert_eq!(parse_dotted_quad("1..3.4"), None);
    assert_eq!(parse_dotted_quad("1.2.3.1000"), None);
    assert_eq!(parse_dotted_quad(" 1.2.3.4"), None);
    assert_eq!(parse_dotted_quad(""), None);
}

#[test]
fn format_round_trips() {
    for a in [0u32, 1, 0x7f00_0001, 0x0a00_00ff, 0xc0a8_010a, u32::MAX, 0x6400_0a09] {
        let s = format_ipv4(a);
        assert_eq!(parse_dotted_quad(&s), Some(a));
    }
    assert_eq!(format_ipv4(0xc0a8_010a), "192.168.1.10");
    assert_eq!(format_ipv4(0x0a00_0005), "10.0.0.5");
    assert_eq!(format_ipv4(0), "0.0.0.0");
}

#[test]
fn mask_and_network_address_agree_with_ipnetwork() {
    for (text, address, prefix) in [
        ("192.168.1.10/24", 0xc0a8_010au32, 24u8),
        ("10.0.0.5/28", 0x0a00_0005, 28),
        ("10.9.0.32/16", 0x0a09_0020, 16),
        ("1.2.3.4/0", 0x0102_0304, 0),
        ("1.2.3.4/32", 0x0102_0304, 32),
    ] {
        let n = net(address, prefix);
        let expected: Ipv4Network = text.parse().unwrap();
        assert_eq!(n.mask(), u32::from(expected.mask()));
        assert_eq!(n.network_address(), u32::from(expected.network()));
        assert_eq!(n.address(), u32::from(expected.ip()));
    }
    assert_eq!(net(0xc0a8_010a, 24).mask(), 0xffff_ff00);
    assert_eq!(net(0xc0a8_010a, 24).network_address(), 0xc0a8_0100);
}

#[test]
fn network_spec_new_checks_prefix() {
    assert!(NetworkSpec::new(1, 32).is_some());
    assert!(NetworkSpec::new(1, 33).is_none());
}

#[test]
fn parse_errors_become_command_errors() {
    assert_eq!(
        NetworkSpecError::InvalidPrefixOrMask("x".to_string()).to_error(),
        MyToolsError::ParseCommandError(
            "Argument 'x' is neither a valid CIDR nor a netmask".to_string()
        )
    );
}
