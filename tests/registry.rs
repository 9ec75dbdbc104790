use my_tools::registry::{call_addon, check_keyword_uniqueness, Dispatched, Registry};
use my_tools::either::EitherAddon;
use my_tools::{HelloWorldAddon, IpNetworkAddon, MyToolsAddon, MyToolsError};

fn argv(words: &[&str]) -> Vec<String> {
    words.iter().map(|w| w.to_string()).collect()
}

fn output(r: Result<Dispatched, MyToolsError>) -> String {
    match r {
        Ok(Dispatched::Output(s)) => s,
        Ok(Dispatched::HelpRequested(_)) => panic!("unexpected help request"),
        Err(e) => panic!("unexpected error {:?}", e),
    }
}

#[test]
fn ipnet_get_network_with_mask() {
    let reg = Registry::new(vec![IpNetworkAddon]).unwrap();
    let r = reg.dispatch(&argv(&["ipnet", "get", "network", "192.168.1.10/255.255.255.0"]));
    assert_eq!(output(r), "192.168.1.0");
}

#[test]
fn ipnet_get_address_and_netmask_two_args() {
    let reg = Registry::new(vec![IpNetworkAddon]).unwrap();
    let r = reg.dispatch(&argv(&["ipnet", "get", "address", "10.0.0.5", "28"]));
    assert_eq!(output(r), "10.0.0.5");
    let r = reg.dispatch(&argv(&["ipnet", "get", "netmask", "10.0.0.5", "28"]));
    assert_eq!(output(r), "255.255.255.240");
}

#[test]
fn ipnet_parse_error_is_passed_through() {
    let reg = Registry::new(vec![IpNetworkAddon]).unwrap();
    let r = reg.dispatch(&argv(&["ipnet", "get", "network", "10.0.0.5/40"]));
    assert_eq!(
        r.err(),
        Some(MyToolsError::ParseCommandError(
            "Argument '40' is neither a valid CIDR nor a netmask".to_string()
        ))
    );
}

#[test]
fn ipnet_invalid_command() {
    let reg = Registry::new(vec![IpNetworkAddon]).unwrap();
    let r = reg.dispatch(&argv(&["ipnet", "get", "broadcast", "10.0.0.5/8"]));
    assert_eq!(
        r.err(),
        Some(MyToolsError::InvalidCommand("get broadcast 10.0.0.5/8".to_string()))
    );
}

#[test]
fn ipnet_help_request() {
    let reg = Registry::new(vec![IpNetworkAddon]).unwrap();
    let r = reg.dispatch(&argv(&["ipnet", "-h"]));
    match r {
        Ok(Dispatched::HelpRequested(page)) => {
            assert!(page.starts_with("\n=== Addon: ipnet ===\n"));
            assert!(page.contains("\tGet the IP netmask for a given IP object\n"));
            assert!(page.contains("\t\tmy_tools ipnet get network <ip> <mask>"));
        }
        _ => panic!("expected a help request"),
    }
}

#[test]
fn hello_scenarios() {
    let reg = Registry::new(vec![HelloWorldAddon]).unwrap();
    assert_eq!(output(reg.dispatch(&argv(&["hello"]))), "Hello, world!");
    assert_eq!(output(reg.dispatch(&argv(&["hello", "Ada"]))), "Hello, Ada!");
    assert!(matches!(
        reg.dispatch(&argv(&["hello", "a", "b"])),
        Err(MyToolsError::InvalidCommand(_))
    ));
}

#[test]
fn unknown_addon_is_reported() {
    let reg = Registry::new(vec![HelloWorldAddon]).unwrap();
    assert_eq!(
        reg.dispatch(&argv(&["ipnet", "get", "address", "1.2.3.4/8"])).err(),
        Some(MyToolsError::AddonNotFound("Addon 'ipnet' not found".to_string()))
    );
    assert_eq!(
        call_addon(&argv(&["nope"]), &vec![IpNetworkAddon]).err(),
        Some(MyToolsError::AddonNotFound("Addon 'nope' not found".to_string()))
    );
}

#[test]
fn duplicate_keywords_are_refused() {
    assert_eq!(check_keyword_uniqueness(&vec![HelloWorldAddon, HelloWorldAddon]), Err("hello".to_string()));
    assert!(Registry::new(vec![IpNetworkAddon, IpNetworkAddon]).is_err());
    assert_eq!(check_keyword_uniqueness(&vec![IpNetworkAddon]), Ok(()));
    assert_eq!(check_keyword_uniqueness::<IpNetworkAddon>(&vec![]), Ok(()));
}

#[test]
fn mixed_registry_dispatches_by_keyword() {
    let reg = Registry::new(vec![
        EitherAddon::First(HelloWorldAddon),
        EitherAddon::Second(IpNetworkAddon),
    ])
    .unwrap();
    assert_eq!(output(reg.dispatch(&argv(&["hello", "Ada"]))), "Hello, Ada!");
    assert_eq!(
        output(reg.dispatch(&argv(&["ipnet", "get", "network", "192.168.1.10/255.255.255.0"]))),
        "192.168.1.0"
    );
    match reg.dispatch(&argv(&["ipnet", "--help"])) {
        Ok(Dispatched::HelpRequested(page)) => assert_eq!(page, IpNetworkAddon.get_help()),
        _ => panic!("expected a help request"),
    }
    assert!(matches!(
        reg.dispatch(&argv(&["other"])),
        Err(MyToolsError::AddonNotFound(_))
    ));
}

#[test]
fn mixed_registry_refuses_shared_keyword() {
    let r = Registry::new(vec![
        EitherAddon::<HelloWorldAddon, IpNetworkAddon>::Second(IpNetworkAddon),
        EitherAddon::First(HelloWorldAddon),
        EitherAddon::Second(IpNetworkAddon),
    ]);
    assert!(r.is_err());
}

#[test]
fn order_of_addons_does_not_change_dispatch() {
    let a = Registry::new(vec![
        EitherAddon::First(HelloWorldAddon),
        EitherAddon::Second(IpNetworkAddon),
    ])
    .unwrap();
    let b = Registry::new(vec![
        EitherAddon::Second(IpNetworkAddon),
        EitherAddon::First(HelloWorldAddon),
    ])
    .unwrap();
    for words in [
        vec!["hello", "-h"],
        vec!["ipnet", "--help"],
        vec!["ipnet", "get", "address", "10.0.0.5", "28"],
        vec!["hello"],
        vec!["nope"],
    ] {
        let args = argv(&words);
        let (ra, rb) = (a.dispatch(&args), b.dispatch(&args));
        match (ra, rb) {
            (Ok(Dispatched::Output(x)), Ok(Dispatched::Output(y))) => assert_eq!(x, y),
            (Ok(Dispatched::HelpRequested(x)), Ok(Dispatched::HelpRequested(y))) => assert_eq!(x, y),
            (Err(x), Err(y)) => assert_eq!(x, y),
            _ => panic!("the two orders disagree"),
        }
    }
}

#[test]
fn first_repeated_keyword_is_reported() {
    let r = check_keyword_uniqueness(&vec![
        EitherAddon::First(HelloWorldAddon),
        EitherAddon::Second(IpNetworkAddon),
        EitherAddon::Second(IpNetworkAddon),
        EitherAddon::First(HelloWorldAddon),
    ]);
    assert_eq!(r, Err("ipnet".to_string()));
}
