use zeroconf::browser::{
    browse_step, filter_addresses, start_browse, AddressFamily, BrowseEvent, BrowserState,
    DiscoveryEvent, IpAddress,
};
use zeroconf::error::Error;
use zeroconf::service::{
    assign_instance_name, commit_txt_outcome, registration_step, renamed_instance,
    start_registration, RegistrationEvent, RegistrationState,
};
use zeroconf::service_type::ServiceType;
use zeroconf::txt_record::TxtRecord;

fn http_tcp() -> ServiceType {
    ServiceType::new("http", "tcp").unwrap()
}

#[test]
fn service_type_accepts_valid_parts() {
    let t = http_tcp();
    assert_eq!(t.name().as_str(), "http");
    assert_eq!(t.protocol().as_str(), "tcp");
    assert!(t.sub_types().is_empty());
    assert_eq!(t.wire_format(), "_http._tcp");
}

#[test]
fn service_type_rejects_empty_or_separator_parts() {
    assert_eq!(ServiceType::new("", "tcp").unwrap_err(), Error::EncodingError);
    assert_eq!(ServiceType::new("http", "").unwrap_err(), Error::EncodingError);
    assert_eq!(ServiceType::new("ht.tp", "tcp").unwrap_err(), Error::EncodingError);
    assert_eq!(ServiceType::new("http", "t.cp").unwrap_err(), Error::EncodingError);
}

#[test]
fn service_type_validates_sub_types() {
    let t = ServiceType::with_sub_types("http", "tcp", vec!["printer".to_string()]).unwrap();
    assert_eq!(t.sub_types().len(), 1);
    assert_eq!(
        ServiceType::with_sub_types("http", "tcp", vec!["bad.sub".to_string()]).unwrap_err(),
        Error::EncodingError
    );
}

#[test]
fn registration_fires_once_on_success() {
    let state = start_registration(RegistrationState::Created);
    assert_eq!(state, RegistrationState::Registering);
    let event = RegistrationEvent::Success {
        name: "MyService".to_string(),
        domain: "local".to_string(),
    };
    let (state, out) = registration_step(state, event, http_tcp());
    assert_eq!(state, RegistrationState::Registered);
    let reg = out.unwrap().unwrap();
    assert_eq!(reg.name().as_str(), "MyService");
    assert_eq!(reg.domain().as_str(), "local");
    assert_eq!(reg.service_type().name().as_str(), "http");
    // a later event fires no second callback and moves nothing
    let event = RegistrationEvent::Failure { message: "late".to_string() };
    let (state, out) = registration_step(state, event, http_tcp());
    assert_eq!(state, RegistrationState::Registered);
    assert!(out.is_none());
}

#[test]
fn registration_collision_and_failure_are_typed() {
    let event = RegistrationEvent::Collision { message: "name taken".to_string() };
    let (state, out) = registration_step(RegistrationState::Registering, event, http_tcp());
    assert_eq!(state, RegistrationState::NameCollision);
    assert_eq!(
        out.unwrap().unwrap_err(),
        Error::RegistrationError { message: "name taken".to_string() }
    );

    let event = RegistrationEvent::Failure { message: "rejected".to_string() };
    let (state, out) = registration_step(RegistrationState::Registering, event, http_tcp());
    assert_eq!(state, RegistrationState::Failed);
    assert_eq!(
        out.unwrap().unwrap_err(),
        Error::RegistrationError { message: "rejected".to_string() }
    );
}

#[test]
fn events_before_starting_are_ignored() {
    let event = RegistrationEvent::Success {
        name: "x".to_string(),
        domain: "local".to_string(),
    };
    let (state, out) = registration_step(RegistrationState::Created, event, http_tcp());
    assert_eq!(state, RegistrationState::Created);
    assert!(out.is_none());
}

#[test]
fn txt_commit_rejection_carries_the_diagnostic() {
    assert_eq!(commit_txt_outcome(0, String::new()), Ok(()));
    assert_eq!(
        commit_txt_outcome(-65540, "record too large".to_string()),
        Err(Error::RegistrationError { message: "record too large".to_string() })
    );
}

#[test]
fn second_registration_of_a_taken_name_is_renamed() {
    let taken = vec!["MyService".to_string()];
    let accepted = assign_instance_name("MyService", &taken, 2);
    assert_ne!(accepted, "MyService");
    assert_eq!(accepted, "MyService-2");
    // an untaken name is accepted as requested
    let accepted = assign_instance_name("Other", &taken, 2);
    assert_eq!(accepted, "Other");
}

#[test]
fn rename_suffix_numbers_the_attempt() {
    assert_eq!(renamed_instance("svc", 2), "svc-2");
    assert_eq!(renamed_instance("svc", 35), "svc-35");
    assert_eq!(renamed_instance("svc", 0), "svc-0");
}

#[test]
fn browse_add_is_delivered_unresolved_and_asks_for_a_resolve() {
    let state = start_browse(BrowserState::Created);
    let event = BrowseEvent::Added {
        name: "MyService".to_string(),
        domain: "local".to_string(),
    };
    let step = browse_step(state, event, http_tcp(), AddressFamily::Unspecified);
    assert_eq!(step.state, BrowserState::Browsing);
    let req = step.resolve.unwrap();
    assert_eq!(req.name, "MyService");
    assert_eq!(req.domain, "local");
    match step.emit.unwrap().unwrap() {
        DiscoveryEvent::Added(d) => {
            assert_eq!(d.name().as_str(), "MyService");
            assert_eq!(d.domain().as_str(), "local");
            assert!(d.host().is_none());
            assert!(d.port().is_none());
            assert!(d.txt().is_none());
        },
        DiscoveryEvent::Removed(_) => panic!("an add must be delivered as Added"),
    }
}

#[test]
fn browse_removal_is_delivered() {
    let event = BrowseEvent::Removed {
        name: "Gone".to_string(),
        domain: "local".to_string(),
    };
    let step = browse_step(BrowserState::Browsing, event, http_tcp(), AddressFamily::Unspecified);
    match step.emit.unwrap().unwrap() {
        DiscoveryEvent::Removed(d) => assert_eq!(d.name().as_str(), "Gone"),
        DiscoveryEvent::Added(_) => panic!("a removal must be delivered as Removed"),
    }
}

#[test]
fn resolve_failure_does_not_terminate_the_browse() {
    let event = BrowseEvent::ResolveFailed { name: "Flaky".to_string() };
    let step = browse_step(BrowserState::Browsing, event, http_tcp(), AddressFamily::Unspecified);
    // the browse goes on: state unchanged, the failure typed and named
    assert_eq!(step.state, BrowserState::Browsing);
    assert!(step.resolve.is_none());
    assert_eq!(
        step.emit.unwrap().unwrap_err(),
        Error::ResolveError { name: "Flaky".to_string() }
    );
    // and a later instance still comes through
    let event = BrowseEvent::Added {
        name: "Healthy".to_string(),
        domain: "local".to_string(),
    };
    let step = browse_step(step.state, event, http_tcp(), AddressFamily::Unspecified);
    assert!(step.emit.unwrap().is_ok());
}

#[test]
fn address_family_filter_keeps_only_the_asked_family() {
    let addrs = vec![
        IpAddress::V4(0x7f000001),
        IpAddress::V6(1),
        IpAddress::V4(0x0a000001),
    ];
    assert_eq!(
        filter_addresses(addrs.clone(), AddressFamily::V4),
        vec![IpAddress::V4(0x7f000001), IpAddress::V4(0x0a000001)]
    );
    assert_eq!(
        filter_addresses(addrs.clone(), AddressFamily::V6),
        vec![IpAddress::V6(1)]
    );
    assert_eq!(filter_addresses(addrs.clone(), AddressFamily::Unspecified), addrs);
}

#[test]
fn register_and_browse_scenario() {
    // register ("MyService", "_http._tcp", port 8080) with TXT {"foo": "bar"}
    let mut txt = TxtRecord::new();
    txt.insert(b"foo".to_vec(), b"bar".to_vec()).unwrap();
    let state = start_registration(RegistrationState::Created);
    let event = RegistrationEvent::Success {
        name: "MyService".to_string(),
        domain: "local".to_string(),
    };
    let (_, out) = registration_step(state, event, http_tcp());
    let reg = out.unwrap().unwrap();
    assert_eq!(reg.name().as_str(), "MyService");

    // a browser for _http._tcp sees the instance appear and resolve
    let state = start_browse(BrowserState::Created);
    let event = BrowseEvent::Added {
        name: "MyService".to_string(),
        domain: "local".to_string(),
    };
    let step = browse_step(state, event, http_tcp(), AddressFamily::Unspecified);
    assert!(step.resolve.is_some());

    let wire = txt.encode();
    let event = BrowseEvent::Resolved {
        name: "MyService".to_string(),
        domain: "local".to_string(),
        host: "myhost.local".to_string(),
        port: 8080,
        addresses: vec![IpAddress::V4(0xc0a80101)],
        txt: TxtRecord::decode(&wire).unwrap(),
    };
    let step = browse_step(step.state, event, http_tcp(), AddressFamily::Unspecified);
    match step.emit.unwrap().unwrap() {
        DiscoveryEvent::Added(d) => {
            assert_eq!(d.name().as_str(), "MyService");
            assert_eq!(d.host().as_deref(), Some("myhost.local"));
            assert_eq!(*d.port(), Some(8080));
            assert_eq!(d.addresses(), &vec![IpAddress::V4(0xc0a80101)]);
            let txt = d.txt().as_ref().unwrap();
            assert_eq!(txt.get(b"foo").unwrap().as_slice(), b"bar");
        },
        DiscoveryEvent::Removed(_) => panic!("the resolved instance must be delivered as Added"),
    }
}
