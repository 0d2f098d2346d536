use ibc_port::path::{capability_counter_path, capability_path, port_path};
use ibc_port::{Capability, Error, Ibc, Key, PortId, Snapshot};

fn stored_u64(value: u64) -> Vec<u8> {
    value.to_le_bytes().to_vec()
}

fn stored_text(text: &str) -> Vec<u8> {
    let mut bytes = (text.len() as u32).to_le_bytes().to_vec();
    bytes.extend_from_slice(text.as_bytes());
    bytes
}

fn key_of(segments: &[&str]) -> Key {
    Key { segments: segments.iter().map(|s| s.to_string()).collect() }
}

fn transfer() -> PortId {
    PortId::parse("transfer").unwrap()
}

/// A store in which capability `index` owns the port, and the port is the
/// one recorded for the capability.
fn bound(port: &PortId, owner: u64, index: u64) -> Snapshot {
    let mut snapshot = Snapshot::new();
    snapshot.write(port_path(port), stored_u64(owner));
    snapshot.write(capability_path(index), stored_text(port.as_str()));
    snapshot
}

#[test]
fn created_port_with_capability_is_accepted() {
    let key = key_of(&["IBC", "channelEnds", "ports", "transfer"]);
    let ibc = Ibc::new(Snapshot::new(), bound(&transfer(), 3, 3));
    assert!(matches!(ibc.validate_port(&key), Ok(true)));
    let cap = ibc.lookup_module_by_port(&transfer()).unwrap();
    assert_eq!(cap.index(), 3);
    assert!(ibc.authenticate(&cap, &transfer()));
}

#[test]
fn deleted_port_is_rejected() {
    let key = key_of(&["IBC", "channelEnds", "ports", "transfer"]);
    let ibc = Ibc::new(bound(&transfer(), 3, 3), Snapshot::new());
    match ibc.validate_port(&key) {
        Err(Error::PortError(details)) => {
            assert_eq!(details, "The state change of the port is invalid: Port transfer");
        }
        other => panic!("unexpected result: {:?}", other),
    }
}

#[test]
fn counter_and_capability_are_accepted() {
    let mut pre = Snapshot::new();
    pre.write(capability_counter_path(), stored_u64(5));
    let mut post = bound(&transfer(), 5, 5);
    post.write(capability_counter_path(), stored_u64(6));
    let ibc = Ibc::new(pre, post);
    assert!(matches!(ibc.capability_index_pre(), Ok(5)));
    assert!(matches!(ibc.capability_index(), Ok(6)));
    let counter = key_of(&["IBC", "capabilities", "index"]);
    assert!(matches!(ibc.validate_capability(&counter), Ok(true)));
    let capability = key_of(&["IBC", "capabilities", "5"]);
    assert!(matches!(ibc.validate_capability(&capability), Ok(true)));
}

#[test]
fn capability_of_another_owner_is_rejected() {
    let ibc = Ibc::new(Snapshot::new(), bound(&transfer(), 7, 5));
    let capability = key_of(&["IBC", "capabilities", "5"]);
    match ibc.validate_capability(&capability) {
        Err(Error::CapabilityError(details)) => {
            assert_eq!(details, "The capability is not mapped: Index 5, Port transfer");
        }
        other => panic!("unexpected result: {:?}", other),
    }
    let e = ibc.validate_capability(&capability).unwrap_err();
    assert_eq!(
        e.to_string(),
        "Capability error: The capability is not mapped: Index 5, Port transfer"
    );
}

#[test]
fn created_port_without_capability_is_rejected() {
    let key = key_of(&["IBC", "channelEnds", "ports", "transfer"]);
    let mut post = Snapshot::new();
    post.write(port_path(&transfer()), vec![1, 2, 3]);
    let ibc = Ibc::new(Snapshot::new(), post);
    match ibc.validate_port(&key) {
        Err(Error::PortError(details)) => assert_eq!(
            details,
            "The port is not authenticated: ID transfer, no capability is mapped to the port"
        ),
        other => panic!("unexpected result: {:?}", other),
    }
    assert!(ibc.authenticated_capability(&transfer()).is_err());
}

#[test]
fn created_port_with_foreign_capability_is_rejected() {
    let key = key_of(&["IBC", "channelEnds", "ports", "transfer"]);
    let mut post = Snapshot::new();
    post.write(port_path(&transfer()), stored_u64(3));
    post.write(capability_path(3), stored_text("bank"));
    let ibc = Ibc::new(Snapshot::new(), post);
    match ibc.validate_port(&key) {
        Err(Error::PortError(details)) => assert_eq!(
            details,
            "The port is not authenticated: ID transfer, \
             the capability of the port is not mapped to it"
        ),
        other => panic!("unexpected result: {:?}", other),
    }
}

#[test]
fn port_that_is_not_created_is_rejected() {
    let key = key_of(&["IBC", "channelEnds", "ports", "transfer"]);
    // modified: an entry before and after
    let ibc = Ibc::new(bound(&transfer(), 3, 3), bound(&transfer(), 3, 3));
    assert!(matches!(ibc.validate_port(&key), Err(Error::PortError(_))));
    // no entry at all
    let ibc = Ibc::new(Snapshot::new(), Snapshot::new());
    match ibc.validate_port(&key) {
        Err(Error::PortError(details)) => {
            assert_eq!(details, "The state change of the port is invalid: Port transfer");
        }
        other => panic!("unexpected result: {:?}", other),
    }
}

#[test]
fn counter_that_does_not_grow_is_rejected() {
    let counter = key_of(&["IBC", "capabilities", "index"]);
    for (before, after) in [(5u64, 5u64), (6, 5), (u64::MAX, 0)] {
        let mut pre = Snapshot::new();
        pre.write(capability_counter_path(), stored_u64(before));
        let mut post = bound(&transfer(), after, after);
        post.write(capability_counter_path(), stored_u64(after));
        let ibc = Ibc::new(pre, post);
        match ibc.validate_capability(&counter) {
            Err(Error::CapabilityError(details)) => assert_eq!(
                details,
                format!("The capability index is invalid: Pre {}, Post {}", before, after)
            ),
            other => panic!("unexpected result: {:?}", other),
        }
    }
}

#[test]
fn counter_that_grows_is_accepted() {
    let counter = key_of(&["IBC", "capabilities", "index"]);
    let mut pre = Snapshot::new();
    pre.write(capability_counter_path(), stored_u64(0));
    let mut post = Snapshot::new();
    post.write(capability_counter_path(), stored_u64(u64::MAX));
    let ibc = Ibc::new(pre, post);
    assert!(matches!(ibc.validate_capability(&counter), Ok(true)));
}

#[test]
fn counter_that_cannot_be_read_is_rejected() {
    let counter = key_of(&["IBC", "capabilities", "index"]);
    let mut post = Snapshot::new();
    post.write(capability_counter_path(), stored_u64(1));
    let ibc = Ibc::new(Snapshot::new(), post);
    match ibc.validate_capability(&counter) {
        Err(Error::CapabilityError(details)) => {
            assert_eq!(details, "The counter doesn't exist");
        }
        other => panic!("unexpected result: {:?}", other),
    }
    let mut pre = Snapshot::new();
    pre.write(capability_counter_path(), vec![1, 0, 0]);
    let ibc = Ibc::new(pre, Snapshot::new());
    match ibc.capability_index_pre() {
        Err(Error::CapabilityError(details)) => assert_eq!(
            details,
            "Decoding the counter failed: unexpected length of the stored value"
        ),
        other => panic!("unexpected value: {:?}", other),
    }
    let mut pre = Snapshot::new();
    pre.write(capability_counter_path(), stored_u64(1));
    let mut post = Snapshot::new();
    post.mark_unreadable(capability_counter_path(), "out of gas".to_string());
    let ibc = Ibc::new(pre, post);
    match ibc.validate_capability(&counter) {
        Err(Error::CapabilityError(details)) => {
            assert_eq!(details, "Reading the counter failed out of gas");
        }
        other => panic!("unexpected result: {:?}", other),
    }
}

#[test]
fn capability_without_owner_is_rejected() {
    let mut post = Snapshot::new();
    post.write(capability_path(5), stored_text("transfer"));
    let ibc = Ibc::new(Snapshot::new(), post);
    let capability = key_of(&["IBC", "capabilities", "5"]);
    match ibc.validate_capability(&capability) {
        Err(Error::CapabilityError(details)) => {
            assert_eq!(details, "The capability is not mapped: Index 5, Port transfer");
        }
        other => panic!("unexpected result: {:?}", other),
    }
    let cap = Capability::from(5);
    assert!(ibc.validate_capability_owner(&cap, &transfer()).is_err());
}

#[test]
fn capability_that_is_not_created_is_rejected() {
    let capability = key_of(&["IBC", "capabilities", "5"]);
    let ibc = Ibc::new(bound(&transfer(), 5, 5), bound(&transfer(), 5, 5));
    match ibc.validate_capability(&capability) {
        Err(Error::StateChangeError(details)) => assert_eq!(
            details,
            "The state change of the capability is invalid: key IBC/capabilities/5"
        ),
        other => panic!("unexpected result: {:?}", other),
    }
    let ibc = Ibc::new(bound(&transfer(), 5, 5), Snapshot::new());
    assert!(matches!(ibc.validate_capability(&capability), Err(Error::StateChangeError(_))));
}

#[test]
fn capability_key_is_read_by_its_third_segment() {
    let mut post = bound(&transfer(), 5, 5);
    let odd = key_of(&["IBC", "capabilities", "+05"]);
    post.write(odd.clone(), vec![0]);
    let ibc = Ibc::new(Snapshot::new(), post);
    assert!(matches!(ibc.validate_capability(&odd), Ok(true)));
    assert_eq!(Ibc::get_capability(&odd).unwrap().index(), 5);

    let mut post = Snapshot::new();
    let word = key_of(&["IBC", "capabilities", "five"]);
    post.write(word.clone(), vec![0]);
    let ibc = Ibc::new(Snapshot::new(), post);
    match ibc.validate_capability(&word) {
        Err(Error::CapabilityError(details)) => assert_eq!(
            details,
            "The key has a non-number index: Key IBC/capabilities/five, \
             invalid digit found in string"
        ),
        other => panic!("unexpected result: {:?}", other),
    }

    let mut post = Snapshot::new();
    let short = key_of(&["IBC", "capabilities"]);
    post.write(short.clone(), vec![0]);
    let ibc = Ibc::new(Snapshot::new(), post);
    match ibc.validate_capability(&short) {
        Err(Error::CapabilityError(details)) => assert_eq!(
            details,
            "The key doesn't have a capability index: Key IBC/capabilities"
        ),
        other => panic!("unexpected result: {:?}", other),
    }
}

#[test]
fn capability_with_a_bad_port_entry_is_rejected() {
    let capability = key_of(&["IBC", "capabilities", "5"]);
    let judged = |bytes: Vec<u8>| {
        let mut post = Snapshot::new();
        post.write(capability_path(5), bytes);
        Ibc::new(Snapshot::new(), post).validate_capability(&capability)
    };
    match judged(vec![9, 0, 0, 0, b'a']) {
        Err(Error::PortError(details)) => assert_eq!(
            details,
            "Decoding the port ID failed: unexpected length of the stored value"
        ),
        other => panic!("unexpected result: {:?}", other),
    }
    match judged(vec![2, 0, 0, 0, 0xff, 0xfe]) {
        Err(Error::PortError(details)) => assert_eq!(
            details,
            "Decoding the port ID failed: the stored text is not valid UTF-8"
        ),
        other => panic!("unexpected result: {:?}", other),
    }
    match judged(stored_text("p")) {
        Err(Error::PortError(details)) => assert_eq!(
            details,
            "id `p` has invalid length; must be between [`2`,`128`)"
        ),
        other => panic!("unexpected result: {:?}", other),
    }
}

#[test]
fn capability_without_a_port_entry_is_not_found() {
    let ibc = Ibc::new(Snapshot::new(), Snapshot::new());
    match ibc.get_port_by_capability(&Capability::from(5)) {
        Err(Error::PortError(details)) => {
            assert_eq!(details, "The capability is not mapped to any port");
        }
        other => panic!("unexpected port: {:?}", other),
    }
    assert!(!ibc.authenticate(&Capability::from(5), &transfer()));
}

#[test]
fn unreadable_entries_are_rejected() {
    let key = key_of(&["IBC", "channelEnds", "ports", "transfer"]);
    let mut pre = Snapshot::new();
    pre.mark_unreadable(port_path(&transfer()), "backend gone".to_string());
    let ibc = Ibc::new(pre, bound(&transfer(), 3, 3));
    match ibc.validate_port(&key) {
        Err(Error::StateChangeError(details)) => assert_eq!(details, "backend gone"),
        other => panic!("unexpected result: {:?}", other),
    }

    let capability = key_of(&["IBC", "capabilities", "5"]);
    let mut post = bound(&transfer(), 5, 5);
    post.mark_unreadable(capability.clone(), "checksum mismatch".to_string());
    let ibc = Ibc::new(Snapshot::new(), post);
    match ibc.validate_capability(&capability) {
        Err(Error::StateChangeError(details)) => assert_eq!(details, "checksum mismatch"),
        other => panic!("unexpected result: {:?}", other),
    }
    match ibc.get_port_by_capability(&Capability::from(5)) {
        Err(Error::PortError(details)) => {
            assert_eq!(details, "Reading the port failed checksum mismatch");
        }
        other => panic!("unexpected port: {:?}", other),
    }
    assert!(!ibc.authenticate(&Capability::from(5), &transfer()));
    let mut post = Snapshot::new();
    post.mark_unreadable(port_path(&transfer()), "checksum mismatch".to_string());
    let ibc = Ibc::new(Snapshot::new(), post);
    assert!(ibc.lookup_module_by_port(&transfer()).is_none());
}

#[test]
fn key_without_a_port_is_rejected() {
    let ibc = Ibc::new(Snapshot::new(), bound(&transfer(), 3, 3));
    let short = key_of(&["IBC", "ports", "transfer"]);
    match ibc.validate_port(&short) {
        Err(Error::KeyError(details)) => {
            assert_eq!(details, "The key doesn't have a port ID: Key IBC/ports/transfer");
        }
        other => panic!("unexpected result: {:?}", other),
    }
    let bad = key_of(&["IBC", "channelEnds", "ports", "trans fer"]);
    match ibc.validate_port(&bad) {
        Err(Error::KeyError(details)) => assert_eq!(
            details,
            "id `trans fer` can only contain alphanumeric characters or \
             `.`, `_`, `+`, `-`, `#`, - `[`, `]`, `<`, `>`"
        ),
        other => panic!("unexpected result: {:?}", other),
    }
    assert_eq!(Ibc::get_port_id(&key_of(&["a", "b", "c", "bank"])).unwrap().as_str(), "bank");
}

#[test]
fn capability_authenticates_its_port_only() {
    let ibc = Ibc::new(Snapshot::new(), bound(&transfer(), 3, 3));
    let cap = Capability::from(3);
    assert_eq!(ibc.get_port_by_capability(&cap).unwrap(), transfer());
    assert!(ibc.authenticate(&cap, &transfer()));
    assert!(!ibc.authenticate(&cap, &PortId::parse("bank").unwrap()));
    assert!(!ibc.authenticate(&cap, &PortId::parse("transfer2").unwrap()));
    assert!(!ibc.authenticate(&Capability::from(4), &transfer()));
}

#[test]
fn lookups_repeat() {
    let ibc = Ibc::new(Snapshot::new(), bound(&transfer(), 3, 3));
    let first = ibc.lookup_module_by_port(&transfer());
    let second = ibc.lookup_module_by_port(&transfer());
    assert_eq!(first, second);
    assert_eq!(first, Some(Capability::from(3)));
    let cap = Capability::from(3);
    assert_eq!(ibc.authenticate(&cap, &transfer()), ibc.authenticate(&cap, &transfer()));
    let bank = PortId::parse("bank").unwrap();
    assert_eq!(ibc.lookup_module_by_port(&bank), ibc.lookup_module_by_port(&bank));
    assert_eq!(ibc.lookup_module_by_port(&bank), None);
}
