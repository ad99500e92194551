use blimp_ground_ws_interface::{
    choose_subprotocol, get_subprotocol, split_header, BlimpSubprotocol, BlimpSubprotocolFlavour,
};

#[test]
fn test_negotiation_precedence() {
    // The first offer is malformed (unsupported version); the second parses.
    // Selection skips the bad entry instead of failing.
    let offers = vec![
        String::from("spacecoffee.blimp.v99.json"),
        String::from("spacecoffee.blimp.v1.postcard"),
    ];
    assert_eq!(
        choose_subprotocol(&offers),
        Some(BlimpSubprotocol { version: 1, flavour: BlimpSubprotocolFlavour::Postcard })
    );
}

#[test]
fn test_negotiation_first_parseable_wins() {
    // Both entries parse; the proposer's order decides.
    let offers = vec![
        String::from("spacecoffee.blimp.v1.json"),
        String::from("spacecoffee.blimp.v1.postcard"),
    ];
    assert_eq!(
        choose_subprotocol(&offers),
        Some(BlimpSubprotocol { version: 1, flavour: BlimpSubprotocolFlavour::Json })
    );
}

#[test]
fn test_negotiation_total_failure() {
    let offers = vec![
        String::from("spacecoffee.blimp.v2137.json"),
        String::from("vfly.blimp.v1.postcard"),
        String::from("not-a-token"),
    ];
    assert_eq!(choose_subprotocol(&offers), None);
    assert_eq!(choose_subprotocol(&Vec::new()), None);
}

#[test]
fn test_header_negotiation() {
    // The raw header the peer sent, comma separated, whitespace and all.
    let selected = get_subprotocol("spacecoffee.blimp.v2137.json, spacecoffee.blimp.v1.postcard")
        .expect("negotiation should succeed");
    assert_eq!(
        selected,
        BlimpSubprotocol { version: 1, flavour: BlimpSubprotocolFlavour::Postcard }
    );
    // The selected token is echoed back to the peer in its canonical form.
    assert_eq!(selected.to_string(), "spacecoffee.blimp.v1.postcard");
}

#[test]
fn test_header_negotiation_rejects_all_invalid() {
    assert_eq!(get_subprotocol("spacecoffee.blimp.v9.json, junk"), None);
    assert_eq!(get_subprotocol(""), None);
}

#[test]
fn test_split_header_trims_entries() {
    assert_eq!(
        split_header("  a , b\t,c, d "),
        vec![
            String::from("a"),
            String::from("b"),
            String::from("c"),
            String::from("d"),
        ]
    );
    assert_eq!(split_header(""), vec![String::new()]);
    assert_eq!(split_header(","), vec![String::new(), String::new()]);
    assert_eq!(split_header("solo"), vec![String::from("solo")]);
}
