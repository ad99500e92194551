use blimp_ground_ws_interface::{
    BlimpSubprotocol, BlimpSubprotocolFlavour, SubprotocolValidationError,
};

#[test]
fn test_subprotocol_export() {
    assert_eq!(
        BlimpSubprotocol { version: 1, flavour: BlimpSubprotocolFlavour::Postcard }.to_string(),
        "spacecoffee.blimp.v1.postcard"
    );
    assert_eq!(
        BlimpSubprotocol { version: 2, flavour: BlimpSubprotocolFlavour::Json }.to_string(),
        "spacecoffee.blimp.v2.json"
    );
}

#[test]
fn test_subprotocol_parse() {
    assert_eq!(
        BlimpSubprotocol { version: 1, flavour: BlimpSubprotocolFlavour::Postcard },
        BlimpSubprotocol::from_str("spacecoffee.blimp.v1.postcard").expect("Parse fail")
    );
    assert_eq!(
        BlimpSubprotocol { version: 1, flavour: BlimpSubprotocolFlavour::Json },
        BlimpSubprotocol::from_str("spacecoffee.blimp.v1.json").expect("Parse fail")
    );
    assert!(BlimpSubprotocol::from_str("vfly.blimp.v1.postcard")
        .is_err_and(|e| e == SubprotocolValidationError::InvalidProtocol));
    assert!(BlimpSubprotocol::from_str("spacecoffee.mper.v1.postcard")
        .is_err_and(|e| e == SubprotocolValidationError::InvalidProtocol));
    assert!(BlimpSubprotocol::from_str("spacecoffee.blimp.v2137.json")
        .is_err_and(|e| e == SubprotocolValidationError::IncompatibleVersion));
    assert!(BlimpSubprotocol::from_str("spacecoffee.blimp.v1.xml")
        .is_err_and(|e| e == SubprotocolValidationError::UnsupportedFlavour));
}

#[test]
fn test_round_trip_all_supported() {
    for flavour in [BlimpSubprotocolFlavour::Postcard, BlimpSubprotocolFlavour::Json] {
        let p = BlimpSubprotocol { version: 1, flavour };
        let token = p.to_string();
        assert_eq!(BlimpSubprotocol::from_str(token.as_str()), Ok(p));
    }
}

#[test]
fn test_parse_rejects_wrong_org() {
    assert_eq!(
        BlimpSubprotocol::from_str("wrongorg.project.v1.binary"),
        Err(SubprotocolValidationError::InvalidProtocol)
    );
}

#[test]
fn test_parse_rejects_wrong_segment_count() {
    for token in [
        "",
        "spacecoffee",
        "spacecoffee.blimp",
        "spacecoffee.blimp.v1",
        "spacecoffee.blimp.v1.postcard.extra",
        "spacecoffee.blimp.v1.post.card",
        "...",
        "....",
    ] {
        assert_eq!(
            BlimpSubprotocol::from_str(token),
            Err(SubprotocolValidationError::InvalidProtocol),
            "token {:?} should be invalid",
            token
        );
    }
}

#[test]
fn test_parse_rejects_malformed_version() {
    for token in [
        "spacecoffee.blimp.v.postcard",
        "spacecoffee.blimp.1.postcard",
        "spacecoffee.blimp.v1x.postcard",
        "spacecoffee.blimp.v+1.postcard",
        "spacecoffee.blimp.v 1.postcard",
        "spacecoffee.blimp.v65536.postcard",
        "spacecoffee.blimp.v99999999999999999999.postcard",
    ] {
        assert_eq!(
            BlimpSubprotocol::from_str(token),
            Err(SubprotocolValidationError::InvalidProtocol),
            "token {:?} should be invalid",
            token
        );
    }
}

#[test]
fn test_parse_version_bounds() {
    assert_eq!(
        BlimpSubprotocol::from_str("spacecoffee.blimp.v65535.json"),
        Err(SubprotocolValidationError::IncompatibleVersion)
    );
    assert_eq!(
        BlimpSubprotocol::from_str("spacecoffee.blimp.v0.json"),
        Err(SubprotocolValidationError::IncompatibleVersion)
    );
    assert_eq!(
        BlimpSubprotocol::from_str("spacecoffee.blimp.v01.json"),
        Ok(BlimpSubprotocol { version: 1, flavour: BlimpSubprotocolFlavour::Json })
    );
}

#[test]
fn test_parse_flavour_is_case_sensitive() {
    assert_eq!(
        BlimpSubprotocol::from_str("spacecoffee.blimp.v1.JSON"),
        Err(SubprotocolValidationError::UnsupportedFlavour)
    );
    assert_eq!(
        BlimpSubprotocol::from_str("spacecoffee.blimp.v1."),
        Err(SubprotocolValidationError::UnsupportedFlavour)
    );
}

#[test]
fn test_default_subprotocol() {
    let p = BlimpSubprotocol::default();
    assert_eq!(p.version, 1);
    assert_eq!(p.flavour, BlimpSubprotocolFlavour::Postcard);
    assert_eq!(p.to_string(), "spacecoffee.blimp.v1.postcard");
}

#[test]
fn test_export_large_version() {
    let p = BlimpSubprotocol { version: 65535, flavour: BlimpSubprotocolFlavour::Json };
    assert_eq!(p.to_string(), "spacecoffee.blimp.v65535.json");
    let p0 = BlimpSubprotocol { version: 0, flavour: BlimpSubprotocolFlavour::Postcard };
    assert_eq!(p0.to_string(), "spacecoffee.blimp.v0.postcard");
}
