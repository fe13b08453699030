use hearth_web::codec;
use hearth_web::consents;
use hearth_web::web;

#[test]
fn query_values_are_encoded() {
    assert_eq!(codec::qenc("a b&c=d/é*-._"), "a+b%26c%3Dd%2F%C3%A9*-._");
    assert_eq!(codec::qenc(""), "");
    assert_eq!(codec::qenc("a b&c"), form_urlencoded::byte_serialize(b"a b&c").collect::<String>());
}

#[test]
fn encoded_values_are_safe() {
    let all: String = (0u8..128).map(char::from).collect();
    let encoded = codec::qenc(&all);
    assert!(encoded.chars().all(|c| c.is_ascii_alphanumeric() || "*-._+%".contains(c)));
}

#[test]
fn qr_codes() {
    let svg = codec::generate_qr_svg("otpauth://totp/Hearth:ada@example.com?secret=ABC");
    assert!(svg.contains("<svg") && svg.contains("#000000") && svg.contains("#ffffff"));
    assert_ne!(svg, codec::generate_qr_svg("otpauth://totp/other"));
    assert_eq!(codec::generate_qr_svg(""), "");
    let too_long = "x".repeat(8000);
    assert_eq!(codec::generate_qr_svg(&too_long), "");
    assert_eq!(codec::shown_qr("u", Some("<svg/>".to_string())), "<svg/>");
    assert_eq!(codec::shown_qr("u", None), "");
    assert_eq!(codec::shown_qr("", Some("<svg/>".to_string())), "");
}

#[test]
fn uuids_in_every_notation() {
    let id: u128 = 0x67e5_5044_10b1_426f_9247_bb68_0e5f_e0c8;
    for s in [
        "67e55044-10b1-426f-9247-bb680e5fe0c8",
        "67E55044-10B1-426F-9247-BB680E5FE0C8",
        "67e5504410b1426f9247bb680e5fe0c8",
        "urn:uuid:67e55044-10b1-426f-9247-bb680e5fe0c8",
        "{67e55044-10b1-426f-9247-bb680e5fe0c8}",
    ] {
        assert!(matches!(consents::revoke_consent_request(true, s), Ok(x) if x == id), "{}", s);
    }
    assert!(matches!(
        consents::revoke_consent_request(true, "67e55044"),
        Err(web::Reply::NotFound(m)) if m == "Consent not found"
    ));
}

#[test]
fn uuids_are_written_hyphenated() {
    let target = web::TargetRealm { id: 1, name: "acme".to_string(), routes: web::Routes::Flat };
    assert_eq!(
        web::item_url(&target, "users", 0x67e5_5044_10b1_426f_9247_bb68_0e5f_e0c8),
        "/ui/admin/users/67e55044-10b1-426f-9247-bb680e5fe0c8?realm=acme"
    );
}
