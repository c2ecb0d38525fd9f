use sparkpost::transmission::EmailAddress;

fn named_address() -> EmailAddress {
    EmailAddress {
        email: "test@test.com".into(),
        name: Some("Name".into()),
    }
}

#[test]
fn create_address() {
    let address: EmailAddress = "test@test.com".into();
    assert_eq!("test@test.com", address.email.as_str());
}

#[test]
fn address_with_new() {
    let address = EmailAddress::new("test@test.com", String::from("Name").as_str());
    assert_eq!(address, named_address());

    let address = EmailAddress::new(String::from("test@test.com").as_str(), "Name");
    assert_eq!(address, named_address());

    let address = EmailAddress::new("test@test.com", "Name");
    assert_eq!(address, named_address());
}

#[test]
fn address() {
    let address = EmailAddress::from("test@test.com".to_string());

    assert_eq!("test@test.com", address.email.as_str());

    let address = EmailAddress {
        email: "test@test.com".into(),
        name: Some("Name".into()),
    };

    assert_eq!(address, named_address())
}

#[test]
fn address_from_str() {
    let address1: EmailAddress = "test@test.com".into();
    let address2: EmailAddress = named_address();
    assert_eq!(address1.email, address2.email);
}

#[test]
fn address_from_string() {
    let address1: EmailAddress = String::from("test@test.com").into();
    let address2: EmailAddress = named_address();
    assert_eq!(address1.email, address2.email);
}

#[test]
fn address_with_name() {
    let address = EmailAddress::new("test@test.com", "Name");
    assert_eq!(address, named_address());
}

#[test]
fn address_with_name_constructor() {
    let address = EmailAddress::with_name("test@test.com", "Name");
    assert_eq!(address, named_address());
    assert_eq!(address.name.as_deref(), Some("Name"));
}

#[test]
fn recipients_address() {
    let address = EmailAddress::from("test@test.com".to_string());

    assert_eq!("test@test.com", address.email.as_str());

    let address = EmailAddress {
        email: "test@test.com".into(),
        name: Some("Name".into()),
    };

    assert_eq!(address, named_address())
}

#[test]
fn recipients_address_from_str() {
    let address1: EmailAddress = "test@test.com".into();
    let address2: EmailAddress = named_address();
    assert_eq!(address1.email, address2.email);
}

#[test]
fn recipients_address_from_string() {
    let address1: EmailAddress = String::from("test@test.com").into();
    let address2: EmailAddress = named_address();
    assert_eq!(address1.email, address2.email);
}

#[test]
fn recipients_address_with_name() {
    let address = EmailAddress::new("test@test.com", "Name");
    assert_eq!(address, named_address());
}
