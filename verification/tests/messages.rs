use sparkpost::json::JsonValue;
use sparkpost::transmission::{
    Attachment, EmailAddress, Message, Options, Recipient, Recipients, StartTime,
};

fn to_serde(v: &JsonValue) -> serde_json::Value {
    match v {
        JsonValue::Null => serde_json::Value::Null,
        JsonValue::Bool(b) => serde_json::Value::Bool(*b),
        JsonValue::Int(n) => serde_json::Value::Number(serde_json::Number::from(*n)),
        JsonValue::Str(s) => serde_json::Value::String(s.clone()),
        JsonValue::Arr(a) => serde_json::Value::Array(a.iter().map(to_serde).collect()),
        JsonValue::Obj(o) => serde_json::Value::Object(
            o.iter().map(|(k, c)| (k.clone(), to_serde(c))).collect(),
        ),
    }
}

fn substitute_any_value() -> JsonValue {
    JsonValue::Obj(vec![(
        "any_field".to_string(),
        JsonValue::Str("any_value".to_string()),
    )])
}

fn data_name() -> JsonValue {
    JsonValue::Obj(vec![("name".to_string(), JsonValue::Str("Name".to_string()))])
}

fn named_address() -> EmailAddress {
    EmailAddress {
        email: "test@test.com".into(),
        name: Some("Name".into()),
    }
}

fn create_recipient() -> Recipient {
    Recipient::with_substitution(named_address(), data_name())
}

fn str_at<'a>(v: &'a JsonValue, key: &str) -> &'a str {
    v.get(key).unwrap().as_str().unwrap()
}

fn bool_at(v: &JsonValue, key: &str) -> bool {
    v.get(key).unwrap().as_bool().unwrap()
}

#[test]
fn recipient() {
    let recipient = Recipient {
        address: named_address(),
        substitution_data: Some(data_name()),
    };
    let string_value = "{\"address\":{\"email\":\"test@test.com\",\"name\":\"Name\"},\"substitution_data\":{\"name\":\"Name\"}}".to_owned();
    assert_eq!(string_value, to_serde(&recipient.json()).to_string());
    assert_eq!(recipient, create_recipient());
}

#[test]
fn recipient_from_str() {
    let recipient: Recipient = "test@test.com".into();

    assert_eq!(recipient.address.email, create_recipient().address.email);
}

#[test]
fn recipients_recipient() {
    let recipient = Recipient {
        address: named_address(),
        substitution_data: Some(data_name()),
    };

    assert_eq!(recipient, create_recipient());
}

#[test]
fn recipients_recipient_from_str() {
    let recipient: Recipient = "test@test.com".into();

    assert_eq!(recipient.address.email, create_recipient().address.email);
}

#[test]
fn create_message() {
    let mut email: Message = Message::new(EmailAddress::new("test@test.com", "name"));
    email.add_recipient("tech@hgill.io".into());
    email.recipient_list("my_list");

    let json_value: JsonValue = email.json();

    let from = json_value.get("content").unwrap().get("from").unwrap();
    assert_eq!("test@test.com", str_at(from, "email"));
    assert_eq!("name", str_at(from, "name"));
    assert_eq!("test@test.com", str_at(from, "email"));
    let options = json_value.get("options").unwrap();
    assert!(!bool_at(options, "sandbox"));
    assert!(!bool_at(options, "click_tracking"));
    assert!(!bool_at(options, "open_tracking"));
    assert!(!bool_at(options, "transactional"));
}

#[test]
fn create_message_with_options() {
    let email: Message = Message::with_options(
        "test@test.com".into(),
        Options {
            open_tracking: true,
            click_tracking: true,
            transactional: true,
            sandbox: true,
            inline_css: false,
            start_time: Some(StartTime::new(2014, 7, 8, 9, 10, 11).unwrap()),
        },
    );
    let json_value = email.json();

    let from = json_value.get("content").unwrap().get("from").unwrap();
    assert_eq!("test@test.com", str_at(from, "email"));
    let options = json_value.get("options").unwrap();
    assert!(bool_at(options, "sandbox"));
    assert!(bool_at(options, "click_tracking"));
    assert!(bool_at(options, "open_tracking"));
    assert!(bool_at(options, "transactional"));
    assert!(!bool_at(options, "inline_css"));
    assert_eq!("2014-07-08T09:10:11Z", str_at(options, "start_time"));
}

#[test]
fn create_message_with_substitute_data() {
    let mut email: Message = Message::default();

    email.add_recipient(Recipient {
        address: "name@domain.com".into(),
        substitution_data: Some(substitute_any_value()),
    });
    let json_value = email.json();

    let first = json_value.get("recipients").unwrap().at(0).unwrap();
    assert_eq!(
        str_at(first.get("address").unwrap(), "email"),
        "name@domain.com"
    );
}

#[test]
fn test_message_recipient_duplication() {
    let mut message = Message::default();
    let recipient: Recipient = "email@domain.com".into();
    let recipient1: Recipient = "email@domain.com".into();
    message.add_recipient(recipient);

    match message.recipients {
        Recipients::LocalList(ref list) => {
            assert_eq!(list.get(0), Some(&recipient1));
        }
        _ => assert!(false),
    };

    message.add_recipient(Recipient {
        address: "email@domain.com".into(),
        substitution_data: Some(substitute_any_value()),
    });

    match message.recipients {
        Recipients::LocalList(ref list) => {
            assert_eq!(list.len(), 1);
        }
        _ => assert!(false),
    };

    let json_value = message.json();

    let first = json_value.get("recipients").unwrap().at(0).unwrap();
    assert_eq!(
        str_at(first.get("substitution_data").unwrap(), "any_field"),
        "any_value"
    );

    message.recipient_list("mylist");

    let json_value = message.json();

    assert_eq!(str_at(json_value.get("recipients").unwrap(), "list_id"), "mylist");
}

#[test]
fn create_options() {
    let options = Options::default();
    assert_eq!(false, options.click_tracking);
    assert_eq!(false, options.open_tracking);
    assert_eq!(false, options.sandbox);
    assert_eq!(false, options.transactional);
}

#[test]
fn distinct_addresses_keep_insertion_order() {
    let mut message = Message::new("sender@test.com".into());
    message.add_recipient("a@test.com".into());
    message.add_recipient("b@test.com".into());

    let recipients = message.json().get("recipients").unwrap().deep_clone();
    assert_eq!(str_at(recipients.at(0).unwrap().get("address").unwrap(), "email"), "a@test.com");
    assert_eq!(str_at(recipients.at(1).unwrap().get("address").unwrap(), "email"), "b@test.com");
    assert!(recipients.at(2).is_none());
}

#[test]
fn duplicate_address_moves_to_end() {
    let mut message = Message::new("sender@test.com".into());
    message.add_recipient(Recipient::with_substitution(
        "a@test.com".into(),
        JsonValue::Str("first".to_string()),
    ));
    message.add_recipient("b@test.com".into());
    message.add_recipient(Recipient::with_substitution(
        "a@test.com".into(),
        JsonValue::Str("second".to_string()),
    ));

    match message.recipients {
        Recipients::LocalList(ref list) => assert_eq!(list.len(), 2),
        _ => assert!(false),
    }
    let recipients = message.json().get("recipients").unwrap().deep_clone();
    assert_eq!(str_at(recipients.at(0).unwrap().get("address").unwrap(), "email"), "b@test.com");
    assert_eq!(str_at(recipients.at(1).unwrap().get("address").unwrap(), "email"), "a@test.com");
    assert_eq!(
        recipients.at(1).unwrap().get("substitution_data").unwrap().as_str().unwrap(),
        "second"
    );
}

#[test]
fn stored_list_then_recipient_serializes_as_array() {
    let mut message = Message::new("sender@test.com".into());
    message.recipient_list("X");
    message.add_recipient("a@test.com".into());

    match message.recipients {
        Recipients::LocalList(ref list) => assert_eq!(list.len(), 1),
        _ => assert!(false),
    }
    let recipients = message.json().get("recipients").unwrap().deep_clone();
    assert!(recipients.at(0).is_some());
    assert!(recipients.get("list_id").is_none());
}

#[test]
fn recipient_then_stored_list_serializes_as_list_id() {
    let mut message = Message::new("sender@test.com".into());
    message.add_recipient("a@test.com".into());
    message.recipient_list("X");

    let recipients = message.json().get("recipients").unwrap().deep_clone();
    assert_eq!(str_at(&recipients, "list_id"), "X");
    assert!(recipients.at(0).is_none());
}

#[test]
fn unset_optional_fields_are_absent() {
    let message = Message::new("sender@test.com".into());
    let json_value = message.json();

    assert!(json_value.get("description").is_none());
    assert!(json_value.get("campaign_id").is_none());
    assert!(json_value.get("metadata").is_none());
    assert!(json_value.get("substitution_data").is_none());
    let content = json_value.get("content").unwrap();
    assert!(content.get("text").is_none());
    assert!(content.get("html").is_none());
    assert!(content.get("template_id").is_none());
    assert!(content.get("tags").is_none());
    assert!(content.get("attachments").is_none());
    assert_eq!(str_at(content, "subject"), "");
}

#[test]
fn mutators_reach_the_wire() {
    let mut message = Message::new(EmailAddress::new("sender@test.com", "Sender"));
    message.subject("the subject");
    message.text("plain body");
    message.html("<p>html body</p>");
    message.campaign_id("campaign-1");
    message.template_id("template-1");
    message.metadata(substitute_any_value());
    message.substitution_data(data_name());
    message.add_recipient("a@test.com".into());

    let json_value = message.json();
    let content = json_value.get("content").unwrap();
    assert_eq!(str_at(content, "subject"), "the subject");
    assert_eq!(str_at(content, "text"), "plain body");
    assert_eq!(str_at(content, "html"), "<p>html body</p>");
    assert_eq!(str_at(content, "template_id"), "template-1");
    assert_eq!(str_at(&json_value, "campaign_id"), "campaign-1");
    assert_eq!(str_at(json_value.get("metadata").unwrap(), "any_field"), "any_value");
    assert_eq!(str_at(json_value.get("substitution_data").unwrap(), "name"), "Name");
}

#[test]
fn attachments_reach_the_wire() {
    let mut message = Message::new("sender@test.com".into());
    let attachment = Attachment::from_data("AnImage.png", "image/png", "aGVsbG8=");
    message.add_attachment(attachment);

    let json_value = message.json();
    let attachments = json_value.get("content").unwrap().get("attachments").unwrap();
    let first = attachments.at(0).unwrap();
    assert_eq!(str_at(first, "name"), "AnImage.png");
    assert_eq!(str_at(first, "type"), "image/png");
    assert_eq!(str_at(first, "data"), "aGVsbG8=");
}

#[test]
fn start_time_rendering_is_zero_padded() {
    let t = StartTime::new(1, 1, 1, 0, 0, 0).unwrap();
    assert_eq!(t.rfc3339_string(), "0001-01-01T00:00:00Z");

    let t = StartTime::new(9999, 12, 31, 23, 59, 59).unwrap();
    assert_eq!(t.rfc3339_string(), "9999-12-31T23:59:59Z");
}

#[test]
fn start_time_rejects_out_of_range_fields() {
    assert!(StartTime::new(2020, 13, 1, 0, 0, 0).is_none());
    assert!(StartTime::new(2020, 0, 1, 0, 0, 0).is_none());
    assert!(StartTime::new(2020, 1, 32, 0, 0, 0).is_none());
    assert!(StartTime::new(2020, 1, 0, 0, 0, 0).is_none());
    assert!(StartTime::new(2020, 1, 1, 24, 0, 0).is_none());
    assert!(StartTime::new(2020, 1, 1, 0, 60, 0).is_none());
    assert!(StartTime::new(2020, 1, 1, 0, 0, 60).is_none());
    assert!(StartTime::new(10000, 1, 1, 0, 0, 0).is_none());
}
