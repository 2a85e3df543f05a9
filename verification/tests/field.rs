use rsfetch::field::{Field, ParseFieldError};

#[test]
fn parses_canonical_ids() {
    assert_eq!("host".parse(), Ok(Field::Host));
    assert_eq!("memory".parse(), Ok(Field::Memory));
    assert_eq!("disks".parse(), Ok(Field::Disks));
}

#[test]
fn parsing_is_case_insensitive() {
    assert_eq!("CPU".parse(), Ok(Field::Cpu));
    assert_eq!("Os".parse(), Ok(Field::Os));
}

#[test]
fn rejects_unknown_field() {
    assert_eq!("bogus".parse::<Field>(), Err(ParseFieldError("bogus".into())));
}

#[test]
fn id_round_trips_through_from_str() {
    for field in Field::default_order() {
        assert_eq!(field.id().parse(), Ok(field));
    }
}

#[test]
fn default_order_lists_every_field_once() {
    let ids: Vec<&str> = Field::default_order().into_iter().map(|f| f.id()).collect();
    assert_eq!(ids, vec!["host", "os", "kernel", "shell", "uptime", "cpu", "memory", "swap", "disks"]);
}

#[test]
fn parse_error_message_names_the_input() {
    let err = Field::parse("Nope").unwrap_err();
    assert_eq!(err, ParseFieldError("Nope".to_string()));
    assert_eq!(err.message(), "unknown field 'Nope'");
}

#[test]
fn rejects_near_misses() {
    assert!(Field::parse("hosts").is_err());
    assert!(Field::parse("").is_err());
    assert!(Field::parse(" cpu").is_err());
}
