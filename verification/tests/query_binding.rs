use users_api::errors::Error;
use users_api::query::GetUsersQuery;

fn parse(qs: &str) -> Result<GetUsersQuery, Error> {
    GetUsersQuery::from_request(qs)
}

#[test]
fn empty_query_string_binds_to_the_empty_filter() {
    match parse("") {
        Ok(q) => {
            assert_eq!(q.name, None);
            assert_eq!(q.email, None);
        },
        Err(_) => panic!("the empty query string is well-formed"),
    }
}

#[test]
fn scalar_name_binds() {
    match parse("name=foo") {
        Ok(q) => {
            assert_eq!(q.name, Some(String::from("foo")));
            assert_eq!(q.email, None);
        },
        Err(_) => panic!("a scalar name is well-formed"),
    }
}

#[test]
fn name_and_email_bind_together() {
    match parse("name=foo&email=bar") {
        Ok(q) => {
            assert_eq!(q.name, Some(String::from("foo")));
            assert_eq!(q.email, Some(String::from("bar")));
        },
        Err(_) => panic!("two scalar fields are well-formed"),
    }
}

#[test]
fn percent_escapes_and_plus_decode() {
    match parse("name=a%20b+c&email=a%40b.example") {
        Ok(q) => {
            assert_eq!(q.name, Some(String::from("a b c")));
            assert_eq!(q.email, Some(String::from("a@b.example")));
        },
        Err(_) => panic!("escaped values are well-formed"),
    }
}

#[test]
fn key_without_value_binds_the_empty_string() {
    match parse("name") {
        Ok(q) => assert_eq!(q.name, Some(String::from(""))),
        Err(_) => panic!("a bare key is well-formed"),
    }
    match parse("name=") {
        Ok(q) => assert_eq!(q.name, Some(String::from(""))),
        Err(_) => panic!("an empty value is well-formed"),
    }
}

#[test]
fn unknown_keys_are_ignored() {
    match parse("limit=10&name=foo&sort=asc") {
        Ok(q) => {
            assert_eq!(q.name, Some(String::from("foo")));
            assert_eq!(q.email, None);
        },
        Err(_) => panic!("unknown keys are ignored"),
    }
}

#[test]
fn bracketed_scalar_field_is_malformed() {
    assert!(matches!(parse("name[]=a&name[]=b"), Err(Error::BadQuery)));
    assert!(matches!(parse("name[0]=a"), Err(Error::BadQuery)));
    assert!(matches!(parse("email[x]=a"), Err(Error::BadQuery)));
}

#[test]
fn duplicate_scalar_field_is_malformed() {
    assert!(matches!(parse("name=a&name=b"), Err(Error::BadQuery)));
    assert!(matches!(parse("email=a&email=a"), Err(Error::BadQuery)));
}

#[test]
fn multi_byte_escapes_reassemble_to_utf8() {
    match parse("name=%C3%A9clair") {
        Ok(q) => assert_eq!(q.name, Some(String::from("éclair"))),
        Err(_) => panic!("a two-byte escape sequence is well-formed"),
    }
    match parse("name=%E2%82%AC") {
        Ok(q) => assert_eq!(q.name, Some(String::from("€"))),
        Err(_) => panic!("a three-byte escape sequence is well-formed"),
    }
}

#[test]
fn literal_non_ascii_passes_through() {
    match parse("name=éclair") {
        Ok(q) => assert_eq!(q.name, Some(String::from("éclair"))),
        Err(_) => panic!("a literal non-ASCII value is well-formed"),
    }
}

#[test]
fn broken_percent_escapes_pass_through_literally() {
    match parse("name=%") {
        Ok(q) => assert_eq!(q.name, Some(String::from("%"))),
        Err(_) => panic!("a truncated escape passes through"),
    }
    match parse("name=%2") {
        Ok(q) => assert_eq!(q.name, Some(String::from("%2"))),
        Err(_) => panic!("a truncated escape passes through"),
    }
    match parse("name=%zz") {
        Ok(q) => assert_eq!(q.name, Some(String::from("%zz"))),
        Err(_) => panic!("a non-hexadecimal escape passes through"),
    }
}

#[test]
fn escapes_that_decode_to_invalid_utf8_are_malformed() {
    assert!(matches!(parse("name=%FF"), Err(Error::BadQuery)));
    assert!(matches!(parse("name=%C3"), Err(Error::BadQuery)));
}

#[test]
fn escaped_keys_are_decoded_before_they_bind() {
    match parse("n%61me=foo") {
        Ok(q) => assert_eq!(q.name, Some(String::from("foo"))),
        Err(_) => panic!("an escaped key decodes to the name field"),
    }
    assert!(matches!(parse("n%61me%5B%5D=a"), Err(Error::BadQuery)));
}

#[test]
fn values_may_contain_further_equals_signs() {
    match parse("name=a=b") {
        Ok(q) => assert_eq!(q.name, Some(String::from("a=b"))),
        Err(_) => panic!("an = inside the value is part of it"),
    }
}

#[test]
fn trailing_separator_is_tolerated() {
    match parse("name=foo&") {
        Ok(q) => assert_eq!(q.name, Some(String::from("foo"))),
        Err(_) => panic!("a trailing separator leaves an ignorable empty pair"),
    }
}
