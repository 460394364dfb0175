use biscotti::time::civil::date;
use biscotti::time::tz::TimeZone;
use biscotti::time::{SignedDuration, Zoned};
use cookiebox::cookies::{
    insert_value, typed, Cookie, CookieBoxError, CookieName, IncomingConfig, OutgoingConfig,
};
use cookiebox::outbound::{CookieId, OutboundCookie};
use cookiebox::{Attributes, Expiration, Moment, SameSite, Storage};
use serde::de::{Error, IgnoredAny, MapAccess, Visitor};
use serde::ser::SerializeStruct;
use serde::{Deserialize, Deserializer, Serialize, Serializer};
use serde_json::Value;
use std::fmt;

// Cookie types
pub struct TypeA;
pub struct TypeB;
pub struct TypeC;
pub struct TypeD;

impl CookieName for TypeA {
    const COOKIE_NAME: &'static str = "type_a";
}
impl CookieName for TypeB {
    const COOKIE_NAME: &'static str = "type_b";
}
impl CookieName for TypeC {
    const COOKIE_NAME: &'static str = "type_c";
}
impl CookieName for TypeD {
    const COOKIE_NAME: &'static str = "type_d";
}

#[derive(Debug, PartialEq, Clone)]
pub struct GetType {
    name: String,
}

impl Serialize for GetType {
    fn serialize<S: Serializer>(&self, serializer: S) -> Result<S::Ok, S::Error> {
        let mut state = serializer.serialize_struct("GetType", 1)?;
        state.serialize_field("name", &self.name)?;
        state.end()
    }
}

struct GetTypeVisitor;

impl<'de> Visitor<'de> for GetTypeVisitor {
    type Value = GetType;

    fn expecting(&self, f: &mut fmt::Formatter) -> fmt::Result {
        f.write_str("struct GetType")
    }

    fn visit_map<A: MapAccess<'de>>(self, mut map: A) -> Result<GetType, A::Error> {
        let mut name: Option<String> = None;
        while let Some(key) = map.next_key::<String>()? {
            if key == "name" {
                if name.is_some() {
                    return Err(A::Error::duplicate_field("name"));
                }
                name = Some(map.next_value()?);
            } else {
                map.next_value::<IgnoredAny>()?;
            }
        }
        match name {
            Some(name) => Ok(GetType { name }),
            None => Err(A::Error::missing_field("name")),
        }
    }
}

impl<'de> Deserialize<'de> for GetType {
    fn deserialize<D: Deserializer<'de>>(deserializer: D) -> Result<Self, D::Error> {
        deserializer.deserialize_struct("GetType", &["name"], GetTypeVisitor)
    }
}

fn read(raw: &str) -> Option<GetType> {
    serde_json::from_str(raw).ok()
}

fn write(values: GetType) -> Value {
    serde_json::to_value(values).unwrap()
}

fn january_15th() -> Zoned {
    date(2024, 1, 15)
        .at(0, 0, 0, 0)
        .to_zoned(TimeZone::UTC)
        .unwrap()
}

fn expiration(at: &Zoned) -> Expiration {
    Expiration::DateTime(Moment::from_unix_seconds(at.timestamp().as_second()).unwrap())
}

// read and write for type a
impl OutgoingConfig for TypeA {
    type Insert = GetType;

    fn serialize(values: Self::Insert) -> Value {
        write(values)
    }
}
impl IncomingConfig for TypeA {
    type Get = GetType;

    fn deserialize(raw: &str) -> Option<GetType> {
        read(raw)
    }

    fn shape() -> &'static str {
        "GetType"
    }
}

// read and write for type b
impl OutgoingConfig for TypeB {
    type Insert = (String, i32);

    fn serialize(values: Self::Insert) -> Value {
        let mut object = serde_json::Map::new();
        object.insert(
            "name".to_string(),
            Value::String(format!("{} is {}", values.0, values.1)),
        );
        Value::Object(object)
    }
}
impl IncomingConfig for TypeB {
    type Get = GetType;

    fn deserialize(raw: &str) -> Option<GetType> {
        read(raw)
    }

    fn shape() -> &'static str {
        "GetType"
    }
}

// read and write for type c
impl OutgoingConfig for TypeC {
    type Insert = GetType;

    fn serialize(values: Self::Insert) -> Value {
        write(values)
    }

    fn attributes() -> Attributes {
        let date = january_15th();

        Attributes::new()
            .path("/some-path")
            .domain("..example.com")
            .same_site(Some(SameSite::Lax))
            .secure(Some(true))
            .http_only(Some(true))
            .partitioned(Some(true))
            .expires(Some(expiration(&date)))
            .max_age(Some(SignedDuration::from_hours(10).as_secs()))
    }
}
impl IncomingConfig for TypeC {
    type Get = GetType;

    fn deserialize(raw: &str) -> Option<GetType> {
        read(raw)
    }

    fn shape() -> &'static str {
        "GetType"
    }
}

// read and write for type d
impl OutgoingConfig for TypeD {
    type Insert = GetType;

    fn serialize(values: Self::Insert) -> Value {
        write(values)
    }

    fn attributes() -> Attributes {
        Attributes::new().permanent(true)
    }
}
impl IncomingConfig for TypeD {
    type Get = GetType;

    fn deserialize(raw: &str) -> Option<GetType> {
        read(raw)
    }

    fn shape() -> &'static str {
        "GetType"
    }
}

#[test]
fn get() {
    // Set up
    // Initialize storage
    let mut storage = Storage::new();
    let get_type_value = GetType {
        name: "some value".to_string(),
    };

    storage.append("type_a", r#"{ "name": "some value" }"#);

    // Use generic type parameter to create a cookie instance
    let cookie = Cookie::<TypeA>::new();

    let typed_request_value = cookie.get(&storage);

    assert_eq!(typed_request_value.is_ok(), true);
    assert_eq!(typed_request_value, Ok(get_type_value));
}

#[test]
fn get_all() {
    // Set up
    // Initialize storage
    let mut storage = Storage::new();
    let get_type_values = vec![
        GetType {
            name: "some value 1".to_string(),
        },
        GetType {
            name: "some value 2".to_string(),
        },
    ];

    storage.append("type_a", r#"{ "name": "some value 1" }"#);
    storage.append("type_a", r#"{ "name": "some value 2" }"#);

    // Use generic type parameter to create a cookie instance
    let cookie = Cookie::<TypeA>::new();

    let typed_request_value = cookie.get_all(&storage);

    assert_eq!(typed_request_value.is_ok(), true);
    assert_eq!(typed_request_value, Ok(get_type_values));
}

#[test]
fn insert_cookie() {
    // Set up
    // Initialize storage
    let mut storage = Storage::new();
    let outgoing_cookie =
        OutboundCookie::new("type_a", r#"{ "name": "some value" }"#.to_string());
    // The id determined by name path and domain
    let outgoing_cookie_id = outgoing_cookie.id().set_path("/");
    let get_type_value = GetType {
        name: "some value ".to_string(),
    };

    // Use generic type parameter to create a cookie instance
    let cookie = Cookie::<TypeA>::new();

    cookie.insert(&mut storage, get_type_value);

    let response_cookie = storage.get_outbound(&outgoing_cookie_id);

    assert_eq!(response_cookie.is_some(), true);
    assert_eq!(
        response_cookie.unwrap().name_value(),
        ("type_a", r#"{"name":"some value "}"#)
    );
}

#[test]
fn insert_cookie_with_custom_serialize_impl() {
    // Set up
    // Initialize storage
    let mut storage = Storage::new();
    let outgoing_cookie =
        OutboundCookie::new("type_b", r#"{ "name": "some value is 32" }"#.to_string());
    // The id determined by name path and domain
    let outgoing_cookie_id = outgoing_cookie.id().set_path("/");
    let get_type_value = ("some value".to_string(), 32);

    // Use generic type parameter to create a cookie instance
    let cookie = Cookie::<TypeB>::new();

    cookie.insert(&mut storage, get_type_value);

    let response_cookie = storage.get_outbound(&outgoing_cookie_id);

    assert_eq!(response_cookie.is_some(), true);
    assert_eq!(
        response_cookie.unwrap().name_value(),
        ("type_b", r#"{"name":"some value is 32"}"#)
    );
}

#[test]
fn insert_cookie_with_custom_attributes() {
    // Set up
    // Initialize storage
    let mut storage = Storage::new();
    let outgoing_cookie =
        OutboundCookie::new("type_c", r#"{ "name": "some value" }"#.to_string());
    // The id determined by name path and domain
    let outgoing_cookie_id = outgoing_cookie
        .id()
        .set_path("/some-path")
        .set_domain("..example.com");
    let get_type_value = GetType {
        name: "some value".to_string(),
    };

    // Expiration cookie set up
    let date = january_15th();

    // Use generic type parameter to create a cookie instance
    let cookie = Cookie::<TypeC>::new();

    cookie.insert(&mut storage, get_type_value);

    let response_cookie = storage.get_outbound(&outgoing_cookie_id);

    assert_eq!(response_cookie.is_some(), true);
    let response_cookie = response_cookie.unwrap();
    assert_eq!(
        response_cookie.name_value(),
        ("type_c", r#"{"name":"some value"}"#)
    );
    assert_eq!(response_cookie.path.as_deref(), Some("/some-path"));
    assert_eq!(response_cookie.domain().as_deref(), Some(".example.com"));
    assert_eq!(response_cookie.same_site, Some(SameSite::Lax));
    assert_eq!(response_cookie.http_only, Some(true));
    assert_eq!(response_cookie.secure, Some(true));
    assert_eq!(response_cookie.partitioned, Some(true));
    assert_eq!(response_cookie.expires, Some(expiration(&date)));
    assert_eq!(
        response_cookie.max_age,
        Some(SignedDuration::from_hours(10).as_secs())
    );
}

#[test]
fn double_insert_cookie_with_custom_attributes_should_not_change_attributes_values() {
    // Set up
    // Initialize storage
    let mut storage = Storage::new();
    let outgoing_cookie =
        OutboundCookie::new("type_c", r#"{ "name": "some value" }"#.to_string());
    // The id determined by name path and domain
    let outgoing_cookie_id = outgoing_cookie
        .id()
        .set_path("/some-path")
        .set_domain("..example.com");
    let get_type_value = GetType {
        name: "some value".to_string(),
    };

    // Expiration cookie set up
    let date = january_15th();

    // Use generic type parameter to create a cookie instance
    let cookie = Cookie::<TypeC>::new();

    cookie.insert(&mut storage, get_type_value.clone());
    cookie.insert(&mut storage, get_type_value);

    let response_cookie = storage.get_outbound(&outgoing_cookie_id);

    assert_eq!(response_cookie.is_some(), true);
    let response_cookie = response_cookie.unwrap();
    assert_eq!(
        response_cookie.name_value(),
        ("type_c", r#"{"name":"some value"}"#)
    );
    assert_eq!(response_cookie.path.as_deref(), Some("/some-path"));
    assert_eq!(response_cookie.domain().as_deref(), Some(".example.com"));
    assert_eq!(response_cookie.same_site, Some(SameSite::Lax));
    assert_eq!(response_cookie.http_only, Some(true));
    assert_eq!(response_cookie.secure, Some(true));
    assert_eq!(response_cookie.partitioned, Some(true));
    assert_eq!(response_cookie.expires, Some(expiration(&date)));
    assert_eq!(
        response_cookie.max_age,
        Some(SignedDuration::from_hours(10).as_secs())
    );
    assert_eq!(storage.drain().len(), 1);
}

#[test]
fn insert_cookie_with_permanent() {
    // Set up
    // Initialize storage
    let mut storage = Storage::new();
    let outgoing_cookie =
        OutboundCookie::new("type_d", r#"{ "name": "some value" }"#.to_string());
    // The id determined by name path and domain
    let outgoing_cookie_id = outgoing_cookie.id();
    let get_type_value = GetType {
        name: "some value".to_string(),
    };

    // Use generic type parameter to create a cookie instance
    let cookie = Cookie::<TypeD>::new();

    cookie.insert(&mut storage, get_type_value);

    let response_cookie = storage.get_outbound(&outgoing_cookie_id);

    assert_eq!(response_cookie.is_some(), true);
    let response_cookie = response_cookie.unwrap();
    assert_eq!(
        response_cookie.name_value(),
        ("type_d", r#"{"name":"some value"}"#)
    );
    assert_eq!(
        response_cookie.max_age,
        Some(SignedDuration::from_hours(24 * 20 * 365).as_secs())
    );
}

#[test]
fn remove_cookie() {
    // Set up
    // Initialize storage
    let mut storage = Storage::new();
    let outgoing_cookie =
        OutboundCookie::new("type_b", r#"{ "name": "some value is 32" }"#.to_string());
    // The id determined by name path and domain
    let outgoing_cookie_id = outgoing_cookie.id().set_path("/");

    // Use generic type parameter to create a cookie instance
    let cookie = Cookie::<TypeB>::new();

    cookie.remove(&mut storage);

    let response_cookie = storage.get_outbound(&outgoing_cookie_id);

    assert_eq!(response_cookie.is_some(), true);
    let response_cookie = response_cookie.unwrap();
    assert_eq!(response_cookie.name_value(), ("type_b", ""));
    match response_cookie.expires {
        Some(Expiration::DateTime(at)) => {
            assert!(at.unix_seconds() < Zoned::now().timestamp().as_second());
            assert_eq!(at.unix_seconds(), 0);
        }
        other => panic!("no expiry at an instant: {:?}", other),
    }
}

#[test]
fn discard_cookie() {
    // Set up
    // Initialize storage
    let mut storage = Storage::new();
    let outgoing_cookie =
        OutboundCookie::new("type_b", r#"{ "name": "some value is 32" }"#.to_string());
    // The id determined by name path and domain
    let outgoing_cookie_id = outgoing_cookie.id().set_path("/");

    // Use generic type parameter to create a cookie instance
    let cookie = Cookie::<TypeB>::new();

    cookie.discard(&mut storage);

    let response_cookie = storage.get_outbound(&outgoing_cookie_id);

    assert_eq!(response_cookie.is_some(), false);
}

#[test]
fn get_of_an_absent_cookie_is_not_found() {
    let storage = Storage::new();
    let cookie = Cookie::<TypeA>::new();
    let expected = CookieBoxError::NotFound("type_a".to_string());
    assert_eq!(cookie.get(&storage), Err(expected.clone()));
    assert_eq!(cookie.get_all(&storage), Err(expected.clone()));
    assert_eq!(expected.message(), "`type_a` does not exist");
}

#[test]
fn get_of_a_value_that_cannot_be_read_carries_the_value_and_the_shape() {
    let mut storage = Storage::new();
    storage.append("type_a", "{ \"nome\": 1 }");
    storage.append("type_a", r#"{ "name": "fine" }"#);
    let cookie = Cookie::<TypeA>::new();
    let expected =
        CookieBoxError::Deserialization("{ \"nome\": 1 }".to_string(), "GetType".to_string());
    assert_eq!(cookie.get(&storage), Err(expected.clone()));
    assert_eq!(
        expected.message(),
        "Failed to deserialize `{ \"nome\": 1 }` to type `GetType`"
    );
}

#[test]
fn get_all_stops_at_the_first_value_that_cannot_be_read() {
    let mut storage = Storage::new();
    storage.append("type_a", r#"{ "name": "fine" }"#);
    storage.append("type_a", "second");
    storage.append("type_a", "third");
    let cookie = Cookie::<TypeA>::new();
    assert_eq!(
        cookie.get_all(&storage),
        Err(CookieBoxError::Deserialization(
            "second".to_string(),
            "GetType".to_string()
        ))
    );
    // get still reads the first
    assert_eq!(
        cookie.get(&storage),
        Ok(GetType {
            name: "fine".to_string()
        })
    );
}

#[test]
fn typed_keeps_a_value_and_names_what_failed() {
    assert_eq!(typed("raw".to_string(), "u8", Some(7u8)), Ok(7u8));
    assert_eq!(
        typed::<u8>("raw".to_string(), "u8", None),
        Err(CookieBoxError::Deserialization(
            "raw".to_string(),
            "u8".to_string()
        ))
    );
}

#[test]
fn attributes_of_the_handle_replace_those_of_the_type_in_full() {
    let mut storage = Storage::new();
    // TypeC sets path, domain and six more; the handle sets the secure flag only
    let cookie = Cookie::<TypeC>::with_attributes(Attributes::new().secure(Some(false)));
    cookie.insert(
        &mut storage,
        GetType {
            name: "v".to_string(),
        },
    );
    assert!(storage
        .get_outbound(
            &CookieId::new("type_c")
                .set_path("/some-path")
                .set_domain("..example.com")
        )
        .is_none());
    let written = storage.get_outbound(&CookieId::new("type_c")).unwrap();
    assert_eq!(written.secure, Some(false));
    assert_eq!(written.path, None);
    assert_eq!(written.domain, None);
    assert_eq!(written.http_only, None);
    assert_eq!(written.same_site, None);
    assert_eq!(written.partitioned, None);
    assert_eq!(written.max_age, None);
    assert_eq!(written.expires, None);
}

#[test]
fn second_insert_of_the_same_identity_wins() {
    let mut storage = Storage::new();
    let cookie = Cookie::<TypeA>::new();
    cookie.insert(
        &mut storage,
        GetType {
            name: "A".to_string(),
        },
    );
    cookie.insert(
        &mut storage,
        GetType {
            name: "B".to_string(),
        },
    );
    let all = storage.drain();
    assert_eq!(all.len(), 1);
    assert_eq!(all[0].name_value(), ("type_a", r#"{"name":"B"}"#));
    assert_eq!(all[0].path.as_deref(), Some("/"));
    assert_eq!(all[0].http_only, Some(true));
    assert_eq!(all[0].same_site, None);
    assert!(storage.drain().is_empty());
}

#[test]
fn remove_replaces_a_pending_insert_and_drains_as_one_entry() {
    let mut storage = Storage::new();
    let cookie = Cookie::<TypeA>::new();
    cookie.insert(
        &mut storage,
        GetType {
            name: "A".to_string(),
        },
    );
    cookie.remove(&mut storage);
    let all = storage.drain();
    assert_eq!(all.len(), 1);
    assert_eq!(all[0].name_value(), ("type_a", ""));
    assert_eq!(
        all[0].expires,
        Some(Expiration::DateTime(Moment::from_unix_seconds(0).unwrap()))
    );
    assert_eq!(all[0].path.as_deref(), Some("/"));
    assert_eq!(all[0].http_only, None);
    assert_eq!(all[0].max_age, None);
}

#[test]
fn discard_after_insert_leaves_nothing_under_the_identity() {
    let mut storage = Storage::new();
    let cookie = Cookie::<TypeA>::new();
    cookie.insert(
        &mut storage,
        GetType {
            name: "A".to_string(),
        },
    );
    cookie.discard(&mut storage);
    assert!(storage
        .get_outbound(&CookieId::new("type_a").set_path("/"))
        .is_none());
    assert!(storage.drain().is_empty());
}

#[test]
fn discard_takes_back_a_removal_too() {
    let mut storage = Storage::new();
    let cookie = Cookie::<TypeA>::new();
    cookie.remove(&mut storage);
    cookie.discard(&mut storage);
    assert!(storage.drain().is_empty());
}

#[test]
fn discard_leaves_another_identity_of_the_same_name() {
    let mut storage = Storage::new();
    Cookie::<TypeA>::with_attributes(Attributes::new().path("/other")).insert(
        &mut storage,
        GetType {
            name: "kept".to_string(),
        },
    );
    Cookie::<TypeA>::new().discard(&mut storage);
    let all = storage.drain();
    assert_eq!(all.len(), 1);
    assert_eq!(all[0].path.as_deref(), Some("/other"));
}

#[test]
fn permanent_supersedes_max_age_and_expiry() {
    let mut storage = Storage::new();
    let attributes = Attributes::new()
        .max_age(Some(10))
        .expires(Some(expiration(&january_15th())))
        .permanent(true);
    let before = Zoned::now().timestamp().as_second();
    insert_value(
        &mut storage,
        "forever",
        &Value::String("v".to_string()),
        &attributes,
    );
    let after = Zoned::now().timestamp().as_second();
    let written = storage.get_outbound(&CookieId::new("forever")).unwrap();
    assert_eq!(written.value, "\"v\"");
    assert_eq!(written.max_age, Some(20 * 365 * 24 * 60 * 60));
    match written.expires {
        Some(Expiration::DateTime(at)) => {
            assert!(before + 630_720_000 <= at.unix_seconds());
            assert!(at.unix_seconds() <= after + 630_720_000);
        }
        other => panic!("no expiry at an instant: {:?}", other),
    }
}

#[test]
fn insert_value_writes_the_json_text() {
    let mut storage = Storage::new();
    let mut object = serde_json::Map::new();
    object.insert("n".to_string(), Value::from(3));
    object.insert("s".to_string(), Value::String("a b".to_string()));
    insert_value(
        &mut storage,
        "j",
        &Value::Object(object),
        &Attributes::new().expires(Some(Expiration::Session)),
    );
    let written = storage.get_outbound(&CookieId::new("j")).unwrap();
    assert_eq!(written.name_value(), ("j", r#"{"n":3,"s":"a b"}"#));
    assert_eq!(written.expires, Some(Expiration::Session));
}
