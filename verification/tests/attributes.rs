use cookiebox::attributes::{MAX_SECOND, MIN_SECOND};
use cookiebox::outbound::{CookieId, OutboundCookie, TWENTY_YEARS};
use cookiebox::{Attributes, Expiration, Moment, SameSite};

fn cookie(attributes: &Attributes) -> OutboundCookie {
    OutboundCookie::new("n", "v".to_string()).set_attributes(attributes)
}

fn at(second: i64) -> Expiration {
    Expiration::DateTime(Moment::from_unix_seconds(second).unwrap())
}

#[test]
fn new_attributes_set_nothing() {
    let c = cookie(&Attributes::new());
    assert_eq!(c, OutboundCookie::new("n", "v".to_string()));
    assert_eq!(c.name, "n");
    assert_eq!(c.value, "v");
    assert_eq!(c.path, None);
    assert_eq!(c.domain, None);
    assert_eq!(c.secure, None);
    assert_eq!(c.http_only, None);
    assert_eq!(c.partitioned, None);
    assert_eq!(c.same_site, None);
    assert_eq!(c.max_age, None);
    assert_eq!(c.expires, None);
}

#[test]
fn default_attributes_are_the_root_path_and_http_only() {
    let c = cookie(&Attributes::default());
    assert_eq!(c.path.as_deref(), Some("/"));
    assert_eq!(c.http_only, Some(true));
    assert_eq!(c.domain, None);
    assert_eq!(c.secure, None);
    assert_eq!(c.partitioned, None);
    assert_eq!(c.same_site, None);
    assert_eq!(c.max_age, None);
    assert_eq!(c.expires, None);
}

#[test]
fn each_setter_sets_its_own_attribute() {
    let attributes = Attributes::new()
        .path("/p")
        .domain("example.com")
        .secure(Some(false))
        .http_only(Some(true))
        .partitioned(Some(false))
        .same_site(Some(SameSite::Strict))
        .max_age(Some(-5))
        .expires(Some(at(1_700_000_000)));
    let c = cookie(&attributes);
    assert_eq!(c.path.as_deref(), Some("/p"));
    assert_eq!(c.domain.as_deref(), Some("example.com"));
    assert_eq!(c.secure, Some(false));
    assert_eq!(c.http_only, Some(true));
    assert_eq!(c.partitioned, Some(false));
    assert_eq!(c.same_site, Some(SameSite::Strict));
    assert_eq!(c.max_age, Some(-5));
    assert_eq!(c.expires, Some(at(1_700_000_000)));
}

#[test]
fn a_setter_called_with_none_clears_what_was_set() {
    let attributes = Attributes::default()
        .secure(Some(true))
        .secure(None)
        .http_only(None)
        .max_age(Some(1))
        .max_age(None)
        .expires(Some(Expiration::Session))
        .expires(None)
        .same_site(Some(SameSite::None))
        .same_site(None)
        .partitioned(Some(true))
        .partitioned(None)
        .permanent(true)
        .permanent(false);
    let c = cookie(&attributes);
    assert_eq!(c.path.as_deref(), Some("/"));
    assert_eq!(c.secure, None);
    assert_eq!(c.http_only, None);
    assert_eq!(c.max_age, None);
    assert_eq!(c.expires, None);
    assert_eq!(c.same_site, None);
    assert_eq!(c.partitioned, None);
}

#[test]
fn attributes_without_path_or_expiry_keep_those_of_the_cookie() {
    let mut base = OutboundCookie::new("n", "v".to_string());
    base.path = Some("/kept".to_string());
    base.domain = Some("kept.example".to_string());
    base.expires = Some(Expiration::Session);
    base.max_age = Some(9);
    base.secure = Some(true);
    let c = base.set_attributes(&Attributes::new());
    assert_eq!(c.path.as_deref(), Some("/kept"));
    assert_eq!(c.domain.as_deref(), Some("kept.example"));
    assert_eq!(c.expires, Some(Expiration::Session));
    // the maximum age and the flags are always those of the attributes
    assert_eq!(c.max_age, None);
    assert_eq!(c.secure, None);
}

#[test]
fn permanent_gives_twenty_years_whatever_else_is_set() {
    assert_eq!(TWENTY_YEARS, 20 * 365 * 24 * 60 * 60);
    let c = cookie(
        &Attributes::new()
            .max_age(Some(60))
            .expires(Some(Expiration::Session))
            .permanent(true),
    );
    assert_eq!(c.max_age, Some(630_720_000));
    assert!(matches!(c.expires, Some(Expiration::DateTime(_))));
    let c = cookie(&Attributes::new().permanent(true).max_age(Some(60)));
    assert_eq!(c.max_age, Some(630_720_000));
}

#[test]
fn domain_is_reported_without_one_leading_dot() {
    let c = cookie(&Attributes::new().domain("..example.com"));
    assert_eq!(c.domain.as_deref(), Some("..example.com"));
    assert_eq!(c.domain().as_deref(), Some(".example.com"));
    let c = cookie(&Attributes::new().domain(".example.com"));
    assert_eq!(c.domain().as_deref(), Some("example.com"));
    let c = cookie(&Attributes::new().domain("example.com"));
    assert_eq!(c.domain().as_deref(), Some("example.com"));
    let c = cookie(&Attributes::new().domain(""));
    assert_eq!(c.domain().as_deref(), Some(""));
    let c = cookie(&Attributes::new().domain("."));
    assert_eq!(c.domain().as_deref(), Some(""));
    let c = cookie(&Attributes::new());
    assert_eq!(c.domain(), None);
}

#[test]
fn identity_is_name_path_and_raw_domain() {
    let attributes = Attributes::new().path("/p").domain(".example.com");
    let c = cookie(&attributes);
    let id = CookieId::new("n").set_path("/p").set_domain(".example.com");
    assert_eq!(c.id(), id);
    assert_eq!(CookieId::with_attributes("n", &attributes), id);
    assert_eq!(
        CookieId::with_attributes("n", &Attributes::new()),
        CookieId::new("n")
    );
    assert_ne!(c.id(), CookieId::new("n").set_path("/p").set_domain("example.com"));
    assert_eq!(c.name_value(), ("n", "v"));
}

#[test]
fn moment_holds_the_seconds_an_expiry_can_name() {
    assert_eq!(Moment::from_unix_seconds(0).unwrap().unix_seconds(), 0);
    assert_eq!(Moment::from_unix_seconds(-1).unwrap().unix_seconds(), -1);
    assert_eq!(MIN_SECOND, -377_705_023_201);
    assert_eq!(MAX_SECOND, 253_402_207_200);
    assert_eq!(
        Moment::from_unix_seconds(MIN_SECOND).unwrap().unix_seconds(),
        MIN_SECOND
    );
    assert_eq!(
        Moment::from_unix_seconds(MAX_SECOND).unwrap().unix_seconds(),
        MAX_SECOND
    );
    assert_eq!(Moment::from_unix_seconds(MIN_SECOND - 1), None);
    assert_eq!(Moment::from_unix_seconds(MAX_SECOND + 1), None);
    assert_eq!(Moment::from_unix_seconds(i64::MAX), None);
    assert_eq!(Moment::from_unix_seconds(i64::MIN), None);
}

#[test]
fn moment_bounds_are_those_of_the_time_crate() {
    assert_eq!(biscotti::time::Timestamp::MIN.as_second(), MIN_SECOND);
    assert_eq!(biscotti::time::Timestamp::MAX.as_second(), MAX_SECOND);
    assert!(biscotti::time::Timestamp::from_second(MIN_SECOND - 1).is_err());
    assert!(biscotti::time::Timestamp::from_second(MAX_SECOND + 1).is_err());
}

#[test]
fn permanent_supersedes_the_expiry_and_the_max_age_of_the_builder() {
    let d = biscotti::time::civil::date(2024, 1, 15)
        .at(0, 0, 0, 0)
        .to_zoned(biscotti::time::tz::TimeZone::UTC)
        .unwrap();
    let set = at(d.timestamp().as_second());
    let ten_hours = biscotti::time::SignedDuration::from_hours(10).as_secs();
    let twenty_years = biscotti::time::SignedDuration::from_hours(24 * 20 * 365).as_secs();
    // in whatever order the setters ran
    for attributes in [
        Attributes::new()
            .expires(Some(set))
            .max_age(Some(ten_hours))
            .permanent(true),
        Attributes::new()
            .permanent(true)
            .max_age(Some(ten_hours))
            .expires(Some(set)),
    ] {
        let r = cookie(&attributes);
        assert_eq!(r.max_age, Some(twenty_years));
        assert_ne!(r.max_age, Some(ten_hours));
        assert_ne!(r.expires, Some(set));
        assert!(matches!(r.expires, Some(Expiration::DateTime(_))));
    }
}

#[test]
fn permanent_lifetime_is_that_of_the_cookie_crate() {
    let theirs = biscotti::ResponseCookie::new("n", "v").make_permanent();
    let ours = cookie(&Attributes::new().permanent(true));
    assert_eq!(ours.max_age, theirs.max_age().map(|d| d.as_secs()));
    assert_eq!(ours.max_age, Some(TWENTY_YEARS));
    let their_expiry = theirs.expires_datetime().unwrap().timestamp().as_second();
    match ours.expires {
        Some(Expiration::DateTime(until)) => {
            assert!((their_expiry - until.unix_seconds()).abs() <= 5);
        }
        other => panic!("no expiry at an instant: {:?}", other),
    }
}

#[test]
fn set_attributes_until_takes_the_expiry_of_a_permanent_cookie_as_given() {
    let until = Moment::from_unix_seconds(2_000_000_000).unwrap();
    let attributes = Attributes::default()
        .max_age(Some(5))
        .expires(Some(Expiration::Session))
        .secure(Some(true))
        .permanent(true);
    let r = OutboundCookie::new("n", "v".to_string()).set_attributes_until(&attributes, until);
    let mut expected = OutboundCookie::new("n", "v".to_string());
    expected.path = Some("/".to_string());
    expected.http_only = Some(true);
    expected.secure = Some(true);
    expected.max_age = Some(630_720_000);
    expected.expires = Some(Expiration::DateTime(until));
    assert_eq!(r, expected);
}

#[test]
fn set_attributes_until_leaves_the_instant_aside_unless_permanent() {
    let until = Moment::from_unix_seconds(2_000_000_000).unwrap();
    let attributes = Attributes::new()
        .max_age(Some(5))
        .expires(Some(Expiration::Session));
    let r = OutboundCookie::new("n", "v".to_string()).set_attributes_until(&attributes, until);
    assert_eq!(r.max_age, Some(5));
    assert_eq!(r.expires, Some(Expiration::Session));
    assert_eq!(r, cookie(&attributes));
    let r = OutboundCookie::new("n", "v".to_string()).set_attributes_until(&Attributes::new(), until);
    assert_eq!(r.expires, None);
    assert_eq!(Moment::unix_epoch().unix_seconds(), 0);
}
