use cache_service::routes::{endpoints, Endpoint, Method};
use cache_service::singleflight::{FlightAction, FlightEvent, SingleFlight};

fn arrive(flights: &mut SingleFlight<u32>, key: &str) -> FlightAction<u32> {
    flights.do_call(FlightEvent::Arrived(key.to_string()))
}

#[test]
fn first_caller_begins_and_the_others_join() {
    let mut flights: SingleFlight<u32> = SingleFlight::new();
    assert!(matches!(arrive(&mut flights, "k"), FlightAction::Begin));
    let begun = FlightEvent::Begun("k".to_string(), 42);
    assert!(matches!(flights.do_call(begun), FlightAction::Await));
    assert!(matches!(arrive(&mut flights, "k"), FlightAction::Join(42)));
    assert!(matches!(arrive(&mut flights, "k"), FlightAction::Join(42)));
}

#[test]
fn callers_for_another_key_begin_their_own_work() {
    let mut flights: SingleFlight<u32> = SingleFlight::new();
    flights.do_call(FlightEvent::Begun("k".to_string(), 1));
    assert!(matches!(arrive(&mut flights, "j"), FlightAction::Begin));
    flights.do_call(FlightEvent::Begun("j".to_string(), 2));
    assert!(matches!(arrive(&mut flights, "k"), FlightAction::Join(1)));
    assert!(matches!(arrive(&mut flights, "j"), FlightAction::Join(2)));
    flights.do_call(FlightEvent::Landed("k".to_string()));
    assert!(matches!(arrive(&mut flights, "j"), FlightAction::Join(2)));
}

#[test]
fn work_is_shared_whatever_else_happens() {
    let mut flights: SingleFlight<u32> = SingleFlight::new();
    flights.do_call(FlightEvent::Begun("k".to_string(), 7));
    flights.do_call(FlightEvent::Begun("j".to_string(), 8));
    arrive(&mut flights, "k");
    flights.do_call(FlightEvent::Landed("j".to_string()));
    arrive(&mut flights, "j");
    assert!(matches!(arrive(&mut flights, "k"), FlightAction::Join(7)));
}

#[test]
fn work_begins_anew_once_it_has_landed() {
    let mut flights: SingleFlight<u32> = SingleFlight::new();
    flights.do_call(FlightEvent::Begun("k".to_string(), 1));
    let landed = FlightEvent::Landed("k".to_string());
    assert!(matches!(flights.do_call(landed), FlightAction::Return));
    assert!(matches!(arrive(&mut flights, "k"), FlightAction::Begin));
    flights.do_call(FlightEvent::Begun("k".to_string(), 2));
    assert!(matches!(arrive(&mut flights, "k"), FlightAction::Join(2)));
}

#[test]
fn endpoints_are_where_they_are_documented() {
    let table: Vec<(Endpoint, Method, &str)> = endpoints().into_iter().map(|endpoint| {
        (endpoint, endpoint.method(), endpoint.path())
    }).collect();
    assert_eq!(
        table,
        vec![
            (Endpoint::LoadCacheEntries, Method::Get, "/cache"),
            (Endpoint::FindCacheByKey, Method::Get, "/cache/{key}"),
            (Endpoint::SaveCache, Method::Post, "/cache/{key}"),
            (Endpoint::DeleteCache, Method::Delete, "/cache/{key}"),
            (Endpoint::InvalidateByText, Method::Delete, "/cache/patterns/{text}"),
            (Endpoint::HealthCheck, Method::Get, "/health-check"),
        ]
    );
}

#[test]
fn no_two_endpoints_share_a_place() {
    let all = endpoints();
    for (i, one) in all.iter().enumerate() {
        for other in &all[i + 1..] {
            assert!(one.method() != other.method() || one.path() != other.path());
        }
    }
}
