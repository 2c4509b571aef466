use vibes::api::errors::AppError;
use vibes::entities::diagram::CloudProvider;
use vibes::entities::edge::EdgeType;
use vibes::entities::errors::DomainError;
use vibes::events::GenerateEventType;
use vibes::persistence::{cloud_provider_str, edge_type_str, parse_cloud_provider, parse_edge_type};
use vibes::streaming::{plan_change_events, plan_generation_events, EventRelay, RelayAction, failure_message};
use vibes::weather::{AppError as WeatherError, GetWeatherUseCase, MockWeatherClient, WeatherApi};

#[test]
fn providers_round_trip_through_storage() {
    for p in [CloudProvider::Aws, CloudProvider::Gcp, CloudProvider::Azure] {
        assert_eq!(parse_cloud_provider(cloud_provider_str(p)), Some(p));
    }
    assert_eq!(parse_cloud_provider("aws"), None);
}

#[test]
fn edge_types_round_trip_through_storage() {
    for t in [EdgeType::Synchronous, EdgeType::Asynchronous, EdgeType::DataFlow, EdgeType::Dependency] {
        assert_eq!(parse_edge_type(edge_type_str(t)), t);
    }
    assert_eq!(parse_edge_type("garbage"), EdgeType::Synchronous);
}

#[test]
fn event_names() {
    assert_eq!(GenerateEventType::NodeAdded.as_str(), "node_added");
    assert_eq!(GenerateEventType::LayoutUpdated.as_str(), "layout_updated");
    assert_eq!(GenerateEventType::Error.as_str(), "error");
}

#[test]
fn http_answers_for_errors() {
    let e = AppError::from(DomainError::NotFound("Diagram 1".to_string()));
    assert_eq!(e.status(), 404);
    assert_eq!(e.code(), "NOT_FOUND");
    assert_eq!(e.error_text(), "Entity not found: Diagram 1");
    let e = AppError(DomainError::AiError("x".to_string()));
    assert_eq!((e.status(), e.code()), (502, "AI_ERROR"));
    let e = AppError(DomainError::PersistenceError("x".to_string()));
    assert_eq!((e.status(), e.code()), (500, "INTERNAL_ERROR"));
    let e = AppError(DomainError::Validation("x".to_string()));
    assert_eq!((e.status(), e.code()), (400, "VALIDATION_ERROR"));
}

#[test]
fn event_plans() {
    let g = plan_generation_events(2, 1);
    assert_eq!(
        g,
        vec![
            (GenerateEventType::NodeAdded, 0),
            (GenerateEventType::NodeAdded, 1),
            (GenerateEventType::EdgeAdded, 0),
            (GenerateEventType::Complete, 0)
        ]
    );
    let c = plan_change_events(1, 0, 1, 0, 1);
    assert_eq!(
        c,
        vec![
            (GenerateEventType::NodeRemoved, 0),
            (GenerateEventType::NodeUpdated, 0),
            (GenerateEventType::EdgeAdded, 0),
            (GenerateEventType::Complete, 0)
        ]
    );
}

#[test]
fn relay_holds_until_stored() {
    let mut relay = EventRelay::new();
    assert_eq!(relay.on_event(GenerateEventType::NodeAdded), RelayAction::Hold);
    assert_eq!(relay.on_event(GenerateEventType::Error), RelayAction::Forward);
    assert_eq!(relay.on_event(GenerateEventType::EdgeAdded), RelayAction::Hold);
    assert_eq!(relay.on_event(GenerateEventType::Complete), RelayAction::Persist);
    assert_eq!(relay.replay(), vec![0, 1, 2]);
    let m = failure_message("persist", &DomainError::PersistenceError("disk".to_string()));
    assert_eq!(m, "Failed to persist diagram: Persistence error: disk");
}

#[test]
fn mock_weather_answers() {
    let client = MockWeatherClient;
    let w = client.fetch_weather("London").ok().unwrap();
    assert_eq!(w.location.city, "London");
    assert_eq!(f32::from_bits(w.temperature_bits), 15.5);
    assert_eq!(w.humidity_percent, 78);
    let w = client.fetch_weather("TOKYO").ok().unwrap();
    assert_eq!(f32::from_bits(w.temperature_bits), 22.1);
    match client.fetch_weather("Mars") {
        Err(e @ WeatherError::NotFound(_)) => assert_eq!(
            e.message(),
            "Domain Error: Location not found. Mars is outside our supported geographical scope."
        ),
        _ => panic!("expected not found"),
    }
    assert!(matches!(client.fetch_weather(""), Err(WeatherError::ParsingError(_))));
    match client.fetch_weather("Atlantis") {
        Err(WeatherError::ApiFailure(m)) => assert_eq!(m, "Could not retrieve weather data for 'Atlantis'. Check location spelling."),
        _ => panic!("expected an API failure"),
    }
}

#[test]
fn use_case_delegates() {
    let uc = GetWeatherUseCase::new(MockWeatherClient);
    assert!(uc.execute("london").is_ok());
    assert!(uc.execute("Atlantis").is_err());
    assert_eq!(WeatherError::Unknown("?".to_string()).message(), "An unknown error occurred: ?");
}
