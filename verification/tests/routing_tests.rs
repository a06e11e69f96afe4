use cim_keys::graph_model::Position;
use cim_keys::routing::{
    compose_routes, filter_router, graph_router, io_router, parallel_route, search_router, system_router,
    AppMessage, Fanout, GraphFilterIntent, GraphIntent, IntentClassifier, IoIntent, LayoutType,
    MessageCategory, Route, SystemIntent,
};

fn fresh() -> u128 {
    uuid::Uuid::now_v7().as_u128()
}

#[test]
fn test_graph_router() {
    let router = graph_router();
    let node_id = fresh();

    let msg = AppMessage::ConceptEntityClicked(node_id);
    let intent = router.route(&msg);

    assert_eq!(intent, Some(GraphIntent::NodeClicked(node_id)));
}

#[test]
fn test_graph_router_ignores_non_graph_messages() {
    let router = graph_router();
    let msg = AppMessage::SearchQueryChanged("test".to_string());

    let intent = router.route(&msg);
    assert_eq!(intent, None);
}

#[test]
fn test_filter_router() {
    let router = filter_router();
    let msg = AppMessage::FilterPeopleToggled(false);

    let intent = router.route(&msg);
    assert!(intent.is_some());

    if let Some(GraphFilterIntent::ToggleCategoryFilter { people, .. }) = intent {
        assert_eq!(people, Some(false));
    } else {
        panic!("Expected ToggleCategoryFilter intent");
    }
}

#[test]
fn test_search_router() {
    let router = search_router();
    let msg = AppMessage::SearchQueryChanged("alice".to_string());

    let intent = router.route(&msg);
    assert_eq!(intent, Some(GraphFilterIntent::SearchQueryChanged("alice".to_string())));
}

#[test]
fn test_io_router() {
    let router = io_router();
    let msg = AppMessage::ExportRequested { path: "/tmp/export".to_string(), include_keys: true };

    let intent = router.route(&msg);
    assert_eq!(
        intent,
        Some(IoIntent::Export { path: "/tmp/export".to_string(), include_keys: true })
    );
}

#[test]
fn test_system_router() {
    let router = system_router();
    let msg = AppMessage::ErrorOccurred("Test error".to_string());

    let intent = router.route(&msg);
    assert_eq!(intent, Some(SystemIntent::Error("Test error".to_string())));
}

#[test]
fn test_compose_routes() {
    let combined = compose_routes(filter_router(), search_router());

    let filter_msg = AppMessage::FilterPeopleToggled(true);
    assert!(combined.route(&filter_msg).is_some());

    let search_msg = AppMessage::SearchQueryChanged("test".to_string());
    assert!(combined.route(&search_msg).is_some());

    let graph_msg = AppMessage::ConceptEntityClicked(fresh());
    assert!(combined.route(&graph_msg).is_none());
}

#[test]
fn test_intent_classifier() {
    let classifier = IntentClassifier::new("TestClassifier");

    let graph_msg = AppMessage::ConceptEntityClicked(fresh());
    assert_eq!(classifier.classify(&graph_msg), MessageCategory::Graph);

    let filter_msg = AppMessage::FilterPeopleToggled(true);
    assert_eq!(classifier.classify(&filter_msg), MessageCategory::Filter);

    let search_msg = AppMessage::SearchCleared;
    assert_eq!(classifier.classify(&search_msg), MessageCategory::Search);

    let io_msg = AppMessage::ExportRequested { path: "/tmp".to_string(), include_keys: false };
    assert_eq!(classifier.classify(&io_msg), MessageCategory::Io);

    let system_msg = AppMessage::ErrorOccurred("error".to_string());
    assert_eq!(classifier.classify(&system_msg), MessageCategory::System);
}

#[test]
fn test_route_by_category() {
    let classifier = IntentClassifier::new("TestClassifier");

    assert_eq!(classifier.route_by_category(MessageCategory::Graph), "GraphRouter");
    assert_eq!(classifier.route_by_category(MessageCategory::Filter), "FilterRouter");
    assert_eq!(classifier.route_by_category(MessageCategory::Search), "SearchRouter");
}

#[test]
fn test_or_else_combinator() {
    let filter = filter_router();
    let search = search_router();

    let combined = filter.or_else(move |msg: &AppMessage| search.route(msg));

    let filter_msg = AppMessage::FilterNatsToggled(false);
    assert!(combined.route(&filter_msg).is_some());

    let search_msg = AppMessage::SearchCleared;
    assert!(combined.route(&search_msg).is_some());
}

#[test]
fn test_parallel_route() {
    let msg = AppMessage::StatusUpdated("Ready".to_string());

    let results = parallel_route(&msg, vec![Box::new(system_router())]);

    assert_eq!(results.len(), 1);
    assert_eq!(results[0], SystemIntent::Status("Ready".to_string()));
}

#[test]
fn routing_graph_router_passes_every_graph_message_through() {
    let router = graph_router();
    let p = Position { x_bits: 1.5f32.to_bits(), y_bits: 2.0f32.to_bits() };
    assert_eq!(
        router.route(&AppMessage::ConceptEntityDragged { node_id: 3, position: p }),
        Some(GraphIntent::NodeDragged { node_id: 3, position: p })
    );
    assert_eq!(
        router.route(&AppMessage::ConceptRelationCreated { from: 1, to: 2 }),
        Some(GraphIntent::EdgeCreated { from: 1, to: 2 })
    );
    assert_eq!(
        router.route(&AppMessage::GraphLayoutChanged(LayoutType::Circular)),
        Some(GraphIntent::LayoutChanged(LayoutType::Circular))
    );
}

#[test]
fn routing_filter_router_touches_one_category_only() {
    let router = filter_router();
    assert_eq!(
        router.route(&AppMessage::FilterYubikeyToggled(true)),
        Some(GraphFilterIntent::ToggleCategoryFilter {
            people: None,
            orgs: None,
            nats: None,
            pki: None,
            yubikey: Some(true),
        })
    );
    assert_eq!(router.route(&AppMessage::SearchCleared), None);
}

#[test]
fn routing_io_and_system_routers() {
    assert_eq!(
        io_router().route(&AppMessage::ImportRequested { path: "/in".to_string() }),
        Some(IoIntent::Import { path: "/in".to_string() })
    );
    assert_eq!(
        system_router().route(&AppMessage::StatusUpdated("ok".to_string())),
        Some(SystemIntent::Status("ok".to_string()))
    );
    assert_eq!(system_router().route(&AppMessage::SearchCleared), None);
}

#[test]
fn routing_classifier_names_each_router() {
    let classifier = IntentClassifier::new("c");
    assert_eq!(classifier.name, "c");
    assert_eq!(classifier.route_by_category(MessageCategory::Io), "IoRouter");
    assert_eq!(classifier.route_by_category(MessageCategory::System), "SystemRouter");
}

#[test]
fn routing_custom_route_and_composition_order() {
    let first = Route::new(|m: &AppMessage| match m {
        AppMessage::SearchCleared => Some(1u32),
        _ => None,
    });
    let second = Route::new(|m: &AppMessage| match m {
        AppMessage::SearchCleared => Some(2u32),
        _ => Some(3u32),
    });
    let combined = compose_routes(first, second);
    assert_eq!(combined.route(&AppMessage::SearchCleared), Some(1));
    assert_eq!(combined.route(&AppMessage::StatusUpdated("x".to_string())), Some(3));
}

#[test]
fn routing_parallel_collects_in_order() {
    let msg = AppMessage::SearchCleared;
    let results = parallel_route(&msg, vec![Box::new(search_router()), Box::new(search_router())]);
    assert_eq!(results, vec![GraphFilterIntent::ClearSearch, GraphFilterIntent::ClearSearch]);
    let none = parallel_route(&AppMessage::SearchCleared, vec![Box::new(system_router())]);
    assert!(none.is_empty());
}

#[test]
fn routing_fanout_gathers_labels_in_order() {
    let fanout = Fanout::new()
        .add_router(|m: &AppMessage| vec![format!("{:?}", m)])
        .add_router(|_m: &AppMessage| vec!["metrics".to_string(), "log".to_string()]);
    let labels = fanout.route(&AppMessage::SearchCleared);
    assert_eq!(labels, vec!["SearchCleared".to_string(), "metrics".to_string(), "log".to_string()]);
    let empty = Fanout::new();
    assert!(empty.route(&AppMessage::SearchCleared).is_empty());
}
