use wakkave::routes::{Route, RouterComponent};

#[test]
fn succeed_to_convert_feed() {
    let sut: Route<()> = Route {
        fragment: Some("feed".to_owned()),
        ..Default::default()
    };
    let cmp: RouterComponent = sut.clone().into();
    assert_eq!(cmp, RouterComponent::Feed);
    assert_eq!(sut, RouterComponent::Feed.into());
}

#[test]
fn succeed_to_convert_loading() {
    let sut: Route<()> = Route {
        fragment: Some("loading".to_owned()),
        ..Default::default()
    };
    let cmp: RouterComponent = sut.clone().into();
    assert_eq!(cmp, RouterComponent::Loading);
    assert_eq!(sut, RouterComponent::Loading.into());
}

#[test]
fn succeed_to_convert_login() {
    let sut: Route<()> = Route {
        fragment: Some("login".to_owned()),
        ..Default::default()
    };
    let cmp: RouterComponent = sut.clone().into();
    assert_eq!(cmp, RouterComponent::Login);
    assert_eq!(sut, RouterComponent::Login.into());
}

#[test]
fn succeed_to_convert_error() {
    let sut: Route<()> = Route {
        fragment: Some("error".to_owned()),
        ..Default::default()
    };
    let cmp: RouterComponent = sut.clone().into();
    assert_eq!(cmp, RouterComponent::Error);
    assert_eq!(sut, RouterComponent::Error.into());
}

#[test]
fn succeed_to_convert_unknown() {
    let sut: Route<()> = Route {
        fragment: Some("new_route".to_owned()),
        ..Default::default()
    };
    let cmp: RouterComponent = sut.into();
    assert_eq!(cmp, RouterComponent::Error);
}

#[test]
fn missing_fragment_is_the_error_page() {
    let sut: Route<()> = Route::default();
    assert_eq!(RouterComponent::from(sut), RouterComponent::Error);
    assert_eq!(RouterComponent::Feed.fragment(), "feed");
    assert_eq!(RouterComponent::from_fragment(&Some("login".to_string())), RouterComponent::Login);
}

#[test]
fn route_for_a_page() {
    let r: Route<()> = Route::for_page(RouterComponent::Loading);
    assert_eq!(r.fragment, Some("loading".to_string()));
    assert!(r.path_segments.is_empty());
    assert_eq!(r.query, None);
}
