//! The pages of the client and the URL fragments that name them.

use vstd::prelude::*;
use crate::text::owned;

verus! {

/// The page that a fragment of the URL selects.
#[derive(Clone, Copy, Debug, PartialEq, Eq, Structural)]
pub enum RouterComponent {
    Feed,
    Loading,
    Login,
    Error,
}

/// A location of the client: path, query and fragment, with a state.
#[derive(Clone, Debug, PartialEq, Default)]
pub struct Route<T> {
    pub path_segments: Vec<String>,
    pub query: Option<String>,
    pub fragment: Option<String>,
    pub state: T,
}

pub open spec fn fragment_text(c: RouterComponent) -> Seq<char> {
    match c {
        RouterComponent::Feed => "feed"@,
        RouterComponent::Loading => "loading"@,
        RouterComponent::Login => "login"@,
        RouterComponent::Error => "error"@,
    }
}

/// The page of a fragment; an unknown or missing fragment is the error
/// page.
pub open spec fn component_of(fragment: Option<Seq<char>>) -> RouterComponent {
    match fragment {
        Some(f) => if f == "feed"@ {
            RouterComponent::Feed
        } else if f == "loading"@ {
            RouterComponent::Loading
        } else if f == "login"@ {
            RouterComponent::Login
        } else {
            RouterComponent::Error
        },
        None => RouterComponent::Error,
    }
}

pub open spec fn fragment_view(fragment: Option<String>) -> Option<Seq<char>> {
    match fragment {
        Some(s) => Some(s@),
        None => None,
    }
}

impl RouterComponent {
    /// The fragment that names the page.
    pub fn fragment(self) -> (r: String)
        ensures
            r@ == fragment_text(self),
    {
        match self {
            RouterComponent::Feed => owned("feed"),
            RouterComponent::Loading => owned("loading"),
            RouterComponent::Login => owned("login"),
            RouterComponent::Error => owned("error"),
        }
    }

    /// The page that `fragment` names.
    pub fn from_fragment(fragment: &Option<String>) -> (r: RouterComponent)
        ensures
            r == component_of(fragment_view(*fragment)),
    {
        match fragment {
            Some(f) => if *f == owned("feed") {
                RouterComponent::Feed
            } else if *f == owned("loading") {
                RouterComponent::Loading
            } else if *f == owned("login") {
                RouterComponent::Login
            } else {
                RouterComponent::Error
            },
            None => RouterComponent::Error,
        }
    }
}

impl<T> From<Route<T>> for RouterComponent {
    fn from(route: Route<T>) -> (r: RouterComponent) {
        RouterComponent::from_fragment(&route.fragment)
    }
}

impl<T> vstd::std_specs::convert::FromSpecImpl<Route<T>> for RouterComponent {
    open spec fn obeys_from_spec() -> bool {
        true
    }

    open spec fn from_spec(route: Route<T>) -> RouterComponent {
        component_of(fragment_view(route.fragment))
    }
}

impl<T: Default> Route<T> {
    /// The route to `page`: its fragment, no path, no query, and the
    /// default state.
    pub fn for_page(page: RouterComponent) -> (r: Route<T>)
        ensures
            r.path_segments@.len() == 0,
            r.query is None,
            r.fragment matches Some(f) && f@ == fragment_text(page),
    {
        Route {
            path_segments: Vec::new(),
            query: None,
            fragment: Some(page.fragment()),
            state: T::default(),
        }
    }
}

impl<T: Default> From<RouterComponent> for Route<T> {
    /// The route of `Route::for_page`.
    fn from(c: RouterComponent) -> (r: Route<T>) {
        Route::for_page(c)
    }
}

impl<T: Default> vstd::std_specs::convert::FromSpecImpl<RouterComponent> for Route<T> {
    open spec fn obeys_from_spec() -> bool {
        false
    }

    open spec fn from_spec(c: RouterComponent) -> Route<T> {
        vstd::pervasive::arbitrary()
    }
}

} // verus!
