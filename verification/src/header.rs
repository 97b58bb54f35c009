//! The navigation-highlighting rule of the header bar: process-local
//! route state with a single setter, and a pure function from the current
//! route and a link's target route to the style of that link.

use vstd::prelude::*;

verus! {

/// The style of a navigation link whose target is not the current route.
pub open spec fn spec_input_style() -> Seq<char> {
    "border-b-0 border-[#7734e7] h-8 text-white ml-4 mr-4 hover:border-b-2"@
}

/// The style of the navigation link whose target is the current route.
pub open spec fn spec_input_style_selected() -> Seq<char> {
    "border-b-2 border-[#9734e7] h-8 text-white ml-4 mr-4 hover:border-b-2"@
}

/// The style for a navigation link: the selected variant exactly when
/// the current route equals the link's target route.
pub fn get_style_from_url(url: &String, match_url: &String) -> (style: &'static str)
    ensures
        url@ == match_url@ ==> style@ == spec_input_style_selected(),
        url@ != match_url@ ==> style@ == spec_input_style(),
{
    if *url == *match_url {
        "border-b-2 border-[#9734e7] h-8 text-white ml-4 mr-4 hover:border-b-2"
    } else {
        "border-b-0 border-[#7734e7] h-8 text-white ml-4 mr-4 hover:border-b-2"
    }
}

/// The process-local navigation state: the route currently shown.
pub struct NavState {
    pub current_path: String,
}

impl NavState {
    /// Fresh navigation state with an empty current route.
    pub fn new() -> (s: NavState)
        ensures
            s.current_path@ == Seq::<char>::empty(),
    {
        NavState { current_path: String::new() }
    }

    /// The single setter: replaces the current route.
    pub fn set_current_path(&mut self, path: String)
        ensures
            final(self).current_path@ == path@,
    {
        self.current_path = path;
    }

    /// The style of the navigation link for `match_url` under this state.
    pub fn style_for(&self, match_url: &String) -> (style: &'static str)
        ensures
            self.current_path@ == match_url@ ==> style@ == spec_input_style_selected(),
            self.current_path@ != match_url@ ==> style@ == spec_input_style(),
    {
        get_style_from_url(&self.current_path, match_url)
    }
}

} // verus!
