use vstd::prelude::*;

use std::collections::HashMap;

verus! {

/// Space kept free around the bar, per edge, in pixels.
#[derive(Clone, Debug, PartialEq, Eq)]
pub struct Margins {
    pub left: Option<i32>,
    pub right: Option<i32>,
    pub top: Option<i32>,
    pub bottom: Option<i32>,
}

/// The bar's settings.
#[derive(Clone, Debug)]
pub struct Config {
    pub margins: Option<Margins>,
    /// An image shown at the start of the bar.
    pub image_path: Option<String>,
    /// The network interface whose traffic is shown.
    pub network_name: String,
    /// The battery shown, by its power-supply name.
    pub battery_name: Option<String>,
    /// Display names for keyboard layouts.
    pub layout_map: Option<HashMap<String, String>>,
}

} // verus!
