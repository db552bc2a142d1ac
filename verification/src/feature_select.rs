//! Named feature switches.

use vstd::prelude::*;

verus! {

/// The names of the features that are switched on.
pub struct FeatureSelector {
    enabled_features: Vec<String>,
}

impl FeatureSelector {
    /// The features switched on, in order.
    pub closed spec fn enabled(&self) -> Seq<Seq<char>> {
        self.enabled_features@.map_values(|f: String| f@)
    }

    /// A selector with exactly the features `enabled_features` switched on.
    pub fn new(enabled_features: Vec<String>) -> (r: Self)
        ensures
            r.enabled() == enabled_features@.map_values(|f: String| f@),
    {
        FeatureSelector { enabled_features }
    }

    /// Whether the feature named `feature_name` is switched on.
    pub fn is_enabled(&self, feature_name: &str) -> (r: bool)
        ensures
            r == self.enabled().contains(feature_name@),
    {
        let name = feature_name.to_string();
        let ghost v = self.enabled();
        let mut i: usize = 0;
        while i < self.enabled_features.len()
            invariant
                i <= self.enabled_features@.len(),
                v == self.enabled(),
                name@ == feature_name@,
                forall|j: int| 0 <= j < i ==> v[j] != feature_name@,
            decreases self.enabled_features@.len() - i,
        {
            if self.enabled_features[i] == name {
                assert(v[i as int] == feature_name@);
                return true;
            }
            i += 1;
        }
        false
    }
}

impl Default for FeatureSelector {
    /// A selector with no feature switched on.
    fn default() -> (r: Self)
        ensures
            r.enabled() == Seq::<Seq<char>>::empty(),
    {
        let r = FeatureSelector { enabled_features: Vec::new() };
        assert(r.enabled() =~= Seq::<Seq<char>>::empty());
        r
    }
}

} // verus!
