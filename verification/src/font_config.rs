//! Font configuration: OpenType feature settings, fallback families and the
//! slant of a face.

use vstd::prelude::*;
use vstd::string::StringExecFns;
use std::sync::Arc;
use crate::text_util::str_eq;

verus! {

/// The OpenType features that can be configured for a given font: each
/// feature tag with its value.
#[derive(Default, Clone, Eq, PartialEq, Hash, Debug)]
pub struct FontFeatures(pub Arc<Vec<(String, u32)>>);

/// The characters of the `calt` (contextual alternates) tag.
pub open spec fn calt_tag() -> Seq<char> {
    seq!['c', 'a', 'l', 't']
}

/// The value given to the first `calt` entry of `features`, if there is one.
pub open spec fn first_calt_value(features: Seq<(String, u32)>) -> Option<u32>
    decreases features.len(),
{
    if features.len() == 0 {
        None
    } else if features[0].0@ == calt_tag() {
        Some(features[0].1)
    } else {
        first_calt_value(features.drop_first())
    }
}

impl FontFeatures {
    /// The feature settings, in order.
    pub open spec fn spec_list(&self) -> Seq<(String, u32)> {
        (*self.0)@
    }

    /// Disables `calt`: the single setting `calt = 0`.
    pub fn disable_ligatures() -> (f: Self)
        ensures
            f.spec_list().len() == 1,
            f.spec_list()[0].0@ == calt_tag(),
            f.spec_list()[0].1 == 0,
    {
        proof {
            reveal_strlit("calt");
        }
        let tag = <String as StringExecFns>::from_str("calt");
        FontFeatures(Arc::new(vec![(tag, 0u32)]))
    }

    /// The feature tags with their values: only features that were explicitly
    /// enabled or disabled are listed.
    pub fn tag_value_list(&self) -> (list: &[(String, u32)])
        ensures
            list@ == self.spec_list(),
    {
        self.0.as_slice()
    }

    /// Whether `calt` is enabled (its first setting is 1); `None` if the
    /// feature is not present.
    pub fn is_calt_enabled(&self) -> (enabled: Option<bool>)
        ensures
            enabled == match first_calt_value(self.spec_list()) {
                Some(v) => Some(v == 1),
                None => None,
            },
    {
        proof {
            reveal_strlit("calt");
        }
        let list = self.0.as_slice();
        let n = list.len();
        let mut i: usize = 0;
        assert(self.spec_list().skip(0) =~= self.spec_list());
        while i < n
            invariant
                n == list@.len(),
                list@ == self.spec_list(),
                0 <= i <= n,
                first_calt_value(self.spec_list()) == first_calt_value(self.spec_list().skip(i as int)),
                "calt"@ == calt_tag(),
            decreases n - i,
        {
            let entry = &list[i];
            let ghost rest = self.spec_list().skip(i as int);
            assert(rest[0] == list@[i as int]);
            if str_eq(entry.0.as_str(), "calt") {
                return Some(entry.1 == 1);
            }
            assert(rest.drop_first() =~= self.spec_list().skip(i + 1));
            i = i + 1;
        }
        None
    }
}

/// Disabling ligatures turns `calt` off: the features it makes report
/// `calt` as present and disabled.
pub proof fn lemma_disable_ligatures_disables_calt(features: FontFeatures)
    requires
        features.spec_list().len() == 1,
        features.spec_list()[0].0@ == calt_tag(),
        features.spec_list()[0].1 == 0,
    ensures
        first_calt_value(features.spec_list()) == Some(0u32),
{
}

/// The fallback fonts that can be configured for a given font: the family
/// names, in order of preference.
#[derive(Default, Clone, Eq, PartialEq, Hash, Debug)]
pub struct FontFallbacks(pub Arc<Vec<String>>);

impl FontFallbacks {
    /// The fallback family names, in order of preference.
    pub open spec fn spec_list(&self) -> Seq<String> {
        (*self.0)@
    }

    /// The fallback font family names.
    pub fn fallback_list(&self) -> (list: &[String])
        ensures
            list@ == self.spec_list(),
    {
        self.0.as_slice()
    }

    /// Fallbacks made of the given family names.
    pub fn from_fonts(fonts: Vec<String>) -> (f: Self)
        ensures
            f.spec_list() == fonts@,
    {
        FontFallbacks(Arc::new(fonts))
    }
}

/// Allows italic or oblique faces to be selected.
#[derive(Clone, Copy, Eq, PartialEq, Debug, Hash, Structural)]
pub enum FontStyle {
    /// A face that is neither italic nor obliqued.
    Normal,
    /// A form that is generally cursive in nature.
    Italic,
    /// A typically-sloped version of the regular face.
    Oblique,
}

impl Default for FontStyle {
    fn default() -> (s: Self)
        ensures
            s == FontStyle::Normal,
    {
        FontStyle::Normal
    }
}

} // verus!
