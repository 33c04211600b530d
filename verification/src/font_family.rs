//! Reading a font family name: the CSS generic family keywords stand for
//! generic families, every other name for a named family.

use vstd::prelude::*;
use crate::text_util::str_eq;
use crate::font_config::FontFallbacks;

verus! {

/// The generic font families the text stack understands.
#[derive(Debug, Clone, Copy, PartialEq, Eq, Hash, Structural)]
pub enum GenericFamily {
    Serif,
    SansSerif,
    Monospace,
    Cursive,
    Fantasy,
    SystemUi,
    UiSerif,
    UiSansSerif,
    UiMonospace,
    UiRounded,
    Math,
}

/// A font family: a generic family or a family named explicitly.
#[derive(Debug, Clone, PartialEq, Eq)]
pub enum FontFamilyName {
    Generic(GenericFamily),
    Named(String),
}

/// The generic family a family name stands for, if it is one of the
/// keywords. `fangsong` is read as the math family.
pub open spec fn generic_family_of(name: Seq<char>) -> Option<GenericFamily> {
    if name == "serif"@ {
        Some(GenericFamily::Serif)
    } else if name == "sans-serif"@ {
        Some(GenericFamily::SansSerif)
    } else if name == "monospace"@ {
        Some(GenericFamily::Monospace)
    } else if name == "cursive"@ {
        Some(GenericFamily::Cursive)
    } else if name == "fantasy"@ {
        Some(GenericFamily::Fantasy)
    } else if name == "system-ui"@ {
        Some(GenericFamily::SystemUi)
    } else if name == "ui-serif"@ {
        Some(GenericFamily::UiSerif)
    } else if name == "ui-sans-serif"@ {
        Some(GenericFamily::UiSansSerif)
    } else if name == "ui-monospace"@ {
        Some(GenericFamily::UiMonospace)
    } else if name == "ui-rounded"@ {
        Some(GenericFamily::UiRounded)
    } else if name == "math"@ {
        Some(GenericFamily::Math)
    } else if name == "fangsong"@ {
        Some(GenericFamily::Math)
    } else {
        None
    }
}

/// The family a name stands for: a generic family for the keywords, a named
/// family (with that very name) otherwise.
pub fn resolve_font_name(name: &str) -> (family: FontFamilyName)
    ensures
        match generic_family_of(name@) {
            Some(g) => family == FontFamilyName::Generic(g),
            None => family matches FontFamilyName::Named(n) && n@ == name@,
        },
{
    if str_eq(name, "serif") {
        FontFamilyName::Generic(GenericFamily::Serif)
    } else if str_eq(name, "sans-serif") {
        FontFamilyName::Generic(GenericFamily::SansSerif)
    } else if str_eq(name, "monospace") {
        FontFamilyName::Generic(GenericFamily::Monospace)
    } else if str_eq(name, "cursive") {
        FontFamilyName::Generic(GenericFamily::Cursive)
    } else if str_eq(name, "fantasy") {
        FontFamilyName::Generic(GenericFamily::Fantasy)
    } else if str_eq(name, "system-ui") {
        FontFamilyName::Generic(GenericFamily::SystemUi)
    } else if str_eq(name, "ui-serif") {
        FontFamilyName::Generic(GenericFamily::UiSerif)
    } else if str_eq(name, "ui-sans-serif") {
        FontFamilyName::Generic(GenericFamily::UiSansSerif)
    } else if str_eq(name, "ui-monospace") {
        FontFamilyName::Generic(GenericFamily::UiMonospace)
    } else if str_eq(name, "ui-rounded") {
        FontFamilyName::Generic(GenericFamily::UiRounded)
    } else if str_eq(name, "math") {
        FontFamilyName::Generic(GenericFamily::Math)
    } else if str_eq(name, "fangsong") {
        FontFamilyName::Generic(GenericFamily::Math)
    } else {
        FontFamilyName::Named(name.to_owned())
    }
}

/// The CSS keyword of each generic family.
pub open spec fn css_keyword(g: GenericFamily) -> Seq<char> {
    match g {
        GenericFamily::Serif => "serif"@,
        GenericFamily::SansSerif => "sans-serif"@,
        GenericFamily::Monospace => "monospace"@,
        GenericFamily::Cursive => "cursive"@,
        GenericFamily::Fantasy => "fantasy"@,
        GenericFamily::SystemUi => "system-ui"@,
        GenericFamily::UiSerif => "ui-serif"@,
        GenericFamily::UiSansSerif => "ui-sans-serif"@,
        GenericFamily::UiMonospace => "ui-monospace"@,
        GenericFamily::UiRounded => "ui-rounded"@,
        GenericFamily::Math => "math"@,
    }
}

/// Each generic family's own CSS keyword names that family, and a name
/// stands for a generic family only when it is that family's keyword (or
/// `fangsong`, read as the math family). So no two keywords share a family
/// but `math` and `fangsong`.
pub proof fn lemma_keywords_name_their_family(g: GenericFamily, name: Seq<char>)
    ensures
        generic_family_of(css_keyword(g)) == Some(g),
        generic_family_of(name) == Some(g) ==> name == css_keyword(g) || (name == "fangsong"@ && g == GenericFamily::Math),
{
    lemma_keyword_resolves(g);
}

proof fn lemma_keyword_resolves(g: GenericFamily)
    ensures
        generic_family_of(css_keyword(g)) == Some(g),
{
    reveal_strlit("serif");
    reveal_strlit("sans-serif");
    reveal_strlit("monospace");
    reveal_strlit("cursive");
    reveal_strlit("fantasy");
    reveal_strlit("system-ui");
    reveal_strlit("ui-serif");
    reveal_strlit("ui-sans-serif");
    reveal_strlit("ui-monospace");
    reveal_strlit("ui-rounded");
    reveal_strlit("math");
    reveal_strlit("fangsong");
    let k = css_keyword(g);
    assert(k.len() != "serif"@.len() || g == GenericFamily::Serif);
    assert(k.len() != "sans-serif"@.len() || k[0] != "sans-serif"@[0] || g == GenericFamily::SansSerif);
    assert(k.len() != "monospace"@.len() || k[0] != "monospace"@[0] || g == GenericFamily::Monospace);
    assert(k.len() != "cursive"@.len() || k[0] != "cursive"@[0] || g == GenericFamily::Cursive);
    assert(k.len() != "fantasy"@.len() || k[0] != "fantasy"@[0] || g == GenericFamily::Fantasy);
    assert(k.len() != "system-ui"@.len() || k[0] != "system-ui"@[0] || g == GenericFamily::SystemUi);
    assert(k.len() != "ui-serif"@.len() || k[0] != "ui-serif"@[0] || g == GenericFamily::UiSerif);
    assert(k.len() != "ui-sans-serif"@.len() || g == GenericFamily::UiSansSerif);
    assert(k.len() != "ui-monospace"@.len() || g == GenericFamily::UiMonospace);
    assert(k.len() != "ui-rounded"@.len() || k[0] != "ui-rounded"@[0] || g == GenericFamily::UiRounded);
    assert(k.len() != "math"@.len() || g == GenericFamily::Math);
}

/// `family` is what the name `name` stands for (see [`resolve_font_name`]).
pub open spec fn names_family(family: FontFamilyName, name: Seq<char>) -> bool {
    match generic_family_of(name) {
        Some(g) => family == FontFamilyName::Generic(g),
        None => family matches FontFamilyName::Named(n) && n@ == name,
    }
}

/// `family` is the family named `name` exactly (no generic keyword read).
pub open spec fn is_named(family: FontFamilyName, name: Seq<char>) -> bool {
    family matches FontFamilyName::Named(n) && n@ == name
}

/// The font families a text style asks for: one family, or a list in order
/// of preference.
#[derive(Debug, Clone, PartialEq, Eq)]
pub enum FamilyChoice {
    Single(FontFamilyName),
    List(Vec<FontFamilyName>),
}

/// The families of a text style with the given family name and fallbacks:
/// with fallbacks, the list of the style's family (if it has one) followed
/// by each fallback as a named family; without, the style's family alone
/// (if it has one).
pub fn style_families(family: Option<&str>, fallbacks: Option<&FontFallbacks>) -> (r: Option<FamilyChoice>)
    ensures
        match r {
            None => fallbacks is None && family is None,
            Some(FamilyChoice::Single(f)) => fallbacks is None && family is Some && names_family(f, family->0@),
            Some(FamilyChoice::List(l)) => fallbacks is Some && ({
                let fb = fallbacks->0.spec_list();
                let off: int = if family is Some { 1 } else { 0 };
                &&& l@.len() == fb.len() + off
                &&& family is Some ==> names_family(l@[0], family->0@)
                &&& forall|i: int| 0 <= i < fb.len() ==> is_named(#[trigger] l@[i + off], fb[i]@)
            }),
        },
{
    match fallbacks {
        None => match family {
            Some(name) => Some(FamilyChoice::Single(resolve_font_name(name))),
            None => None,
        },
        Some(fb) => {
            let list = fb.fallback_list();
            let mut families: Vec<FontFamilyName> = Vec::new();
            let off: usize = match family {
                Some(name) => {
                    families.push(resolve_font_name(name));
                    1
                },
                None => 0,
            };
            let ghost first = families@;
            let n = list.len();
            let mut i: usize = 0;
            while i < n
                invariant
                    n == list@.len(),
                    list@ == fb.spec_list(),
                    0 <= i <= n,
                    off == (if family is Some { 1usize } else { 0usize }),
                    families@.len() == off + i,
                    off == 1 ==> families@[0] == first[0],
                    first.len() == off,
                    family is Some ==> names_family(first[0], family->0@),
                    forall|j: int| 0 <= j < i ==> is_named(#[trigger] families@[j + off], list@[j]@),
                decreases n - i,
            {
                let name = list[i].clone();
                families.push(FontFamilyName::Named(name));
                i = i + 1;
            }
            Some(FamilyChoice::List(families))
        },
    }
}

} // verus!
