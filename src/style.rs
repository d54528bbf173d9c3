use vstd::prelude::*;
use vstd::string::StringExecFns;
use crate::error::ConfigError;
use crate::table::{find_value, has_key, keys_unique, value_of, view_pairs, TextPairs};

verus! {

/// The nine size levels that the picker's markup understands.
#[derive(Clone, Copy, Debug, PartialEq, Eq, Structural)]
pub enum FontSize {
    VeryTiny,
    Tiny,
    Small,
    Normal,
    Large,
    Huge,
    VeryHuge,
    Smaller,
    Larger,
}

/// How the picker draws each entry.
#[derive(Clone, Debug)]
pub struct Style {
    pub fg_color: String,
    pub size: FontSize,
}

/// Colour used when the style block names none.
pub const DEFAULT_FG_COLOR: &'static str = "#eeeeee";

/// Size used when the style block names none.
pub const DEFAULT_FONT_SIZE: FontSize = FontSize::Small;

/// The size that a lower-case name stands for, if any.
pub open spec fn size_named(name: Seq<char>) -> Option<FontSize> {
    if name == "verytiny"@ {
        Some(FontSize::VeryTiny)
    } else if name == "tiny"@ {
        Some(FontSize::Tiny)
    } else if name == "small"@ {
        Some(FontSize::Small)
    } else if name == "normal"@ {
        Some(FontSize::Normal)
    } else if name == "large"@ {
        Some(FontSize::Large)
    } else if name == "huge"@ {
        Some(FontSize::Huge)
    } else if name == "veryhuge"@ {
        Some(FontSize::VeryHuge)
    } else if name == "smaller"@ {
        Some(FontSize::Smaller)
    } else if name == "larger"@ {
        Some(FontSize::Larger)
    } else {
        None
    }
}

/// What `str::to_lowercase` makes of a string.
pub uninterp spec fn lower_of(s: Seq<char>) -> Seq<char>;

/// Relies on `str::to_lowercase`: the result depends on the characters alone.
#[verifier::external_body]
fn lowercase(s: &str) -> (r: String)
    ensures
        r@ == lower_of(s@),
{
    s.to_lowercase()
}

pub(crate) fn str_eq(a: &str, b: &str) -> (r: bool)
    ensures
        r == (a@ == b@),
{
    let n = a.unicode_len();
    if n != b.unicode_len() {
        return false;
    }
    let mut i: usize = 0;
    while i < n
        invariant
            n == a@.len(),
            n == b@.len(),
            i <= n,
            a@.subrange(0, i as int) == b@.subrange(0, i as int),
        decreases n - i,
    {
        if a.get_char(i) != b.get_char(i) {
            assert(a@[i as int] != b@[i as int]);
            return false;
        }
        assert(a@.subrange(0, i + 1) == a@.subrange(0, i as int).push(a@[i as int]));
        assert(b@.subrange(0, i + 1) == b@.subrange(0, i as int).push(b@[i as int]));
        i = i + 1;
    }
    assert(a@ == a@.subrange(0, n as int));
    assert(b@ == b@.subrange(0, n as int));
    true
}

/// The size named by an already lower-cased string, or `None` for any other string.
pub fn font_size_from_lower(lower: &str) -> (r: Option<FontSize>)
    ensures
        r == size_named(lower@),
{
    proof {
        reveal_strlit("verytiny");
        reveal_strlit("tiny");
        reveal_strlit("small");
        reveal_strlit("normal");
        reveal_strlit("large");
        reveal_strlit("huge");
        reveal_strlit("veryhuge");
        reveal_strlit("smaller");
        reveal_strlit("larger");
    }
    if str_eq(lower, "verytiny") {
        Some(FontSize::VeryTiny)
    } else if str_eq(lower, "tiny") {
        Some(FontSize::Tiny)
    } else if str_eq(lower, "small") {
        Some(FontSize::Small)
    } else if str_eq(lower, "normal") {
        Some(FontSize::Normal)
    } else if str_eq(lower, "large") {
        Some(FontSize::Large)
    } else if str_eq(lower, "huge") {
        Some(FontSize::Huge)
    } else if str_eq(lower, "veryhuge") {
        Some(FontSize::VeryHuge)
    } else if str_eq(lower, "smaller") {
        Some(FontSize::Smaller)
    } else if str_eq(lower, "larger") {
        Some(FontSize::Larger)
    } else {
        None
    }
}

} // verus!

verus! {

/// The size that a style's pairs ask for: the default when they name none,
/// or the name as written when it is not one of the nine levels.
pub open spec fn style_size(pairs: TextPairs) -> Result<FontSize, Seq<char>> {
    match value_of(pairs, "size"@) {
        None => Ok(FontSize::Small),
        Some(v) => match size_named(lower_of(v)) {
            Some(s) => Ok(s),
            None => Err(v),
        },
    }
}

/// The colour that a style's pairs ask for, the default when they name none.
pub open spec fn style_color(pairs: TextPairs) -> Seq<char> {
    match value_of(pairs, "fg_color"@) {
        Some(c) => c,
        None => DEFAULT_FG_COLOR@,
    }
}

/// Whether `r` is what resolving a style from `pairs` gives.
pub open spec fn resolves_style(pairs: TextPairs, r: Result<Style, ConfigError>) -> bool {
    match style_size(pairs) {
        Ok(size) => r matches Ok(st) && st.size == size && st.fg_color@ == style_color(pairs),
        Err(name) => r matches Err(ConfigError::InvalidFontSize(s)) && s@ == name,
    }
}

/// Builds a style from the string pairs of a style block. Absent keys take
/// their defaults; the colour is not checked; only an unknown size name fails.
pub fn resolve_style(pairs: &Vec<(String, String)>) -> (r: Result<Style, ConfigError>)
    requires
        keys_unique(view_pairs(pairs@)),
    ensures
        resolves_style(view_pairs(pairs@), r),
{
    let size = match find_value(pairs, "size") {
        None => DEFAULT_FONT_SIZE,
        Some(name) => {
            let lower = lowercase(name.as_str());
            match font_size_from_lower(lower.as_str()) {
                Some(s) => s,
                None => return Err(ConfigError::InvalidFontSize(name.clone())),
            }
        },
    };
    let fg_color = match find_value(pairs, "fg_color") {
        Some(c) => c.clone(),
        None => String::from_str(DEFAULT_FG_COLOR),
    };
    Ok(Style { fg_color, size })
}

/// A style block without a `size` key resolves to the default size, and one
/// without an `fg_color` key to the default colour.
pub proof fn lemma_style_defaults(pairs: TextPairs, r: Result<Style, ConfigError>)
    requires
        resolves_style(pairs, r),
    ensures
        !has_key(pairs, "size"@) ==> (r matches Ok(st) && st.size == FontSize::Small),
        !has_key(pairs, "fg_color"@) && r is Ok ==> r->Ok_0.fg_color@ == "#eeeeee"@,
{
}

/// A size name that is none of the nine levels, in any case, is refused with
/// the name as it was written.
pub proof fn lemma_invalid_size(pairs: TextPairs, name: Seq<char>, r: Result<Style, ConfigError>)
    requires
        resolves_style(pairs, r),
        value_of(pairs, "size"@) == Some(name),
        size_named(lower_of(name)) is None,
    ensures
        r matches Err(ConfigError::InvalidFontSize(s)) && s@ == name,
{
}

} // verus!
