use vstd::prelude::*;
use vstd::string::StringExecFns;
use rofi::pango::{FontSize as PangoSize, Pango};
use crate::config::Config;
use crate::error::ConfigError;
use crate::style::{FontSize, Style};
use crate::table::TextPairs;

verus! {

/// The value that the picker's markup gives to the `size` attribute.
pub open spec fn size_attr(size: FontSize) -> Seq<char> {
    match size {
        FontSize::VeryTiny => "xx-small"@,
        FontSize::Tiny => "x-small"@,
        FontSize::Small => "small"@,
        FontSize::Normal => "medium"@,
        FontSize::Large => "large"@,
        FontSize::Huge => "x-large"@,
        FontSize::VeryHuge => "xx-large"@,
        FontSize::Smaller => "smaller"@,
        FontSize::Larger => "larger"@,
    }
}

/// Whether `r` is `content` in a markup span that sets the size and the
/// foreground colour. The two attributes may come in either order.
pub open spec fn is_span(r: Seq<char>, size: FontSize, color: Seq<char>, content: Seq<char>) -> bool {
    let s = "size='"@ + size_attr(size) + "'"@;
    let f = "foreground='"@ + color + "'"@;
    r == "<span "@ + s + " "@ + f + ">"@ + content + "</span>"@
        || r == "<span "@ + f + " "@ + s + ">"@ + content + "</span>"@
}

/// Relies on `rofi::pango::Pango`: with a size and a colour set,
/// `build_content` wraps the content in one span whose attributes come from a
/// hash map, in no fixed order; a second size replaces the first.
#[verifier::external_body]
fn styled(style: &Style, content: &str) -> (r: String)
    ensures
        is_span(r@, style.size, style.fg_color@, content@),
{
    let size = match style.size {
        FontSize::VeryTiny => PangoSize::VeryTiny,
        FontSize::Tiny => PangoSize::Tiny,
        FontSize::Small => PangoSize::Small,
        FontSize::Normal => PangoSize::Normal,
        FontSize::Large => PangoSize::Large,
        FontSize::Huge => PangoSize::Huge,
        FontSize::VeryHuge => PangoSize::VeryHuge,
        FontSize::Smaller => PangoSize::Smaller,
        FontSize::Larger => PangoSize::Larger,
    };
    let mut pango = Pango::new("");
    pango.size(PangoSize::Small).size(size).fg_color(&style.fg_color);
    pango.build_content(content)
}

/// The length of the longest key, 0 when there is none.
pub open spec fn key_width(m: TextPairs) -> nat
    decreases m.len(),
{
    if m.len() == 0 {
        0
    } else {
        let w = key_width(m.drop_last());
        if m.last().0.len() > w {
            m.last().0.len()
        } else {
            w
        }
    }
}

pub open spec fn spaces(n: nat) -> Seq<char> {
    Seq::new(n, |i: int| ' ')
}

/// `key` padded on the right with spaces to `width` characters.
pub open spec fn padded(key: Seq<char>, width: nat) -> Seq<char> {
    key + spaces((width - key.len()) as nat)
}

/// The text of an entry: the padded key, a tab, the value.
pub open spec fn entry_line(key: Seq<char>, value: Seq<char>, width: nat) -> Seq<char> {
    padded(key, width) + "\t"@ + value
}

/// The plain text of one entry, before markup.
pub fn entry_text(key: &str, value: &str, width: usize) -> (r: String)
    requires
        key@.len() <= width,
    ensures
        r@ == entry_line(key@, value@, width as nat),
{
    let mut s = String::from_str(key);
    let mut n: usize = key.unicode_len();
    while n < width
        invariant
            key@.len() <= n <= width,
            s@ == key@ + spaces((n - key@.len()) as nat),
        decreases width - n,
    {
        s.append(" ");
        proof {
            reveal_strlit(" ");
        }
        assert(s@ =~= key@ + spaces((n + 1 - key@.len()) as nat));
        n = n + 1;
    }
    s.append("\t");
    s.append(value);
    s
}

/// The width of the key column: the length of the longest key.
pub fn key_column_width(m: &Vec<(String, String)>) -> (r: usize)
    ensures
        r as nat == key_width(crate::table::view_pairs(m@)),
{
    let ghost v = crate::table::view_pairs(m@);
    let mut w: usize = 0;
    let mut i: usize = 0;
    assert(v.subrange(0, 0) =~= Seq::<(Seq<char>, Seq<char>)>::empty());
    while i < m.len()
        invariant
            v == crate::table::view_pairs(m@),
            i <= m@.len(),
            w as nat == key_width(v.subrange(0, i as int)),
        decreases m@.len() - i,
    {
        assert(v.subrange(0, i + 1).drop_last() =~= v.subrange(0, i as int));
        let n = m[i].0.as_str().unicode_len();
        if n > w {
            w = n;
        }
        i = i + 1;
    }
    assert(v.subrange(0, m@.len() as int) =~= v);
    w
}

/// Every key fits the key column, and a non-empty set of pairs has a key
/// that fills it exactly.
pub proof fn lemma_key_width(m: TextPairs)
    ensures
        forall|i: int| 0 <= i < m.len() ==> m[i].0.len() <= key_width(m),
        m.len() > 0 ==> exists|i: int| 0 <= i < m.len() && m[i].0.len() == key_width(m),
    decreases m.len(),
{
    if m.len() > 0 {
        let rest = m.drop_last();
        lemma_key_width(rest);
        assert forall|i: int| 0 <= i < m.len() implies m[i].0.len() <= key_width(m) by {
            if i < rest.len() {
                assert(m[i] == rest[i]);
            }
        }
        if m.last().0.len() <= key_width(rest) && rest.len() > 0 {
            let j = choose|j: int| 0 <= j < rest.len() && rest[j].0.len() == key_width(rest);
            assert(m[j] == rest[j]);
        } else {
            assert(m[m.len() - 1].0.len() == key_width(m));
        }
    }
}

/// Whether `lines` are the styled entries of `config`, one per snippet and
/// in the snippets' order.
pub open spec fn styled_entries(config: Config, lines: Seq<String>) -> bool {
    let m = config.pairs();
    lines.len() == m.len() && forall|i: int|
        0 <= i < m.len() ==> is_span(
            #[trigger] lines[i]@,
            config.style.size,
            config.style.fg_color@,
            entry_line(m[i].0, m[i].1, key_width(m)),
        )
}

/// The styled picker entries of a configuration, one per snippet, in the
/// snippets' order, with keys padded to the longest key. Fails when there is
/// no snippet.
pub fn format_entries(config: &Config) -> (r: Result<Vec<String>, ConfigError>)
    ensures
        match r {
            Ok(lines) => config.mappings@.len() > 0 && styled_entries(*config, lines@),
            Err(e) => config.mappings@.len() == 0 && e is EmptyMappings,
        },
{
    if config.mappings.len() == 0 {
        return Err(ConfigError::EmptyMappings);
    }
    let ghost m = config.pairs();
    let width = key_column_width(&config.mappings);
    proof {
        lemma_key_width(m);
    }
    let mut lines: Vec<String> = Vec::new();
    let mut i: usize = 0;
    while i < config.mappings.len()
        invariant
            m == config.pairs(),
            m.len() == config.mappings@.len(),
            width as nat == key_width(m),
            forall|j: int| 0 <= j < m.len() ==> m[j].0.len() <= key_width(m),
            i <= m.len(),
            lines@.len() == i,
            forall|j: int|
                0 <= j < i ==> is_span(
                    #[trigger] lines@[j]@,
                    config.style.size,
                    config.style.fg_color@,
                    entry_line(m[j].0, m[j].1, key_width(m)),
                ),
        decreases m.len() - i,
    {
        let pair = &config.mappings[i];
        assert(m[i as int] == (pair.0@, pair.1@));
        let text = entry_text(pair.0.as_str(), pair.1.as_str(), width);
        let line = styled(&config.style, text.as_str());
        lines.push(line);
        i = i + 1;
    }
    Ok(lines)
}

/// The formatted entries of a configuration with snippets follow the
/// snippets one for one and in order, and in each the part before the tab
/// that follows the key is exactly as long as the longest key.
pub proof fn lemma_entry_columns(config: Config, lines: Seq<String>)
    requires
        styled_entries(config, lines),
        config.mappings@.len() > 0,
    ensures
        lines.len() == config.mappings@.len(),
        exists|j: int| 0 <= j < config.pairs().len() && config.pairs()[j].0.len() == key_width(config.pairs()),
        forall|i: int|
            0 <= i < lines.len() ==> is_span(
                #[trigger] lines[i]@,
                config.style.size,
                config.style.fg_color@,
                padded(config.pairs()[i].0, key_width(config.pairs())) + "\t"@ + config.pairs()[i].1,
            ) && padded(config.pairs()[i].0, key_width(config.pairs())).len() == key_width(config.pairs()),
{
    let m = config.pairs();
    lemma_key_width(m);
    assert forall|i: int| 0 <= i < lines.len() implies padded(m[i].0, key_width(m)).len() == key_width(m) by {
        assert(m[i].0.len() <= key_width(m));
    }
}

} // verus!
