//! # Icon Forger
//!
//! Parametric icon generator and SVG import pipeline that exports to all
//! platform icon formats (PNG, ICO, ICNS, WebP).
//!
//! Two modes of operation:
//! - code-first ([`codegen`]): compose parametric shapes into an icon definition;
//! - import ([`import`]): parse SVG exported from a design tool.
//!
//! Rendered pixmaps ([`pixmap`]) are encoded by [`export`].

pub mod codegen;
pub mod export;
pub mod import;
pub mod pixmap;
pub mod shapes;

use vstd::prelude::*;

use crate::export::{standard_sizes_spec, Format, STANDARD_SIZES};

verus! {

/// ASCII lower case of a character: 'A' to 'Z' become 'a' to 'z', every other
/// character is kept.
pub open spec fn ascii_lower(c: char) -> char {
    if 'A' <= c && c <= 'Z' {
        ((c as u32) + 32) as char
    } else {
        c
    }
}

/// ASCII lower case of a string, character by character.
pub open spec fn ascii_lowercase(s: Seq<char>) -> Seq<char> {
    s.map_values(|c: char| ascii_lower(c))
}

/// Calls `str::to_ascii_lowercase`. Claims what its documentation states:
/// ASCII letters 'A' to 'Z' are mapped to 'a' to 'z', every other character is
/// unchanged.
#[verifier::external_body]
fn to_ascii_lowercase(s: &str) -> (r: String)
    ensures
        r@ == ascii_lowercase(s@),
{
    s.to_ascii_lowercase()
}

/// The name of an export format, in lower case.
pub open spec fn format_name(f: Format) -> Seq<char> {
    match f {
        Format::Png => seq!['p', 'n', 'g'],
        Format::Ico => seq!['i', 'c', 'o'],
        Format::Icns => seq!['i', 'c', 'n', 's'],
        Format::WebP => seq!['w', 'e', 'b', 'p'],
    }
}

/// The formats in the order they are listed.
pub open spec fn listed_formats() -> Seq<Format> {
    seq![Format::Png, Format::Ico, Format::Icns, Format::WebP]
}

/// The format a name denotes, ignoring ASCII case, if any.
pub open spec fn format_of_name(s: Seq<char>) -> Option<Format> {
    let lower = ascii_lowercase(s);
    if lower == format_name(Format::Png) {
        Some(Format::Png)
    } else if lower == format_name(Format::Ico) {
        Some(Format::Ico)
    } else if lower == format_name(Format::Icns) {
        Some(Format::Icns)
    } else if lower == format_name(Format::WebP) {
        Some(Format::WebP)
    } else {
        None
    }
}

/// The message for a name that denotes no format.
pub open spec fn unknown_format_message(s: Seq<char>) -> Seq<char> {
    "unknown format: "@ + ascii_lowercase(s)
}

/// Parses a format name, ignoring ASCII case; an unknown name yields the
/// message `unknown format: ` followed by the lower-cased name.
pub fn parse_format(s: &str) -> (r: Result<Format, String>)
    ensures
        match format_of_name(s@) {
            Some(f) => r == Ok::<Format, String>(f),
            None => r matches Err(msg) && msg@ == unknown_format_message(s@),
        },
        r matches Ok(f) ==> ascii_lowercase(s@) == format_name(f),
        r is Err <==> forall|f: Format| ascii_lowercase(s@) != #[trigger] format_name(f),
{
    proof {
        lemma_format_of_name_exact(s@, Format::Png);
        lemma_format_of_name_exact(s@, Format::Ico);
        lemma_format_of_name_exact(s@, Format::Icns);
        lemma_format_of_name_exact(s@, Format::WebP);
    }
    let lower = to_ascii_lowercase(s);
    let png = String::from_str("png");
    let ico = String::from_str("ico");
    let icns = String::from_str("icns");
    let webp = String::from_str("webp");
    proof {
        reveal_strlit("png");
        reveal_strlit("ico");
        reveal_strlit("icns");
        reveal_strlit("webp");
        assert(png@ =~= format_name(Format::Png));
        assert(ico@ =~= format_name(Format::Ico));
        assert(icns@ =~= format_name(Format::Icns));
        assert(webp@ =~= format_name(Format::WebP));
    }
    if lower == png {
        Ok(Format::Png)
    } else if lower == ico {
        Ok(Format::Ico)
    } else if lower == icns {
        Ok(Format::Icns)
    } else if lower == webp {
        Ok(Format::WebP)
    } else {
        let msg = String::from_str("unknown format: ");
        Err(msg.concat(lower.as_str()))
    }
}

/// A name denotes a format exactly when its ASCII lower case is that format's
/// name: no other name is accepted, and every casing of a format name is.
pub proof fn lemma_format_of_name_exact(s: Seq<char>, f: Format)
    ensures
        format_of_name(s) == Some(f) <==> ascii_lowercase(s) == format_name(f),
        format_of_name(s) is None <==> forall|g: Format| ascii_lowercase(s) != #[trigger] format_name(g),
{
    let png = format_name(Format::Png);
    let ico = format_name(Format::Ico);
    let icns = format_name(Format::Icns);
    let webp = format_name(Format::WebP);
    assert(png != ico) by {
        assert(png[0] != ico[0]);
    }
    assert(png != icns) by {
        assert(png.len() != icns.len());
    }
    assert(png != webp) by {
        assert(png.len() != webp.len());
    }
    assert(ico != icns) by {
        assert(ico.len() != icns.len());
    }
    assert(ico != webp) by {
        assert(ico.len() != webp.len());
    }
    assert(icns != webp) by {
        assert(icns[0] != webp[0]);
    }
    if format_of_name(s) is None {
        assert forall|g: Format| ascii_lowercase(s) != #[trigger] format_name(g) by {
            match g {
                Format::Png => {},
                Format::Ico => {},
                Format::Icns => {},
                Format::WebP => {},
            }
        }
    }
}

/// A format's own name denotes that format.
pub proof fn lemma_format_name_parses(f: Format)
    ensures
        format_of_name(format_name(f)) == Some(f),
{
    assert(ascii_lowercase(format_name(f)) =~= format_name(f));
}

/// Format names are matched without regard to ASCII case: a name and its
/// lower-case form denote the same format.
pub proof fn lemma_format_case_insensitive(s: Seq<char>)
    ensures
        format_of_name(ascii_lowercase(s)) == format_of_name(s),
{
    assert(ascii_lowercase(ascii_lowercase(s)) =~= ascii_lowercase(s));
}

/// Every format is listed, once, and every listed name parses back to its format.
pub proof fn lemma_listed_formats_complete(f: Format)
    ensures
        listed_formats().contains(f),
        forall|i: int, j: int|
            0 <= i < j < listed_formats().len() ==> listed_formats()[i] != listed_formats()[j],
        forall|i: int|
            0 <= i < listed_formats().len() ==> format_of_name(#[trigger] format_name(listed_formats()[i]))
                == Some(listed_formats()[i]),
{
    match f {
        Format::Png => assert(listed_formats()[0] == f),
        Format::Ico => assert(listed_formats()[1] == f),
        Format::Icns => assert(listed_formats()[2] == f),
        Format::WebP => assert(listed_formats()[3] == f),
    }
    assert forall|i: int| 0 <= i < listed_formats().len() implies format_of_name(
        #[trigger] format_name(listed_formats()[i]),
    ) == Some(listed_formats()[i]) by {
        lemma_format_name_parses(listed_formats()[i]);
    }
}

/// List available export formats.
pub fn available_formats() -> (names: Vec<String>)
    ensures
        names@.len() == listed_formats().len(),
        forall|i: int| 0 <= i < names@.len() ==> #[trigger] names@[i]@ == format_name(listed_formats()[i]),
{
    let mut names: Vec<String> = Vec::new();
    names.push(String::from_str("png"));
    names.push(String::from_str("ico"));
    names.push(String::from_str("icns"));
    names.push(String::from_str("webp"));
    proof {
        reveal_strlit("png");
        reveal_strlit("ico");
        reveal_strlit("icns");
        reveal_strlit("webp");
        assert(names@[0]@ =~= format_name(Format::Png));
        assert(names@[1]@ =~= format_name(Format::Ico));
        assert(names@[2]@ =~= format_name(Format::Icns));
        assert(names@[3]@ =~= format_name(Format::WebP));
    }
    names
}

/// List standard icon sizes.
pub fn standard_sizes() -> (sizes: Vec<u32>)
    ensures
        sizes@ == standard_sizes_spec(),
{
    let mut sizes: Vec<u32> = Vec::new();
    let mut i: usize = 0;
    while i < 8
        invariant
            0 <= i <= 8,
            STANDARD_SIZES@ == standard_sizes_spec(),
            sizes@ == standard_sizes_spec().take(i as int),
        decreases 8 - i,
    {
        sizes.push(STANDARD_SIZES[i]);
        proof {
            assert(standard_sizes_spec().take(i + 1) =~= standard_sizes_spec().take(i as int).push(
                STANDARD_SIZES@[i as int],
            ));
        }
        i += 1;
    }
    assert(standard_sizes_spec().take(8) =~= standard_sizes_spec());
    sizes
}

} // verus!
