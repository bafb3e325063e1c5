//! SVG import pipeline: SVG exported from a design tool is parsed here and
//! rasterized at any size.

use vstd::prelude::*;
use vstd::utf8::{decode_utf8, valid_utf8};

verus! {

/// Why an SVG import failed.
#[derive(Debug)]
pub enum ImportError {
    /// The SVG could not be parsed, with the parser's message.
    Parse(String),
    /// No pixmap of this side length could be created.
    Pixmap(u32),
}

/// The mathematical value of an [`ImportError`].
pub enum ImportErrorView {
    Parse(Seq<char>),
    Pixmap(u32),
}

impl View for ImportError {
    type V = ImportErrorView;

    open spec fn view(&self) -> ImportErrorView {
        match self {
            ImportError::Parse(m) => ImportErrorView::Parse(m@),
            ImportError::Pixmap(s) => ImportErrorView::Pixmap(*s),
        }
    }
}

/// Declares `usvg::Tree`, a parsed SVG document, to the verifier.
#[verifier::external_type_specification]
#[verifier::external_body]
pub struct ExTree(usvg::Tree);

/// The message of the error `usvg::Tree::from_str` (with default options)
/// reports for this SVG text, or `None` when it parses.
pub uninterp spec fn svg_parse_error(svg: Seq<char>) -> Option<Seq<char>>;

/// Calls `usvg::Tree::from_str` with `usvg::Options::default()`, an error
/// reported by its message. Claims that success and the error message are a
/// function of the text alone: the errors come from the XML parse, the element
/// limit and the root size, and nested images that fail to load are dropped,
/// not reported. Nothing is claimed of the parsed tree, whose content may depend
/// on files that image references name.
#[verifier::external_body]
fn parse_svg_tree(svg: &str) -> (r: Result<usvg::Tree, String>)
    ensures
        r is Ok <==> svg_parse_error(svg@) is None,
        r matches Err(msg) ==> svg_parse_error(svg@) == Some(msg@),
{
    let opts = usvg::Options::default();
    match usvg::Tree::from_str(svg, &opts) {
        Ok(tree) => Ok(tree),
        Err(e) => Err(e.to_string()),
    }
}

/// The message of the error `std::str::from_utf8` returns for these bytes.
pub uninterp spec fn utf8_error_message(bytes: Seq<u8>) -> Seq<char>;

/// Calls `std::str::from_utf8`. Claims what its documentation states: it
/// succeeds exactly on valid UTF-8, giving the characters the bytes encode;
/// the error is reported by its message.
#[verifier::external_body]
fn str_from_utf8(data: &[u8]) -> (r: Result<&str, String>)
    ensures
        r is Ok <==> valid_utf8(data@),
        r matches Ok(s) ==> s@ == decode_utf8(data@),
        r matches Err(msg) ==> msg@ == utf8_error_message(data@),
{
    match std::str::from_utf8(data) {
        Ok(s) => Ok(s),
        Err(e) => Err(e.to_string()),
    }
}

/// Parsed SVG ready for rasterization at any size.
pub struct SvgAsset {
    tree: usvg::Tree,
}

impl SvgAsset {
    /// The parsed document tree this asset holds.
    pub closed spec fn parsed_tree(&self) -> usvg::Tree {
        self.tree
    }

    /// Parses an SVG string (e.g. exported from Figma). It succeeds exactly when
    /// usvg parses the text; a parser failure is reported as
    /// `ImportError::Parse` with the parser's message.
    pub fn from_svg_str(svg: &str) -> (r: Result<Self, ImportError>)
        ensures
            r is Ok <==> svg_parse_error(svg@) is None,
            r matches Err(e) ==> e@ == ImportErrorView::Parse(svg_parse_error(svg@)->0),
    {
        match parse_svg_tree(svg) {
            Ok(tree) => Ok(SvgAsset { tree }),
            Err(msg) => Err(ImportError::Parse(msg)),
        }
    }

    /// Parses raw SVG bytes: bytes that are not UTF-8 are refused with
    /// `ImportError::Parse` and the decoder's message; valid UTF-8 succeeds or
    /// fails as [`SvgAsset::from_svg_str`] does on the decoded text.
    pub fn from_svg_bytes(data: &[u8]) -> (r: Result<Self, ImportError>)
        ensures
            !valid_utf8(data@) ==> (r matches Err(e) && e@ == ImportErrorView::Parse(
                utf8_error_message(data@),
            )),
            valid_utf8(data@) ==> (r is Ok <==> svg_parse_error(decode_utf8(data@)) is None),
            valid_utf8(data@) ==> (r matches Err(e) ==> e@ == ImportErrorView::Parse(
                svg_parse_error(decode_utf8(data@))->0,
            )),
            r matches Err(e) ==> e@ is Parse,
    {
        match str_from_utf8(data) {
            Ok(svg) => Self::from_svg_str(svg),
            Err(msg) => Err(ImportError::Parse(msg)),
        }
    }

    /// The parsed document tree, for the rasterizer.
    pub fn tree(&self) -> (t: &usvg::Tree)
        ensures
            *t == self.parsed_tree(),
    {
        &self.tree
    }
}

} // verus!
