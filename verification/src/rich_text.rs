//! The one piece of plain logic in rich-text rendering: which paragraph
//! style tags may stand as HTML tags.  The rich-text walk itself emits markup
//! from the document model and stays with the surrounding program.
use vstd::prelude::*;
use vstd::string::StringExecFns;

verus! {

/// Whether a paragraph style tag is emitted as an HTML tag: every tag but
/// the two page-metadata tags.
pub open spec fn spec_is_tag(tag: Seq<char>) -> bool {
    tag != "PageDateTime"@ && tag != "PageTitle"@
}

/// Tests whether a paragraph style tag is emitted as an HTML tag.
pub fn is_tag(tag: &str) -> (r: bool)
    ensures
        r == spec_is_tag(tag@),
{
    let t = String::from_str(tag);
    let date_time = String::from_str("PageDateTime");
    let title = String::from_str("PageTitle");
    !(t.eq(&date_time) || t.eq(&title))
}

} // verus!
