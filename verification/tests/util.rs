//! Tests for the helpers around the page-rendering pipeline: locked-column
//! decoding, style tag filtering, attribute and style collections, and page
//! file name choice.
use one2html::attrs::AttributeSet;
use one2html::attrs::StyleSet;
use one2html::rich_text::is_tag;
use one2html::section::Renderer;
use one2html::table::calc_locked_cols;

#[test]
fn locked_cols_empty_bitmap_unlocks_everything() {
    assert_eq!(calc_locked_cols(&vec![], 4), vec![false, false, false, false]);
}

#[test]
fn locked_cols_reads_bit_zero_of_each_byte() {
    let cols = calc_locked_cols(&vec![0b0000_0001, 0b0000_0001], 9);
    assert_eq!(
        cols,
        vec![true, false, false, false, false, false, false, false, true]
    );
    // only a bit pattern equal to one exactly counts as locked
    assert_eq!(calc_locked_cols(&vec![0xff], 3), vec![true, false, false]);
}

#[test]
fn page_metadata_tags_are_not_html_tags() {
    assert!(is_tag("h1"));
    assert!(is_tag("blockquote"));
    assert!(!is_tag("PageDateTime"));
    assert!(!is_tag("PageTitle"));
}

#[test]
fn style_set_counts_distinct_properties() {
    let mut styles = StyleSet::new();
    assert_eq!(styles.len(), 0);
    styles.set("color", "red".to_string());
    styles.set("color", "blue".to_string());
    assert_eq!(styles.len(), 1);
    styles.set("font-weight", "bold".to_string());
    assert_eq!(styles.len(), 2);
}

#[test]
fn style_set_extend_merges_property_names() {
    let mut base = StyleSet::new();
    base.set("color", "red".to_string());
    base.set("font-weight", "bold".to_string());
    let mut other = StyleSet::new();
    other.set("color", "blue".to_string());
    other.set("padding", "2pt".to_string());
    base.extend(other);
    assert_eq!(base.len(), 3);
}

#[test]
fn attribute_set_accepts_attributes() {
    let mut attrs = AttributeSet::new();
    attrs.set("style", "color: red;".to_string());
    attrs.set("class", "outline".to_string());
    attrs.set("style", "color: blue;".to_string());
}

#[test]
fn page_filenames_reach_two_digit_counters() {
    let mut renderer = Renderer::new();
    let mut last = String::new();
    let mut i = 0;
    while i < 12 {
        last = renderer.determine_page_filename("Note");
        i += 1;
    }
    assert_eq!(last, "Note_11");
}
