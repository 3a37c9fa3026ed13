//! Select elements in an HTML document with CSS selectors: a thin, typed
//! facade over the `scraper` engine. The derive planner's generated logic
//! talks to documents only through this interface.

use vstd::prelude::*;
use crate::error::{ScraperError, ScraperErrorV};
use crate::text::{chars_to_string, lemma_trim_no_edge_space, spec_is_space, str_to_chars, trim_chars};

verus! {

/// Whether the CSS selector grammar accepts this selector text.
pub uninterp spec fn selector_valid(s: Seq<char>) -> bool;

/// The diagnostic the selector parser reports for a rejected selector.
pub uninterp spec fn selector_error_text(s: Seq<char>) -> Seq<char>;

/// Relies on scraper::Selector::parse: whether a selector is accepted,
/// and the diagnostic a rejected one reports, depend on its text alone.
#[verifier::external_body]
fn parse_selector(s: &str) -> (r: Result<scraper::Selector, String>)
    ensures
        r is Ok <==> selector_valid(s@),
        r matches Err(m) ==> m@ == selector_error_text(s@),
{
    scraper::Selector::parse(s).map_err(|e| e.to_string())
}

/// Check a selector against the CSS grammar without keeping the parse.
pub fn check_selector(s: &str) -> (r: bool)
    ensures
        r == selector_valid(s@),
{
    parse_selector(s).is_ok()
}

/// A parsed HTML document.
pub struct HtmlDocument {
    value: scraper::Html,
}

/// An HTML element matched by a selector.
pub struct SelectItem<'a> {
    element: scraper::ElementRef<'a>,
}

/// The elements matched by one selector query, in document order.
pub struct Selectable<'a> {
    items: Vec<SelectItem<'a>>,
}

/// Relies on scraper::Html::parse_fragment: any string parses into a
/// fragment tree.
#[verifier::external_body]
fn parse_fragment(html_str: &str) -> HtmlDocument {
    HtmlDocument { value: scraper::Html::parse_fragment(html_str) }
}

/// Relies on scraper::Html::select: yields the matching elements of the
/// document in document order.
#[verifier::external_body]
fn select_in_html<'a>(h: &'a HtmlDocument, sel: &scraper::Selector) -> Vec<SelectItem<'a>> {
    h.value.select(sel).map(SelectItem::new).collect()
}

/// Relies on scraper::ElementRef::select: yields the matching descendant
/// elements in document order.
#[verifier::external_body]
fn select_in_element<'a>(e: &SelectItem<'a>, sel: &scraper::Selector) -> Vec<SelectItem<'a>> {
    e.element.select(sel).map(SelectItem::new).collect()
}

impl HtmlDocument {
    /// Parse an HTML fragment.
    pub fn new(html_str: &str) -> HtmlDocument {
        parse_fragment(html_str)
    }

    /// Relies on scraper::Html::root_element: the root element of the
    /// document tree.
    #[verifier::external_body]
    pub fn root<'a>(&'a self) -> SelectItem<'a> {
        SelectItem::new(self.value.root_element())
    }

    /// Query the document; fails exactly on selectors the grammar
    /// rejects, carrying the parser's own diagnostic.
    pub fn select<'a>(&'a self, selector: &str) -> (r: Result<Selectable<'a>, ScraperError>)
        ensures
            r is Ok <==> selector_valid(selector@),
            r matches Err(e) ==> e@ == ScraperErrorV::CssSelectorError(
                selector_error_text(selector@),
            ),
    {
        match parse_selector(selector) {
            Ok(sel) => Ok(Selectable { items: select_in_html(self, &sel) }),
            Err(msg) => Err(ScraperError::CssSelectorError(msg)),
        }
    }
}

impl<'a> Selectable<'a> {
    /// The matched elements.
    pub closed spec fn spec_items(&self) -> Seq<SelectItem<'a>> {
        self.items@
    }

    /// All matched elements, in document order.
    pub fn iter(&self) -> (r: &Vec<SelectItem<'a>>)
        ensures
            r@ == self.spec_items(),
    {
        &self.items
    }

    /// The first matched element, if any.
    pub fn first(&self) -> (r: Option<&SelectItem<'a>>)
        ensures
            self.spec_items().len() == 0 <==> r is None,
            r matches Some(item) ==> *item == self.spec_items()[0],
    {
        if self.items.len() > 0 {
            Some(&self.items[0])
        } else {
            None
        }
    }
}

impl<'a> SelectItem<'a> {
    /// Wrap a matched element.
    pub fn new(element: scraper::ElementRef<'a>) -> SelectItem<'a> {
        SelectItem { element }
    }

    /// Relies on scraper's Element::name: the element's tag name.
    #[verifier::external_body]
    pub fn name(&self) -> &'a str {
        self.element.value().name()
    }

    /// Relies on scraper's Element::id: the element's id attribute.
    #[verifier::external_body]
    pub fn id(&self) -> Option<&'a str> {
        self.element.value().id()
    }

    /// Relies on scraper's Element::has_class, matching case-sensitively.
    #[verifier::external_body]
    pub fn has_class(&self, class: &str) -> bool {
        self.element.value().has_class(class, scraper::CaseSensitivity::CaseSensitive)
    }

    /// Relies on scraper's Element::classes: the element's classes.
    #[verifier::external_body]
    pub fn classes(&self) -> Vec<String> {
        self.element.value().classes().map(|c| c.to_string()).collect()
    }

    /// Relies on scraper's Element::attrs: the element's attributes in order.
    #[verifier::external_body]
    pub fn attrs(&self) -> Vec<(String, String)> {
        self.element.value().attrs().map(|(k, v)| (k.to_string(), v.to_string())).collect()
    }

    /// Relies on scraper::ElementRef::attr: the value of one attribute.
    #[verifier::external_body]
    pub fn attr(&self, attr: &str) -> Option<&'a str> {
        self.element.attr(attr)
    }

    /// Relies on scraper::ElementRef::text: the element's text nodes,
    /// concatenated in document order, handed out untouched.
    #[verifier::external_body]
    fn text_concat(&self) -> String {
        self.element.text().collect::<String>()
    }

    /// The element's text content, concatenated and trimmed: whatever the
    /// engine hands back, the result carries no leading or trailing
    /// whitespace.
    pub fn text(&self) -> (r: String)
        ensures
            r@.len() > 0 ==> !spec_is_space(r@[0]) && !spec_is_space(r@[r@.len() - 1]),
    {
        let raw = self.text_concat();
        let v = str_to_chars(raw.as_str());
        let n = v.len();
        let trimmed = trim_chars(&v, 0, n);
        proof {
            assert(v@.subrange(0, n as int) =~= v@);
            lemma_trim_no_edge_space(v@);
        }
        chars_to_string(&trimmed)
    }

    /// Relies on scraper::ElementRef::html: the element's outer HTML.
    #[verifier::external_body]
    pub fn html(&self) -> String {
        self.element.html()
    }

    /// Relies on scraper::ElementRef::inner_html: the element's inner HTML.
    #[verifier::external_body]
    pub fn inner_html(&self) -> String {
        self.element.inner_html()
    }

    /// Relies on scraper::ElementRef::child_elements: the element children.
    #[verifier::external_body]
    pub fn children(&self) -> Vec<SelectItem<'a>> {
        self.element.child_elements().map(SelectItem::new).collect()
    }

    /// Query within this element; fails exactly on selectors the grammar
    /// rejects, carrying the parser's own diagnostic.
    pub fn select(&self, selector: &str) -> (r: Result<Selectable<'a>, ScraperError>)
        ensures
            r is Ok <==> selector_valid(selector@),
            r matches Err(e) ==> e@ == ScraperErrorV::CssSelectorError(
                selector_error_text(selector@),
            ),
    {
        match parse_selector(selector) {
            Ok(sel) => Ok(Selectable { items: select_in_element(self, &sel) }),
            Err(msg) => Err(ScraperError::CssSelectorError(msg)),
        }
    }
}

} // verus!
