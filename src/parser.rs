use vstd::prelude::*;

use crate::model::ExtractError;
use crate::text::{
    chars_eq, chars_of, contains_chars, contains_chars_exec, has_word, has_word_exec, opt_chars, trim_chars,
    string_of, trim_ws,
};

verus! {

#[verifier::external_type_specification]
#[verifier::external_body]
pub struct ExVDom<'a>(tl::VDom<'a>);

#[verifier::external_type_specification]
#[verifier::external_body]
pub struct ExParseError(tl::ParseError);

/// The handles of the nodes of the document parsed from `html` that match
/// `selector`, in document order (none when the selector does not parse).
pub uninterp spec fn document_matches(html: Seq<char>, selector: Seq<char>) -> Seq<u32>;

/// The handles of the descendants of the tag at `scope` in the document
/// parsed from `html` that match `selector`, in document order.
pub uninterp spec fn scope_matches(html: Seq<char>, scope: u32, selector: Seq<char>) -> Seq<u32>;

/// The inner text of the node at `node`, when it is a tag.
pub uninterp spec fn tag_text(html: Seq<char>, node: u32) -> Option<Seq<char>>;

/// The value of the `id` attribute of the tag at `node`, when there is one.
pub uninterp spec fn tag_id(html: Seq<char>, node: u32) -> Option<Seq<char>>;

/// The value of the `class` attribute of the tag at `node`, when there is one.
pub uninterp spec fn tag_class(html: Seq<char>, node: u32) -> Option<Seq<char>>;

/// One element of a parsed document: its handle, its `id` and `class`
/// attributes, and its inner text without surrounding whitespace.
#[derive(Debug, Clone)]
pub struct Element {
    pub handle: u32,
    pub id: Option<String>,
    pub class: Option<String>,
    pub text: String,
}

pub struct ElementModel {
    pub handle: u32,
    pub id: Option<Seq<char>>,
    pub class: Option<Seq<char>>,
    pub text: Seq<char>,
}

impl View for Element {
    type V = ElementModel;

    open spec fn view(&self) -> ElementModel {
        ElementModel {
            handle: self.handle,
            id: opt_chars(self.id),
            class: opt_chars(self.class),
            text: self.text@,
        }
    }
}

pub open spec fn elements_view(es: Seq<Element>) -> Seq<ElementModel> {
    es.map_values(|e: Element| e@)
}

/// The element at `node` of the document parsed from `html`, when it is a tag.
pub open spec fn element_at(html: Seq<char>, node: u32) -> Option<ElementModel> {
    match tag_text(html, node) {
        Some(t) => Some(
            ElementModel {
                handle: node,
                id: tag_id(html, node),
                class: tag_class(html, node),
                text: trim_ws(t),
            },
        ),
        None => None,
    }
}

/// The elements among `nodes`, in order; nodes that are not tags are left out.
pub open spec fn elements_of(html: Seq<char>, nodes: Seq<u32>) -> Seq<ElementModel>
    decreases nodes.len(),
{
    if nodes.len() == 0 {
        Seq::empty()
    } else {
        let front = elements_of(html, nodes.drop_last());
        match element_at(html, nodes.last()) {
            Some(e) => front.push(e),
            None => front,
        }
    }
}

/// The text of the first element of the document that matches `selector`.
pub open spec fn first_text(html: Seq<char>, selector: Seq<char>) -> Option<Seq<char>> {
    let es = elements_of(html, document_matches(html, selector));
    if es.len() > 0 {
        Some(es[0].text)
    } else {
        None
    }
}

/// Whether the `class` attribute `class` lists `name`.
pub open spec fn class_lists(class: Option<Seq<char>>, name: Seq<char>) -> bool {
    match class {
        Some(c) => has_word(c, name),
        None => false,
    }
}

/// Whether the `id` attribute `id` is `name`.
pub open spec fn id_is(id: Option<Seq<char>>, name: Seq<char>) -> bool {
    id == Some(name)
}

/// Whether the `id` attribute `id` contains `fragment`.
pub open spec fn id_contains(id: Option<Seq<char>>, fragment: Seq<char>) -> bool {
    match id {
        Some(v) => contains_chars(v, fragment),
        None => false,
    }
}

/// Relies on tl::parse with default options, which fails only when the input
/// is longer than `u32::MAX` bytes.
#[verifier::external_body]
fn parse_dom<'a>(html: &'a str) -> (r: Result<tl::VDom<'a>, tl::ParseError>)
    ensures
        r is Ok <==> html.len() <= u32::MAX,
{
    tl::parse(html, tl::ParserOptions::default())
}

/// A parsed HTML document. `dom` is always the tree that tl parses from `html`.
pub struct Parser<'a> {
    html: &'a str,
    dom: tl::VDom<'a>,
}

impl<'a> View for Parser<'a> {
    type V = Seq<char>;

    closed spec fn view(&self) -> Seq<char> {
        self.html@
    }
}

/// Relies on tl::VDom::query_selector: the handles of the matching nodes.
#[verifier::external_body]
fn select_in_document(p: &Parser, selector: &str) -> (r: Vec<u32>)
    ensures
        r@ == document_matches(p.html@, selector@),
{
    match p.dom.query_selector(selector) {
        Some(it) => it.map(|h| h.get_inner()).collect(),
        None => Vec::new(),
    }
}

/// Relies on tl::HTMLTag::query_selector: the handles of the matching
/// descendants of the tag at `scope`.
#[verifier::external_body]
fn select_in_scope(p: &Parser, scope: u32, selector: &str) -> (r: Vec<u32>)
    ensures
        r@ == scope_matches(p.html@, scope, selector@),
{
    let parser = p.dom.parser();
    match tl::NodeHandle::new(scope).get(parser).and_then(|n| n.as_tag()) {
        Some(tag) => match tag.query_selector(parser, selector) {
            Some(it) => it.map(|h| h.get_inner()).collect(),
            None => Vec::new(),
        },
        None => Vec::new(),
    }
}

/// Relies on tl::HTMLTag::inner_text: the text of the tag at `node`.
#[verifier::external_body]
fn node_text(p: &Parser, node: u32) -> (r: Option<String>)
    ensures
        opt_chars(r) == tag_text(p.html@, node),
{
    let parser = p.dom.parser();
    let tag = tl::NodeHandle::new(node).get(parser).and_then(|n| n.as_tag());
    tag.map(|t| t.inner_text(parser).into_owned())
}

/// Relies on tl::Attributes::id: the `id` attribute of the tag at `node`.
#[verifier::external_body]
fn node_id(p: &Parser, node: u32) -> (r: Option<String>)
    ensures
        opt_chars(r) == tag_id(p.html@, node),
{
    let tag = tl::NodeHandle::new(node).get(p.dom.parser()).and_then(|n| n.as_tag());
    tag.and_then(|t| t.attributes().id()).map(|b| b.as_utf8_str().into_owned())
}

/// Relies on tl::Attributes::class: the `class` attribute of the tag at `node`.
#[verifier::external_body]
fn node_class(p: &Parser, node: u32) -> (r: Option<String>)
    ensures
        opt_chars(r) == tag_class(p.html@, node),
{
    let tag = tl::NodeHandle::new(node).get(p.dom.parser()).and_then(|n| n.as_tag());
    tag.and_then(|t| t.attributes().class()).map(|b| b.as_utf8_str().into_owned())
}

impl<'a> Parser<'a> {
    /// Parses `html`; fails only when it cannot be tokenized at all.
    pub fn new(html: &'a str) -> (r: Result<Self, ExtractError>)
        ensures
            match r {
                Ok(p) => p@ == html@ && html.len() <= u32::MAX,
                Err(e) => e == ExtractError::ParseFailure && html.len() > u32::MAX,
            },
    {
        match parse_dom(html) {
            Ok(dom) => Ok(Parser { html, dom }),
            Err(_) => Err(ExtractError::ParseFailure),
        }
    }

    /// The element at `node`, when it is a tag.
    fn element(&self, node: u32) -> (r: Option<Element>)
        ensures
            match r {
                Some(e) => element_at(self@, node) == Some(e@),
                None => element_at(self@, node) is None,
            },
    {
        match node_text(self, node) {
            Some(t) => {
                let text = string_of(&trim_chars(&chars_of(t.as_str())));
                Some(Element { handle: node, id: node_id(self, node), class: node_class(self, node), text })
            },
            None => None,
        }
    }

    fn elements(&self, nodes: &Vec<u32>) -> (r: Vec<Element>)
        ensures
            elements_view(r@) == elements_of(self@, nodes@),
    {
        let mut r: Vec<Element> = Vec::new();
        let mut i: usize = 0;
        while i < nodes.len()
            invariant
                i <= nodes.len(),
                elements_view(r@) == elements_of(self@, nodes@.take(i as int)),
            decreases nodes.len() - i,
        {
            let ghost before = r@;
            let ghost p = nodes@.take(i + 1);
            assert(p.drop_last() =~= nodes@.take(i as int));
            match self.element(nodes[i]) {
                Some(e) => {
                    r.push(e);
                    assert(elements_view(r@) =~= elements_view(before).push(e@));
                },
                None => {},
            }
            i = i + 1;
        }
        assert(nodes@.take(i as int) =~= nodes@);
        r
    }

    /// The elements of the document that match `selector`, in document order.
    pub fn query_selector_elements(&self, selector: &str) -> (r: Vec<Element>)
        ensures
            elements_view(r@) == elements_of(self@, document_matches(self@, selector@)),
    {
        let nodes = select_in_document(self, selector);
        self.elements(&nodes)
    }

    /// The descendants of `scope` that match `selector`, in document order.
    pub fn query_selector(&self, scope: &Element, selector: &str) -> (r: Vec<Element>)
        ensures
            elements_view(r@) == elements_of(self@, scope_matches(self@, scope.handle, selector@)),
    {
        let nodes = select_in_scope(self, scope.handle, selector);
        self.elements(&nodes)
    }

    /// The text of the first element that matches `selector`, if any.
    pub fn query_selector_first_element_inner_text(&self, selector: &str) -> (r: Option<String>)
        ensures
            opt_chars(r) == first_text(self@, selector@),
    {
        let tags = self.query_selector_elements(selector);
        if tags.len() > 0 {
            assert(tags@[0]@ == elements_view(tags@)[0]);
            Some(tags[0].text.clone())
        } else {
            None
        }
    }

    /// The inner text of `tag`, without surrounding whitespace.
    pub fn inner_text(&self, tag: &Element) -> (r: String)
        ensures
            r@ == tag.text@,
    {
        tag.text.clone()
    }

    /// Whether the `class` attribute of `tag` lists `class`.
    pub fn has_class(&self, tag: &Element, class: &str) -> (r: bool)
        ensures
            r == class_lists(tag@.class, class@),
    {
        tag.has_class(class)
    }

    /// Whether the `id` attribute of `tag` is `id`.
    pub fn has_id(&self, tag: &Element, id: &str) -> (r: bool)
        ensures
            r == id_is(tag@.id, id@),
    {
        tag.has_id(id)
    }

    /// Whether the `id` attribute of `tag` contains `id`.
    pub fn contains_id(&self, tag: &Element, id: &str) -> (r: bool)
        ensures
            r == id_contains(tag@.id, id@),
    {
        tag.contains_id(id)
    }
}

fn copy_string(s: &Option<String>) -> (r: Option<String>)
    ensures
        opt_chars(r) == opt_chars(*s),
{
    match s {
        Some(v) => Some(v.clone()),
        None => None,
    }
}

impl Element {
    /// A copy of this element.
    pub fn duplicate(&self) -> (r: Element)
        ensures
            r@ == self@,
    {
        Element {
            handle: self.handle,
            id: copy_string(&self.id),
            class: copy_string(&self.class),
            text: self.text.clone(),
        }
    }

    /// Whether the `class` attribute lists `class`.
    pub fn has_class(&self, class: &str) -> (r: bool)
        ensures
            r == class_lists(self@.class, class@),
    {
        match &self.class {
            Some(c) => has_word_exec(&chars_of(c.as_str()), &chars_of(class)),
            None => false,
        }
    }

    /// Whether the `id` attribute is `id`.
    pub fn has_id(&self, id: &str) -> (r: bool)
        ensures
            r == id_is(self@.id, id@),
    {
        match &self.id {
            Some(v) => chars_eq(&chars_of(v.as_str()), &chars_of(id)),
            None => false,
        }
    }

    /// Whether the `id` attribute contains `fragment`.
    pub fn contains_id(&self, fragment: &str) -> (r: bool)
        ensures
            r == id_contains(self@.id, fragment@),
    {
        match &self.id {
            Some(v) => contains_chars_exec(&chars_of(v.as_str()), &chars_of(fragment)),
            None => false,
        }
    }
}

} // verus!
