//! Replies as XML: the element tree of a reply and how it is read.
//!
//! The XML itself is read by the `xml` crate, which hands out the document
//! as a sequence of events. What is built from the events, the element
//! tree, and how attributes are found in it, is verified here.

use crate::error::Error;
use vstd::prelude::*;
use vstd::string::StringExecFns;
use vstd::utf8::encode_utf8;
use xml::reader::{EventReader, ParserConfig, XmlEvent};

verus! {

/// An attribute of an element.
#[derive(Debug, Clone, PartialEq, Eq)]
pub struct Attribute {
    pub name: String,
    pub value: String,
}

/// The mathematical value of an [`Attribute`].
pub ghost struct AttributeView {
    pub name: Seq<char>,
    pub value: Seq<char>,
}

impl DeepView for Attribute {
    type V = AttributeView;

    open spec fn deep_view(&self) -> AttributeView {
        AttributeView { name: self.name@, value: self.value@ }
    }
}

/// What the XML reader reports of a document, piece by piece.
#[derive(Debug, Clone, PartialEq, Eq)]
pub enum Token {
    /// An element opens: its local name and its attributes in document
    /// order.
    Open(String, Vec<Attribute>),
    /// The element that was opened last and is still open closes.
    Close,
    /// Character data.
    Text(String),
    /// Anything else: the start and the end of the document, processing
    /// instructions.
    Other,
}

/// The mathematical value of a [`Token`].
pub ghost enum TokenView {
    Open(Seq<char>, Seq<AttributeView>),
    Close,
    Text(Seq<char>),
    Other,
}

impl DeepView for Token {
    type V = TokenView;

    open spec fn deep_view(&self) -> TokenView {
        match self {
            Token::Open(name, attributes) => TokenView::Open(name@, attributes.deep_view()),
            Token::Close => TokenView::Close,
            Token::Text(text) => TokenView::Text(text@),
            Token::Other => TokenView::Other,
        }
    }
}

/// The events that the XML reader reports for the document `text`, up to
/// and including the end of the document; or, for text that is not
/// well-formed XML, the reader's message.
pub uninterp spec fn xml_events(text: Seq<char>) -> Result<Seq<TokenView>, Seq<char>>;

/// What `read_tokens` hands back, as a mathematical value.
pub open spec fn tokens_view(r: Result<Vec<Token>, String>) -> Result<Seq<TokenView>, Seq<char>> {
    match r {
        Ok(tokens) => Ok(tokens.deep_view()),
        Err(message) => Err(message@),
    }
}

/// Reads `text` as an XML document.
///
/// Runs `xml::reader::EventReader` over the text, set up to trim
/// whitespace around character data, to drop comments, and to report
/// CDATA and adjacent character data as one run of text. Each event comes
/// back as a [`Token`]; the first error of the reader comes back as its
/// message. Nothing but this is claimed: the result is the one that the
/// reader gives for this text.
#[verifier::external_body]
pub(crate) fn read_tokens(text: &str) -> (r: Result<Vec<Token>, String>)
    ensures
        tokens_view(r) == xml_events(text@),
{
    let config = ParserConfig::new().trim_whitespace(true).whitespace_to_characters(true)
        .cdata_to_characters(true).ignore_comments(true).coalesce_characters(true);
    EventReader::new_with_config(text.as_bytes(), config).into_iter().map(|event| match event {
        Ok(XmlEvent::StartElement { name, attributes, .. }) => Ok(Token::Open(
            name.local_name,
            attributes.into_iter().map(|a| Attribute { name: a.name.local_name, value: a.value })
                .collect(),
        )),
        Ok(XmlEvent::EndElement { .. }) => Ok(Token::Close),
        Ok(XmlEvent::Characters(text)) => Ok(Token::Text(text)),
        Ok(_) => Ok(Token::Other),
        Err(error) => Err(error.to_string()),
    }).collect()
}

/// An element of a reply with what it holds.
#[derive(Debug)]
pub struct Element {
    /// The local name of the element.
    pub name: String,
    /// Its attributes in document order.
    pub attributes: Vec<Attribute>,
    /// The elements directly inside it, in document order.
    pub children: Vec<Element>,
    /// The character data directly inside it, in one piece.
    pub text: String,
}

/// The mathematical value of an [`Element`].
pub ghost struct Node {
    pub name: Seq<char>,
    pub attributes: Seq<AttributeView>,
    pub children: Seq<Node>,
    pub text: Seq<char>,
}

impl Element {
    /// The mathematical value of this element: its own name, attributes
    /// and text, and the values of its children.
    pub open spec fn model(self) -> Node
        decreases self,
    {
        Node {
            name: self.name@,
            attributes: self.attributes.deep_view(),
            children: Seq::new(
                self.children@.len(),
                |i: int|
                    if 0 <= i < self.children@.len() {
                        self.children@[i].model()
                    } else {
                        arbitrary()
                    },
            ),
            text: self.text@,
        }
    }
}

impl DeepView for Element {
    type V = Node;

    open spec fn deep_view(&self) -> Node {
        self.model()
    }
}

/// What stands inside an element: its children, its text, and where the
/// tokens go on behind its end.
pub ghost struct Content {
    pub children: Seq<Node>,
    pub text: Seq<char>,
    pub next: int,
}

/// What stands inside the element whose content begins at `tokens[start]`:
/// the elements and the text up to the token that closes it. `None` where
/// the tokens end before the element does.
pub open spec fn content(tokens: Seq<TokenView>, start: int) -> Option<Content>
    decreases tokens.len() - start,
{
    if start < 0 || start >= tokens.len() {
        None
    } else {
        match tokens[start] {
            TokenView::Close => Some(
                Content { children: Seq::empty(), text: Seq::empty(), next: start + 1 },
            ),
            TokenView::Other => content(tokens, start + 1),
            TokenView::Text(text) => match content(tokens, start + 1) {
                Some(rest) => Some(Content { text: text + rest.text, ..rest }),
                None => None,
            },
            TokenView::Open(name, attributes) => match content(tokens, start + 1) {
                Some(inner) => if inner.next <= start || inner.next > tokens.len() {
                    None
                } else {
                    match content(tokens, inner.next) {
                        Some(rest) => Some(
                            Content {
                                children: seq![
                                    Node {
                                        name,
                                        attributes,
                                        children: inner.children,
                                        text: inner.text,
                                    },
                                ] + rest.children,
                                ..rest
                            },
                        ),
                        None => None,
                    }
                },
                None => None,
            },
        }
    }
}

/// The index of the first token at or after `start` that opens an element,
/// or the number of tokens where none does.
pub open spec fn first_open(tokens: Seq<TokenView>, start: int) -> int
    decreases tokens.len() - start,
{
    if start < 0 || start >= tokens.len() {
        tokens.len() as int
    } else if tokens[start] is Open {
        start
    } else {
        first_open(tokens, start + 1)
    }
}

/// The root element of the document that `tokens` report: the first
/// element that opens, with all that stands inside it.
pub open spec fn document(tokens: Seq<TokenView>) -> Option<Node> {
    let root = first_open(tokens, 0);
    if root >= tokens.len() {
        None
    } else {
        match content(tokens, root + 1) {
            Some(inner) => Some(
                Node {
                    name: tokens[root]->Open_0,
                    attributes: tokens[root]->Open_1,
                    children: inner.children,
                    text: inner.text,
                },
            ),
            None => None,
        }
    }
}

/// The element tree of the XML document `text`, as the XML reader and
/// `document` give it.
pub open spec fn parsed(text: Seq<char>) -> Option<Node> {
    match xml_events(text) {
        Ok(tokens) => document(tokens),
        Err(_) => None,
    }
}

/// What stands inside an element ends behind where it begins.
pub proof fn lemma_content_advances(tokens: Seq<TokenView>, start: int)
    ensures
        content(tokens, start) matches Some(inner) ==> start < inner.next <= tokens.len(),
    decreases tokens.len() - start,
{
    if 0 <= start < tokens.len() {
        lemma_content_advances(tokens, start + 1);
        if let Some(inner) = content(tokens, start + 1) {
            lemma_content_advances(tokens, inner.next);
        }
    }
}

/// A copy of `attributes`.
fn copy_attributes(attributes: &Vec<Attribute>) -> (r: Vec<Attribute>)
    ensures
        r.deep_view() == attributes.deep_view(),
{
    let mut out: Vec<Attribute> = Vec::new();
    let mut i: usize = 0;
    while i < attributes.len()
        invariant
            i <= attributes@.len(),
            out@.len() == i,
            forall|k: int| 0 <= k < i ==> out@[k].deep_view() == attributes@[k].deep_view(),
        decreases attributes@.len() - i,
    {
        out.push(Attribute { name: attributes[i].name.clone(), value: attributes[i].value.clone() });
        i += 1;
    }
    assert(out.deep_view() =~= attributes.deep_view());
    out
}

/// The children of an element's value are the values of its children.
pub proof fn lemma_children_view(element: &Element)
    ensures
        element.deep_view().children == element.children.deep_view(),
{
    let direct = element.deep_view().children;
    let by_vec = element.children.deep_view();
    assert(direct.len() == by_vec.len());
    assert forall|i: int| 0 <= i < direct.len() implies direct[i] == by_vec[i] by {
        assert(direct[i] == element.children@[i].deep_view());
    }
    assert(direct =~= by_vec);
}

/// Reads what stands inside the element whose content begins at
/// `tokens[start]`.
fn read_content(tokens: &Vec<Token>, start: usize) -> (r: Option<(Vec<Element>, String, usize)>)
    requires
        start <= tokens@.len(),
    ensures
        match r {
            Some((children, text, next)) => content(tokens.deep_view(), start as int) == Some(
                Content { children: children.deep_view(), text: text@, next: next as int },
            ) && start < next <= tokens@.len(),
            None => content(tokens.deep_view(), start as int) is None,
        },
    decreases tokens@.len() - start,
{
    let ghost all = tokens.deep_view();
    let mut children: Vec<Element> = Vec::new();
    let mut text = String::new();
    let mut at: usize = start;
    loop
        invariant
            start <= at <= tokens@.len(),
            all == tokens.deep_view(),
            all.len() == tokens@.len(),
            match content(all, at as int) {
                Some(rest) => content(all, start as int) == Some(
                    Content {
                        children: children.deep_view() + rest.children,
                        text: text@ + rest.text,
                        next: rest.next,
                    },
                ),
                None => content(all, start as int) is None,
            },
        decreases tokens@.len() - at,
    {
        if at >= tokens.len() {
            return None;
        }
        proof {
            lemma_content_advances(all, at as int + 1);
            assert(all[at as int] == tokens@[at as int].deep_view());
        }
        match &tokens[at] {
            Token::Close => {
                proof {
                    assert(children.deep_view() + Seq::<Node>::empty() =~= children.deep_view());
                    assert(text@ + Seq::<char>::empty() =~= text@);
                }
                return Some((children, text, at + 1));
            },
            Token::Other => {
                at += 1;
            },
            Token::Text(run) => {
                let ghost before = text@;
                text.append(run.as_str());
                proof {
                    if let Some(rest) = content(all, at as int + 1) {
                        assert(before + (run@ + rest.text) =~= text@ + rest.text);
                    }
                }
                at += 1;
            },
            Token::Open(name, attributes) => {
                match read_content(tokens, at + 1) {
                    None => {
                        return None;
                    },
                    Some((inner_children, inner_text, next)) => {
                        let child = Element {
                            name: name.clone(),
                            attributes: copy_attributes(attributes),
                            children: inner_children,
                            text: inner_text,
                        };
                        let ghost before = children.deep_view();
                        proof {
                            lemma_children_view(&child);
                            lemma_content_advances(all, next as int);
                        }
                        children.push(child);
                        proof {
                            assert(children.deep_view() =~= before + seq![child.deep_view()]);
                            if let Some(rest) = content(all, next as int) {
                                assert(before + (seq![child.deep_view()] + rest.children)
                                    =~= children.deep_view() + rest.children);
                            }
                        }
                        at = next;
                    },
                }
            },
        }
    }
}

/// Builds the element tree of the document that `tokens` report.
///
/// `Err(Error::Xml(_))` where no element opens or the tokens end before the
/// root element does.
pub fn read_document(tokens: &Vec<Token>) -> (r: Result<Element, Error>)
    ensures
        match r {
            Ok(root) => document(tokens.deep_view()) == Some(root.deep_view()),
            Err(e) => document(tokens.deep_view()) is None && e is Xml,
        },
{
    let ghost all = tokens.deep_view();
    let mut at: usize = 0;
    while at < tokens.len()
        invariant
            at <= tokens@.len(),
            all == tokens.deep_view(),
            all.len() == tokens@.len(),
            first_open(all, 0) == first_open(all, at as int),
        decreases tokens@.len() - at,
    {
        proof {
            assert(all[at as int] == tokens@[at as int].deep_view());
        }
        if let Token::Open(name, attributes) = &tokens[at] {
            return match read_content(tokens, at + 1) {
                Some((children, text, _)) => {
                    let root = Element {
                        name: name.clone(),
                        attributes: copy_attributes(attributes),
                        children,
                        text,
                    };
                    proof {
                        lemma_children_view(&root);
                    }
                    Ok(root)
                },
                None => Err(Error::Xml(String::from_str("an element is not closed"))),
            };
        }
        at += 1;
    }
    Err(Error::Xml(String::from_str("the document holds no element")))
}

/// Reads `text` as an XML document and builds its element tree.
///
/// `Err(Error::Xml(_))` where the XML reader rejects the text or the
/// document holds no element.
pub fn parse(text: &str) -> (r: Result<Element, Error>)
    ensures
        match r {
            Ok(root) => parsed(text@) == Some(root.deep_view()),
            Err(e) => parsed(text@) is None && e is Xml,
        },
{
    match read_tokens(text) {
        Ok(tokens) => read_document(&tokens),
        Err(message) => Err(Error::Xml(message)),
    }
}

/// The value of the first attribute among `attributes` that is called
/// `name`.
pub open spec fn lookup(attributes: Seq<AttributeView>, name: Seq<char>) -> Option<Seq<char>>
    decreases attributes.len(),
{
    if attributes.len() == 0 {
        None
    } else if attributes[0].name == name {
        Some(attributes[0].value)
    } else {
        lookup(attributes.skip(1), name)
    }
}

impl Node {
    /// The value of the attribute `name`, where the element has it.
    pub open spec fn attribute(self, name: Seq<char>) -> Option<Seq<char>> {
        lookup(self.attributes, name)
    }

    /// The children of the element that are called `name`, in document
    /// order.
    pub open spec fn children_named(self, name: Seq<char>) -> Seq<Node> {
        self.children.filter(|child: Node| child.name == name)
    }
}

/// Whether two texts are the same.
pub fn same_text(a: &str, b: &str) -> (r: bool)
    ensures
        r == (a@ == b@),
{
    let x = a.as_bytes();
    let y = b.as_bytes();
    proof {
        vstd::utf8::encode_utf8_decode_utf8(a@);
        vstd::utf8::encode_utf8_decode_utf8(b@);
    }
    if x.len() != y.len() {
        return false;
    }
    let mut i: usize = 0;
    while i < x.len()
        invariant
            i <= x@.len() == y@.len(),
            forall|k: int| 0 <= k < i ==> x@[k] == y@[k],
            x@ == encode_utf8(a@),
            y@ == encode_utf8(b@),
        decreases x@.len() - i,
    {
        if x[i] != y[i] {
            return false;
        }
        i += 1;
    }
    assert(x@ =~= y@);
    true
}

impl Element {
    /// The value of the attribute `name`, where the element has it.
    pub fn attribute(&self, name: &str) -> (r: Option<&str>)
        ensures
            match r {
                Some(value) => self.deep_view().attribute(name@) == Some(value@),
                None => self.deep_view().attribute(name@) is None,
            },
    {
        let ghost all = self.attributes.deep_view();
        let mut i: usize = 0;
        assert(all.skip(0) =~= all);
        while i < self.attributes.len()
            invariant
                i <= self.attributes@.len(),
                all == self.attributes.deep_view(),
                all.len() == self.attributes@.len(),
                lookup(all, name@) == lookup(all.skip(i as int), name@),
            decreases self.attributes@.len() - i,
        {
            proof {
                assert(all.skip(i as int)[0] == self.attributes@[i as int].deep_view());
                assert(all.skip(i as int).skip(1) =~= all.skip(i + 1));
            }
            if same_text(self.attributes[i].name.as_str(), name) {
                return Some(self.attributes[i].value.as_str());
            }
            i += 1;
        }
        None
    }

    /// The children of the element that are called `name`, in document
    /// order.
    pub fn children_named(&self, name: &str) -> (r: Vec<&Element>)
        ensures
            r.deep_view() == self.deep_view().children_named(name@),
    {
        let ghost all = self.children.deep_view();
        let ghost keep = |child: Node| child.name == name@;
        let mut out: Vec<&Element> = Vec::new();
        let mut i: usize = 0;
        proof {
            lemma_children_view(self);
            assert(all.take(0) =~= Seq::<Node>::empty());
        }
        while i < self.children.len()
            invariant
                i <= self.children@.len(),
                all == self.children.deep_view(),
                all.len() == self.children@.len(),
                keep == |child: Node| child.name == name@,
                out.deep_view() == all.take(i as int).filter(keep),
            decreases self.children@.len() - i,
        {
            let child = &self.children[i];
            let ghost before = out.deep_view();
            proof {
                assert(all.take(i + 1) =~= all.take(i as int).push(all[i as int]));
                assert(all.take(i + 1).drop_last() =~= all.take(i as int));
                reveal(Seq::filter);
                assert(all[i as int] == child.deep_view());
            }
            if same_text(child.name.as_str(), name) {
                out.push(child);
                assert(out.deep_view() =~= before.push(child.deep_view()));
            }
            i += 1;
        }
        assert(all.take(all.len() as int) =~= all);
        out
    }
}

} // verus!
