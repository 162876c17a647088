//! Reading XML descriptor documents.
//!
//! xmlparser (through strong_xml) splits the text into tokens, and strong_xml
//! unescapes text content; both results depend on the text alone and are
//! named here. Everything after that is this library's own: a scan of the
//! tokens into a flat list of elements, and lookups of child elements by tag.
use vstd::prelude::*;

use strong_xml::xmlparser::{ElementEnd, Token, Tokenizer};
use strong_xml::XmlError;

use crate::text::{joined, same_text};

verus! {

#[verifier::external_type_specification]
#[verifier::external_body]
pub struct ExXmlError(XmlError);

/// One token of an XML text, as far as the documents read here need it.
#[derive(Debug)]
pub enum XmlToken {
    /// `<prefix:local`, with the prefix first.
    Start(String, String),
    /// An attribute of the element being opened.
    Attribute,
    /// `>` ending an element's start tag.
    Open,
    /// `/>` ending an element without content.
    Empty,
    /// `</prefix:local>`, with the prefix first.
    Close(String, String),
    /// Text content, still escaped.
    Text(String),
    /// A CDATA section's content.
    Cdata(String),
    /// A declaration, comment, processing instruction or DTD part.
    Other,
}

/// The tokens of an XML text, or `None` where the tokenizer reports an error.
pub uninterp spec fn xml_tokens(text: Seq<char>) -> Option<Seq<XmlToken>>;

/// The text with its character and entity references replaced, or `None`
/// where a reference is unterminated or unknown.
pub uninterp spec fn xml_unescaped(raw: Seq<char>) -> Option<Seq<char>>;

/// Relies on `xmlparser::Tokenizer` (re-exported by strong_xml): the tokens of
/// the text, each kept one for one, up to the first error, which ends it.
#[verifier::external_body]
fn tokenize(text: &str) -> (r: Result<Vec<XmlToken>, XmlError>)
    ensures
        r is Ok <==> xml_tokens(text@) is Some,
        r matches Ok(v) ==> v@ == xml_tokens(text@)->Some_0,
{
    Tokenizer::from(text).map(|t| t.map(|t| match t {
        Token::ElementStart { prefix, local, .. } => XmlToken::Start(prefix.to_string(), local.to_string()),
        Token::Attribute { .. } => XmlToken::Attribute,
        Token::ElementEnd { end: ElementEnd::Open, .. } => XmlToken::Open,
        Token::ElementEnd { end: ElementEnd::Empty, .. } => XmlToken::Empty,
        Token::ElementEnd { end: ElementEnd::Close(prefix, local), .. } => XmlToken::Close(prefix.to_string(), local.to_string()),
        Token::Text { text } => XmlToken::Text(text.to_string()),
        Token::Cdata { text, .. } => XmlToken::Cdata(text.to_string()),
        _ => XmlToken::Other,
    })).collect::<Result<_, _>>().map_err(XmlError::Parser)
}

/// Relies on `strong_xml::utils::xml_unescape`: the text with its references
/// replaced, or an error for an unterminated or unknown reference.
#[verifier::external_body]
fn unescape(raw: &str) -> (r: Result<String, XmlError>)
    ensures
        r is Ok <==> xml_unescaped(raw@) is Some,
        r matches Ok(s) ==> s@ == xml_unescaped(raw@)->Some_0,
{
    strong_xml::utils::xml_unescape(raw).map(|s| s.into_owned())
}

/// Why a document could not be read.
#[derive(Debug)]
pub enum ReadError {
    /// The tokenizer refused the text, or a text held a bad reference.
    Xml(XmlError),
    /// The tokens do not nest into one element of the expected kind.
    Malformed,
    /// A mandatory child element is absent.
    MissingField { element: String, field: String },
}

/// One element of a document, as the scan records it.
pub struct GNode {
    pub name: Seq<char>,
    /// The index of the enclosing element; `-1` for the root.
    pub parent: int,
    /// The last text or CDATA content directly inside the element.
    pub text: Option<Seq<char>>,
    /// Whether that content is CDATA (which is not unescaped).
    pub cdata: bool,
}

/// The state of a scan over tokens: the elements met so far, in document
/// order, and the ones still open.
pub struct Scan {
    pub nodes: Seq<GNode>,
    pub open: Seq<int>,
    pub in_tag: bool,
    pub done: bool,
    pub failed: bool,
}

/// An element's name: `prefix:local`, or `local` without a prefix.
pub open spec fn qname(prefix: Seq<char>, local: Seq<char>) -> Seq<char> {
    if prefix.len() == 0 {
        local
    } else {
        prefix + ":"@ + local
    }
}

pub open spec fn failed_scan(s: Scan) -> Scan {
    Scan { nodes: s.nodes, open: s.open, in_tag: s.in_tag, done: s.done, failed: true }
}

/// `s` with the innermost open element closed.
pub open spec fn closed_scan(s: Scan) -> Scan {
    Scan {
        nodes: s.nodes,
        open: s.open.drop_last(),
        in_tag: false,
        done: s.open.len() == 1,
        failed: false,
    }
}

/// `s` with the content of the innermost open element set to `x`.
pub open spec fn with_text(s: Scan, x: Seq<char>, cdata: bool) -> Scan {
    let k = s.open.last();
    let n = s.nodes[k];
    Scan {
        nodes: s.nodes.update(k, GNode { name: n.name, parent: n.parent, text: Some(x), cdata }),
        open: s.open,
        in_tag: false,
        done: false,
        failed: false,
    }
}

/// One token of the scan. After the root element closes, the rest is ignored.
pub open spec fn scan_step(s: Scan, t: XmlToken) -> Scan {
    if s.failed || s.done {
        s
    } else {
        match t {
            XmlToken::Start(prefix, local) => if s.in_tag {
                failed_scan(s)
            } else {
                let parent = if s.open.len() == 0 { -1 } else { s.open.last() };
                Scan {
                    nodes: s.nodes.push(GNode { name: qname(prefix@, local@), parent, text: None, cdata: false }),
                    open: s.open.push(s.nodes.len() as int),
                    in_tag: true,
                    done: false,
                    failed: false,
                }
            },
            XmlToken::Attribute => if s.in_tag { s } else { failed_scan(s) },
            XmlToken::Open => if s.in_tag {
                Scan { nodes: s.nodes, open: s.open, in_tag: false, done: false, failed: false }
            } else {
                failed_scan(s)
            },
            XmlToken::Empty => if s.in_tag { closed_scan(s) } else { failed_scan(s) },
            XmlToken::Close(prefix, local) => if !s.in_tag && s.open.len() > 0
                && s.nodes[s.open.last()].name == qname(prefix@, local@) {
                closed_scan(s)
            } else {
                failed_scan(s)
            },
            XmlToken::Text(x) => if s.in_tag {
                failed_scan(s)
            } else if s.open.len() == 0 {
                s
            } else {
                with_text(s, x@, false)
            },
            XmlToken::Cdata(x) => if s.in_tag {
                failed_scan(s)
            } else if s.open.len() == 0 {
                s
            } else {
                with_text(s, x@, true)
            },
            XmlToken::Other => if s.in_tag { failed_scan(s) } else { s },
        }
    }
}

pub open spec fn empty_scan() -> Scan {
    Scan { nodes: Seq::empty(), open: Seq::empty(), in_tag: false, done: false, failed: false }
}

/// The scan over a sequence of tokens.
pub open spec fn scan(t: Seq<XmlToken>) -> Scan
    decreases t.len(),
{
    if t.len() == 0 {
        empty_scan()
    } else {
        scan_step(scan(t.drop_last()), t.last())
    }
}

/// The elements of a document, the root first, or `None` where the text is
/// not one well-nested element.
pub open spec fn doc_of(text: Seq<char>) -> Option<Seq<GNode>> {
    match xml_tokens(text) {
        None => None,
        Some(t) => {
            let s = scan(t);
            if s.failed || !s.done {
                None
            } else {
                Some(s.nodes)
            }
        },
    }
}

/// The indices of the children of element `k` named `name`, among the first
/// `n` elements, in document order.
pub open spec fn children_upto(d: Seq<GNode>, k: int, name: Seq<char>, n: int) -> Seq<int>
    decreases n,
{
    if n <= 0 {
        Seq::empty()
    } else {
        let before = children_upto(d, k, name, n - 1);
        if d[n - 1].parent == k && d[n - 1].name == name {
            before.push(n - 1)
        } else {
            before
        }
    }
}

/// The children of element `k` named `name`, in document order.
pub open spec fn child_indices(d: Seq<GNode>, k: int, name: Seq<char>) -> Seq<int> {
    children_upto(d, k, name, d.len() as int)
}

/// The last child of element `k` named `name`: where an element repeats, the
/// last one counts.
pub open spec fn last_child(d: Seq<GNode>, k: int, name: Seq<char>) -> Option<int> {
    let c = child_indices(d, k, name);
    if c.len() == 0 {
        None
    } else {
        Some(c.last())
    }
}

/// The text of element `k`, unescaped unless it is CDATA; empty where the
/// element holds none, and `None` where unescaping fails.
pub open spec fn text_value(d: Seq<GNode>, k: int) -> Option<Seq<char>> {
    match d[k].text {
        None => Some(Seq::empty()),
        Some(x) => if d[k].cdata {
            Some(x)
        } else {
            xml_unescaped(x)
        },
    }
}

/// Every element's text can be unescaped.
pub open spec fn texts_readable(d: Seq<GNode>) -> bool {
    forall|k: int| 0 <= k < d.len() ==> (#[trigger] text_value(d, k)) is Some
}

/// An element as the scan records it.
pub struct Node {
    name: String,
    parent: Option<usize>,
    text: Option<String>,
    cdata: bool,
}

impl Node {
    pub closed spec fn spec_node(&self) -> GNode {
        GNode {
            name: self.name@,
            parent: match self.parent {
                Some(p) => p as int,
                None => -1,
            },
            text: match self.text {
                Some(t) => Some(t@),
                None => None,
            },
            cdata: self.cdata,
        }
    }
}

pub open spec fn nodes_view(v: Seq<Node>) -> Seq<GNode> {
    v.map_values(|n: Node| n.spec_node())
}

/// A well-nested document: its elements, the root first.
pub struct Doc {
    nodes: Vec<Node>,
}

impl Doc {
    pub closed spec fn spec_nodes(&self) -> Seq<GNode> {
        nodes_view(self.nodes@)
    }

    /// The document of an XML text; `root` is the name its root must have.
    pub fn parse(text: &str, root: &str) -> (r: Result<Doc, ReadError>)
        ensures
            xml_tokens(text@) is None ==> r matches Err(ReadError::Xml(_)),
            xml_tokens(text@) is Some ==> (r is Ok <==> (doc_of(text@) matches Some(d) && d[0].name
                == root@)),
            xml_tokens(text@) is Some && !(r is Ok) ==> r matches Err(ReadError::Malformed),
            r matches Ok(d) ==> doc_of(text@) == Some(d.spec_nodes()) && d.spec_nodes().len() > 0,
    {
        let tokens = match tokenize(text) {
            Err(e) => return Err(ReadError::Xml(e)),
            Ok(t) => t,
        };
        let ghost t = tokens@;
        let mut st = ScanState { nodes: Vec::new(), open: Vec::new(), in_tag: false, done: false, failed: false };
        assert(st.spec_scan().nodes =~= Seq::<GNode>::empty());
        assert(st.spec_scan().open =~= Seq::<int>::empty());
        assert(st.spec_scan() == empty_scan());
        assert(t.subrange(0, 0) =~= Seq::<XmlToken>::empty());
        let mut i: usize = 0;
        while i < tokens.len()
            invariant
                t == tokens@,
                i <= t.len(),
                st.wf(),
                st.spec_scan() == scan(t.subrange(0, i as int)),
            decreases t.len() - i,
        {
            st.step(&tokens[i]);
            assert(t.subrange(0, i + 1).drop_last() =~= t.subrange(0, i as int));
            i = i + 1;
        }
        assert(t.subrange(0, t.len() as int) =~= t);
        if st.failed || !st.done {
            return Err(ReadError::Malformed);
        }
        if !same_text(st.nodes[0].name.as_str(), root) {
            return Err(ReadError::Malformed);
        }
        Ok(Doc { nodes: st.nodes })
    }

    /// The children of element `k` named `name`, in document order.
    pub fn children(&self, k: usize, name: &str) -> (r: Vec<usize>)
        ensures
            r@.len() == child_indices(self.spec_nodes(), k as int, name@).len(),
            forall|j: int| 0 <= j < r@.len() ==> r@[j] as int == child_indices(
                self.spec_nodes(),
                k as int,
                name@,
            )[j] && r@[j] < self.spec_nodes().len(),
    {
        let ghost d = self.spec_nodes();
        let mut r: Vec<usize> = Vec::new();
        let mut n: usize = 0;
        while n < self.nodes.len()
            invariant
                d == self.spec_nodes(),
                d.len() == self.nodes@.len(),
                n <= d.len(),
                r@.len() == children_upto(d, k as int, name@, n as int).len(),
                forall|j: int| 0 <= j < r@.len() ==> r@[j] as int == children_upto(d, k as int, name@, n as int)[j]
                    && r@[j] < n,
            decreases d.len() - n,
        {
            let node = &self.nodes[n];
            assert(d[n as int] == node.spec_node());
            let is_child = match node.parent {
                Some(p) => p == k,
                None => false,
            };
            if is_child && same_text(node.name.as_str(), name) {
                r.push(n);
            }
            n = n + 1;
        }
        r
    }

    /// The last child of element `k` named `name`.
    pub fn last_child(&self, k: usize, name: &str) -> (r: Option<usize>)
        ensures
            r matches Some(c) ==> c < self.spec_nodes().len() && last_child(self.spec_nodes(), k as int, name@)
                == Some(c as int),
            r is None ==> last_child(self.spec_nodes(), k as int, name@) is None,
    {
        let c = self.children(k, name);
        if c.len() == 0 {
            None
        } else {
            Some(c[c.len() - 1])
        }
    }

    /// The text of element `k` (see `text_value`).
    pub fn text(&self, k: usize) -> (r: Result<String, ReadError>)
        requires
            k < self.spec_nodes().len(),
        ensures
            r is Ok <==> text_value(self.spec_nodes(), k as int) is Some,
            r matches Ok(s) ==> Some(s@) == text_value(self.spec_nodes(), k as int),
            r matches Err(e) ==> e is Xml && !texts_readable(self.spec_nodes()),
    {
        let node = &self.nodes[k];
        assert(self.spec_nodes()[k as int] == node.spec_node());
        match &node.text {
            None => Ok(String::new()),
            Some(t) => if node.cdata {
                Ok(t.clone())
            } else {
                match unescape(t.as_str()) {
                    Ok(s) => Ok(s),
                    Err(e) => {
                        assert(text_value(self.spec_nodes(), k as int) is None);
                        Err(ReadError::Xml(e))
                    },
                }
            },
        }
    }
}

/// The scan in progress.
struct ScanState {
    nodes: Vec<Node>,
    open: Vec<usize>,
    in_tag: bool,
    done: bool,
    failed: bool,
}

impl ScanState {
    spec fn spec_scan(&self) -> Scan {
        Scan {
            nodes: nodes_view(self.nodes@),
            open: self.open@.map_values(|i: usize| i as int),
            in_tag: self.in_tag,
            done: self.done,
            failed: self.failed,
        }
    }

    spec fn wf(&self) -> bool {
        &&& forall|j: int| 0 <= j < self.open@.len() ==> self.open@[j] < self.nodes@.len()
        &&& self.in_tag ==> self.open@.len() > 0
        &&& self.done ==> self.nodes@.len() > 0
        &&& !self.failed && !self.done ==> (self.nodes@.len() > 0 <==> self.open@.len() > 0)
    }

    fn fail(&mut self)
        ensures
            final(self).spec_scan() == failed_scan(old(self).spec_scan()),
            final(self).nodes == old(self).nodes,
            final(self).open == old(self).open,
            final(self).in_tag == old(self).in_tag,
            final(self).done == old(self).done,
    {
        self.failed = true;
    }

    fn close(&mut self)
        requires
            old(self).open@.len() > 0,
            old(self).wf(),
            !old(self).failed,
            !old(self).done,
        ensures
            final(self).spec_scan() == closed_scan(old(self).spec_scan()),
            final(self).wf(),
    {
        self.open.pop();
        self.in_tag = false;
        self.done = self.open.len() == 0;
        assert(self.open@.map_values(|i: usize| i as int) =~= old(self).open@.map_values(|i: usize| i as int).drop_last());
    }

    fn step(&mut self, t: &XmlToken)
        requires
            old(self).wf(),
        ensures
            final(self).wf(),
            final(self).spec_scan() == scan_step(old(self).spec_scan(), *t),
    {
        if self.failed || self.done {
            return;
        }
        match t {
            XmlToken::Start(prefix, local) => {
                if self.in_tag {
                    self.fail();
                    return;
                }
                let name = if prefix.as_str().unicode_len() == 0 {
                    local.clone()
                } else {
                    let s = joined(prefix.as_str(), ":");
                    joined(s.as_str(), local.as_str())
                };
                let parent = if self.open.len() == 0 { None } else { Some(self.open[self.open.len() - 1]) };
                let index = self.nodes.len();
                let ghost old_nodes = self.nodes@;
                self.nodes.push(Node { name, parent, text: None, cdata: false });
                self.open.push(index);
                self.in_tag = true;
                assert(nodes_view(self.nodes@) =~= nodes_view(old_nodes).push(self.nodes@[index as int].spec_node()));
                assert(self.open@.map_values(|i: usize| i as int) =~= old(self).open@.map_values(|i: usize| i as int).push(index as int));
            },
            XmlToken::Attribute => {
                if !self.in_tag {
                    self.fail();
                }
            },
            XmlToken::Open => {
                if self.in_tag {
                    self.in_tag = false;
                } else {
                    self.fail();
                }
            },
            XmlToken::Empty => {
                if self.in_tag {
                    self.close();
                } else {
                    self.fail();
                }
            },
            XmlToken::Close(prefix, local) => {
                if self.in_tag || self.open.len() == 0 {
                    self.fail();
                    return;
                }
                let top = self.open[self.open.len() - 1];
                let ghost nv = nodes_view(self.nodes@);
                assert(nv[top as int] == self.nodes@[top as int].spec_node());
                let matches = if prefix.as_str().unicode_len() == 0 {
                    same_text(self.nodes[top].name.as_str(), local.as_str())
                } else {
                    let s = joined(prefix.as_str(), ":");
                    let q = joined(s.as_str(), local.as_str());
                    same_text(self.nodes[top].name.as_str(), q.as_str())
                };
                if matches {
                    self.close();
                } else {
                    self.fail();
                }
            },
            XmlToken::Text(x) => {
                if self.in_tag {
                    self.fail();
                } else if self.open.len() > 0 {
                    self.set_text(x, false);
                }
            },
            XmlToken::Cdata(x) => {
                if self.in_tag {
                    self.fail();
                } else if self.open.len() > 0 {
                    self.set_text(x, true);
                }
            },
            XmlToken::Other => {
                if self.in_tag {
                    self.fail();
                }
            },
        }
    }

    fn set_text(&mut self, x: &String, cdata: bool)
        requires
            old(self).wf(),
            old(self).open@.len() > 0,
            !old(self).in_tag,
            !old(self).failed,
            !old(self).done,
        ensures
            final(self).wf(),
            final(self).spec_scan() == with_text(old(self).spec_scan(), x@, cdata),
    {
        let k = self.open[self.open.len() - 1];
        let name = self.nodes[k].name.clone();
        let parent = self.nodes[k].parent;
        let ghost old_nodes = self.nodes@;
        self.nodes.set(k, Node { name, parent, text: Some(x.clone()), cdata });
        let ghost s = old(self).spec_scan();
        assert(s.open.last() == k as int);
        assert(nodes_view(old_nodes)[k as int] == old_nodes[k as int].spec_node());
        assert(nodes_view(self.nodes@) =~= s.nodes.update(k as int, self.nodes@[k as int].spec_node()));
    }
}

/// A mandatory child, or the error that names it.
pub(crate) fn required<T>(value: Option<T>, element: &str, field: &str) -> (r: Result<T, ReadError>)
    ensures
        value matches Some(v) ==> r == Ok::<T, ReadError>(v),
        value is None ==> (r matches Err(ReadError::MissingField { element: e, field: f }) && e@
            == element@ && f@ == field@),
{
    match value {
        Some(v) => Ok(v),
        None => Err(ReadError::MissingField { element: element.to_owned(), field: field.to_owned() }),
    }
}

} // verus!
