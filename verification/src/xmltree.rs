use vstd::prelude::*;

use vstd::string::StringExecFns;

use crate::ParseError;

verus! {

broadcast use vstd::std_specs::vec::axiom_vec_index_decreases;

/// One XML element: its local name, its accumulated character data,
/// and its child elements in order.
#[derive(Debug)]
pub struct XmlNode {
    pub name: String,
    pub text: String,
    pub children: Vec<XmlNode>,
}

/// The mathematical view of an element: names and character data as
/// character sequences, children as a sequence of views.
#[verifier::ext_equal]
pub ghost struct XmlNodeView {
    pub name: Seq<char>,
    pub text: Seq<char>,
    pub children: Seq<XmlNodeView>,
}

pub open spec fn node_view(n: XmlNode) -> XmlNodeView
    decreases n,
{
    XmlNodeView { name: n.name@, text: n.text@, children: nodes_view(n.children) }
}

/// The view of an element that has nothing in it.
pub open spec fn empty_node_view() -> XmlNodeView {
    XmlNodeView {
        name: Seq::<char>::empty(),
        text: Seq::<char>::empty(),
        children: Seq::<XmlNodeView>::empty(),
    }
}

/// The views of a vector of elements, in order.
pub open spec fn nodes_view(v: Vec<XmlNode>) -> Seq<XmlNodeView>
    decreases v,
{
    Seq::new(
        v@.len(),
        |i: int|
            if 0 <= i && i < v@.len() {
                node_view(v[i])
            } else {
                empty_node_view()
            },
    )
}

impl DeepView for XmlNode {
    type V = XmlNodeView;

    open spec fn deep_view(&self) -> XmlNodeView {
        node_view(*self)
    }
}

/// One pull-parser event, reduced to what the element tree needs:
/// element starts and ends, character data, the document's end, one
/// `Skip` for everything insignificant, and `Fail` for the parser's
/// first error, carrying its message.
#[derive(Debug)]
pub enum XmlToken {
    Start(String),
    Text(String),
    End,
    DocEnd,
    Skip,
    Fail(String),
}

#[verifier::ext_equal]
pub ghost enum XmlTokenView {
    Start(Seq<char>),
    Text(Seq<char>),
    End,
    DocEnd,
    Skip,
    Fail(Seq<char>),
}

impl DeepView for XmlToken {
    type V = XmlTokenView;

    open spec fn deep_view(&self) -> XmlTokenView {
        match self {
            XmlToken::Start(s) => XmlTokenView::Start(s@),
            XmlToken::Text(s) => XmlTokenView::Text(s@),
            XmlToken::End => XmlTokenView::End,
            XmlToken::DocEnd => XmlTokenView::DocEnd,
            XmlToken::Skip => XmlTokenView::Skip,
            XmlToken::Fail(s) => XmlTokenView::Fail(s@),
        }
    }
}

/// The pull-parser events of a document text, in order, ending with
/// the document's end or its first error: a function of the text
/// alone, with whitespace around character data trimmed and CDATA read
/// as character data.
pub uninterp spec fn xml_tokens_of(text: Seq<char>) -> Seq<XmlTokenView>;

/// Relies on xml::ParserConfig::create_reader and on the event
/// iterator of xml::reader::EventReader, which ends after the document
/// end or the first error: the events of a document are a function of
/// its text alone, and each is carried over variant for variant,
/// moving only its fields.
#[verifier::external_body]
fn xml_tokens(text: &str) -> (r: Vec<XmlToken>)
    ensures
        r.deep_view() == xml_tokens_of(text@),
{
    let reader = xml::ParserConfig::new().trim_whitespace(true).cdata_to_characters(
        true,
    ).create_reader(text.as_bytes());
    reader.into_iter().map(|ev| match ev {
        Ok(xml::reader::XmlEvent::StartElement { name, .. }) => XmlToken::Start(name.local_name),
        Ok(xml::reader::XmlEvent::EndElement { .. }) => XmlToken::End,
        Ok(xml::reader::XmlEvent::Characters(s)) => XmlToken::Text(s),
        Ok(xml::reader::XmlEvent::CData(s)) => XmlToken::Text(s),
        Ok(xml::reader::XmlEvent::EndDocument) => XmlToken::DocEnd,
        Ok(_) => XmlToken::Skip,
        Err(e) => XmlToken::Fail(format!("{}", e)),
    }).collect()
}

/// The tree builder's state: the open ancestors, the element being
/// filled, and the finished document element.
#[verifier::ext_equal]
pub ghost struct BuildState {
    pub stack: Seq<XmlNodeView>,
    pub current: Option<XmlNodeView>,
    pub root: Option<XmlNodeView>,
}

pub open spec fn initial_build_state() -> BuildState {
    BuildState {
        stack: Seq::<XmlNodeView>::empty(),
        current: Option::None,
        root: Option::None,
    }
}

/// Folds the events from position `i` on into one element tree: `None`
/// for any stream that does not describe exactly one well-formed
/// element followed by the document's end.
pub open spec fn spec_build(toks: Seq<XmlTokenView>, i: int, st: BuildState) -> Option<XmlNodeView>
    decreases toks.len() - i,
{
    if i < 0 || i >= toks.len() {
        Option::None
    } else {
        match toks[i] {
            XmlTokenView::Skip => spec_build(toks, i + 1, st),
            XmlTokenView::Fail(_) => Option::None,
            XmlTokenView::Start(nm) => {
                if st.root is Some {
                    Option::None
                } else {
                    let stack2 = match st.current {
                        Option::Some(c) => st.stack.push(c),
                        Option::None => st.stack,
                    };
                    spec_build(
                        toks,
                        i + 1,
                        BuildState {
                            stack: stack2,
                            current: Some(
                                XmlNodeView {
                                    name: nm,
                                    text: Seq::<char>::empty(),
                                    children: Seq::<XmlNodeView>::empty(),
                                },
                            ),
                            root: st.root,
                        },
                    )
                }
            },
            XmlTokenView::Text(s) => match st.current {
                Option::Some(c) => spec_build(
                    toks,
                    i + 1,
                    BuildState {
                        stack: st.stack,
                        current: Some(
                            XmlNodeView { name: c.name, text: c.text + s, children: c.children },
                        ),
                        root: st.root,
                    },
                ),
                Option::None => Option::None,
            },
            XmlTokenView::End => match st.current {
                Option::None => Option::None,
                Option::Some(c) => {
                    if st.stack.len() == 0 {
                        spec_build(
                            toks,
                            i + 1,
                            BuildState { stack: st.stack, current: Option::None, root: Some(c) },
                        )
                    } else {
                        let p = st.stack.last();
                        spec_build(
                            toks,
                            i + 1,
                            BuildState {
                                stack: st.stack.drop_last(),
                                current: Some(
                                    XmlNodeView {
                                        name: p.name,
                                        text: p.text,
                                        children: p.children.push(c),
                                    },
                                ),
                                root: st.root,
                            },
                        )
                    }
                },
            },
            XmlTokenView::DocEnd => {
                if st.current is None && st.stack.len() == 0 {
                    st.root
                } else {
                    Option::None
                }
            },
        }
    }
}

/// What a document text parses to: the fold of its events into one
/// element tree, or `None` when the text is no well-formed document.
pub open spec fn spec_xml_tree(text: Seq<char>) -> Option<XmlNodeView> {
    spec_build(xml_tokens_of(text), 0, initial_build_state())
}

/// Parses the document text into exactly the element tree that
/// `spec_xml_tree` gives it; any reader error, and any event stream
/// that does not describe one well-formed element, is reported as the
/// error.
pub fn parse_xml_tree(text: &str) -> (r: Result<XmlNode, ParseError>)
    ensures
        match spec_xml_tree(text@) {
            Option::Some(v) => r matches Ok(n) && n.deep_view() == v,
            Option::None => r is Err,
        },
{
    let toks = xml_tokens(text);
    let ghost tv = toks.deep_view();
    let mut stack: Vec<XmlNode> = Vec::new();
    let mut current: Option<XmlNode> = None;
    let mut root: Option<XmlNode> = None;
    let mut i: usize = 0;
    proof {
        assert(BuildState {
            stack: stack.deep_view(),
            current: current.deep_view(),
            root: root.deep_view(),
        } =~~= initial_build_state());
    }
    while i < toks.len()
        invariant
            i <= toks@.len(),
            tv == toks.deep_view(),
            tv == xml_tokens_of(text@),
            tv.len() == toks@.len(),
            spec_xml_tree(text@) == spec_build(
                tv,
                i as int,
                BuildState {
                    stack: stack.deep_view(),
                    current: current.deep_view(),
                    root: root.deep_view(),
                },
            ),
        decreases toks@.len() - i,
    {
        let ghost st = BuildState {
            stack: stack.deep_view(),
            current: current.deep_view(),
            root: root.deep_view(),
        };
        proof {
            assert(tv[i as int] == toks@[i as int].deep_view());
        }
        match &toks[i] {
            XmlToken::Skip => {},
            XmlToken::Fail(e) => {
                return Err(ParseError(e.clone()));
            },
            XmlToken::Start(name) => {
                if root.is_some() {
                    return Err(ParseError("More than one document element".to_owned()));
                }
                let prev = current;
                match prev {
                    Option::Some(c) => {
                        let ghost stack0 = stack.deep_view();
                        let ghost cv = c.deep_view();
                        stack.push(c);
                        proof {
                            assert(stack.deep_view() =~= stack0.push(cv));
                        }
                    },
                    Option::None => {},
                }
                let node = XmlNode { name: name.clone(), text: String::new(), children: Vec::new() };
                proof {
                    assert(node.name@ == name@);
                    assert(node.text@ =~= Seq::<char>::empty());
                    assert(node.children@.len() == 0);
                    assert(node.deep_view() == node_view(node));
                    assert(node_view(node).children =~~= Seq::<XmlNodeView>::empty());
                    assert(node.deep_view() =~~= XmlNodeView {
                        name: name@,
                        text: Seq::<char>::empty(),
                        children: Seq::<XmlNodeView>::empty(),
                    });
                }
                current = Some(node);
                proof {
                    assert(BuildState {
                        stack: stack.deep_view(),
                        current: current.deep_view(),
                        root: root.deep_view(),
                    } =~~= (match st.current {
                        Option::Some(c) => BuildState {
                            stack: st.stack.push(c),
                            current: Some(
                                XmlNodeView {
                                    name: name@,
                                    text: Seq::<char>::empty(),
                                    children: Seq::<XmlNodeView>::empty(),
                                },
                            ),
                            root: st.root,
                        },
                        Option::None => BuildState {
                            stack: st.stack,
                            current: Some(
                                XmlNodeView {
                                    name: name@,
                                    text: Seq::<char>::empty(),
                                    children: Seq::<XmlNodeView>::empty(),
                                },
                            ),
                            root: st.root,
                        },
                    }));
                }
            },
            XmlToken::Text(s) => {
                let prev = current;
                match prev {
                    Option::Some(mut c) => {
                        let ghost cv = c.deep_view();
                        c.text.append(s.as_str());
                        proof {
                            assert(c.deep_view() =~~= XmlNodeView {
                                name: cv.name,
                                text: cv.text + s@,
                                children: cv.children,
                            });
                        }
                        current = Some(c);
                    },
                    Option::None => {
                        return Err(
                            ParseError("Character data outside the document element".to_owned()),
                        );
                    },
                }
            },
            XmlToken::End => {
                let prev = current;
                match prev {
                    Option::None => {
                        return Err(ParseError("Unmatched element end".to_owned()));
                    },
                    Option::Some(c) => {
                        let ghost cv = c.deep_view();
                        let ghost stack0 = stack.deep_view();
                        match stack.pop() {
                            Option::Some(mut p) => {
                                let ghost pv = p.deep_view();
                                let ghost pold = p;
                                proof {
                                    assert(pv == stack0.last());
                                    assert(stack.deep_view() =~= stack0.drop_last());
                                }
                                p.children.push(c);
                                proof {
                                    assert(p.children@ == pold.children@.push(c));
                                    assert(p.deep_view() == node_view(p));
                                    assert(pv.children == nodes_view(pold.children));
                                    assert(nodes_view(p.children).len() == pold.children@.len()
                                        + 1);
                                    assert(forall|j: int|
                                        0 <= j < pold.children@.len() ==> p.children[j]
                                            == pold.children[j]);
                                    assert(nodes_view(p.children) =~~= pv.children.push(cv));
                                    assert(p.deep_view() =~~= XmlNodeView {
                                        name: pv.name,
                                        text: pv.text,
                                        children: pv.children.push(cv),
                                    });
                                }
                                current = Some(p);
                            },
                            Option::None => {
                                proof {
                                    assert(stack0.len() == 0);
                                }
                                root = Some(c);
                                current = None;
                            },
                        }
                    },
                }
            },
            XmlToken::DocEnd => {
                if current.is_some() || stack.len() > 0 {
                    return Err(ParseError("Document ends inside an element".to_owned()));
                }
                let done = root;
                match done {
                    Option::Some(t) => {
                        return Ok(t);
                    },
                    Option::None => {
                        return Err(ParseError("Document has no element".to_owned()));
                    },
                }
            },
        }
        i = i + 1;
    }
    Err(ParseError("Document has no end".to_owned()))
}

} // verus!
