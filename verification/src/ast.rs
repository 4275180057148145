//! The abstract syntax tree produced by a successful parse.
//!
//! Every node is an immutable value; a parent owns its children outright, so
//! the tree has no sharing and no cycles.  Each executable node type has a
//! mathematical counterpart (`...V`) over `Seq<char>` and `Seq` of nodes, and
//! a `deep` specification function mapping the node to that counterpart; the
//! grammar and the parser contracts speak only about the counterparts.

use vstd::prelude::*;

verus! {

broadcast use vstd::std_specs::vec::axiom_vec_decreases_to_view, vstd::std_specs::vec::axiom_vec_index_decreases;

/// A recognized top-level keyword directive.
///
/// The grammar produces only the six bare keyword variants; `Entry` and
/// `Exit` are part of the public vocabulary for future grammar extensions
/// and are never built by this parser.
#[derive(Debug, PartialEq, Clone)]
pub enum Directive {
    StartUml,
    EndUml,
    SkinParam,
    Style,
    Scale,
    Hide,
    Entry(String),
    Exit(String),
}

/// A (possibly nested) diagram body: the elements in source order.
#[derive(Debug, PartialEq)]
pub struct StateDiagram {
    pub elements: Vec<Element>,
}

/// A named state, possibly with visual attributes and a nested body.
#[derive(Debug, PartialEq)]
pub struct StateDeclaration {
    pub name: String,
    pub id: String,
    pub attributes: Option<Attributes>,
    pub state_block: Option<StateBlock>,
}

/// A typed data attribute on a state: `name : "type"` (the quoted string names the data type).
#[derive(Debug, PartialEq, Clone)]
pub struct StateData {
    pub name: String,
    pub data_type: String,
}

/// The braced body of a state declaration.
#[derive(Debug, PartialEq)]
pub struct StateBlock {
    pub elements: Vec<Element>,
}

/// One diagram construct: the closed sum of everything an element can be.
///
/// Nesting in the current grammar comes from state blocks, so a parse
/// produces no `StateDiagram` element; like `Directive::Entry` and
/// `Directive::Exit`, the variant is part of the tree's fixed vocabulary.
#[derive(Debug, PartialEq)]
pub enum Element {
    Directive(Directive),
    StateDiagram(StateDiagram),
    StateDeclaration(StateDeclaration),
    Transition(Transition),
    StateNote(StateNote),
    StateData(StateData),
}

/// An edge between two states, with an optional event label.
#[derive(Debug, PartialEq, Clone)]
pub struct Transition {
    pub from_state: String,
    pub to_state: String,
    pub event: Option<String>,
}

/// A free-text annotation attached to an identifier.
#[derive(Debug, PartialEq, Clone)]
pub struct StateNote {
    pub identifier: String,
    pub content: String,
}

/// Visual attributes on a state; only the color is populated by the
/// current grammar, the style fields are reserved.
#[derive(Debug, PartialEq, Clone)]
pub struct Attributes {
    pub color: String,
    pub line_style: Option<String>,
    pub text_style: Option<String>,
}

/// Mathematical counterpart of [`Directive`].
pub enum DirectiveV {
    StartUml,
    EndUml,
    SkinParam,
    Style,
    Scale,
    Hide,
    Entry(Seq<char>),
    Exit(Seq<char>),
}

/// Mathematical counterpart of [`StateDiagram`].
pub struct StateDiagramV {
    pub elements: Seq<ElementV>,
}

/// Mathematical counterpart of [`StateDeclaration`].
pub struct StateDeclarationV {
    pub name: Seq<char>,
    pub id: Seq<char>,
    pub attributes: Option<AttributesV>,
    pub state_block: Option<StateBlockV>,
}

/// Mathematical counterpart of [`StateData`].
pub struct StateDataV {
    pub name: Seq<char>,
    pub data_type: Seq<char>,
}

/// Mathematical counterpart of [`StateBlock`].
pub struct StateBlockV {
    pub elements: Seq<ElementV>,
}

/// Mathematical counterpart of [`Element`].
pub enum ElementV {
    Directive(DirectiveV),
    StateDiagram(StateDiagramV),
    StateDeclaration(StateDeclarationV),
    Transition(TransitionV),
    StateNote(StateNoteV),
    StateData(StateDataV),
}

/// Mathematical counterpart of [`Transition`].
pub struct TransitionV {
    pub from_state: Seq<char>,
    pub to_state: Seq<char>,
    pub event: Option<Seq<char>>,
}

/// Mathematical counterpart of [`StateNote`].
pub struct StateNoteV {
    pub identifier: Seq<char>,
    pub content: Seq<char>,
}

/// Mathematical counterpart of [`Attributes`].
pub struct AttributesV {
    pub color: Seq<char>,
    pub line_style: Option<Seq<char>>,
    pub text_style: Option<Seq<char>>,
}

impl Directive {
    pub open spec fn deep(self) -> DirectiveV {
        match self {
            Directive::StartUml => DirectiveV::StartUml,
            Directive::EndUml => DirectiveV::EndUml,
            Directive::SkinParam => DirectiveV::SkinParam,
            Directive::Style => DirectiveV::Style,
            Directive::Scale => DirectiveV::Scale,
            Directive::Hide => DirectiveV::Hide,
            Directive::Entry(s) => DirectiveV::Entry(s@),
            Directive::Exit(s) => DirectiveV::Exit(s@),
        }
    }
}

impl Transition {
    pub open spec fn deep(self) -> TransitionV {
        TransitionV {
            from_state: self.from_state@,
            to_state: self.to_state@,
            event: match self.event {
                Some(e) => Some(e@),
                None => None,
            },
        }
    }
}

impl StateNote {
    pub open spec fn deep(self) -> StateNoteV {
        StateNoteV { identifier: self.identifier@, content: self.content@ }
    }
}

impl StateData {
    pub open spec fn deep(self) -> StateDataV {
        StateDataV { name: self.name@, data_type: self.data_type@ }
    }
}

impl Attributes {
    pub open spec fn deep(self) -> AttributesV {
        AttributesV {
            color: self.color@,
            line_style: match self.line_style {
                Some(s) => Some(s@),
                None => None,
            },
            text_style: match self.text_style {
                Some(s) => Some(s@),
                None => None,
            },
        }
    }
}

/// Counterpart of a sequence of elements, element by element in order.
pub open spec fn elems_deep(s: Seq<Element>) -> Seq<ElementV>
    decreases s,
{
    if s.len() == 0 {
        Seq::empty()
    } else {
        seq![s[0].deep()] + elems_deep(s.subrange(1, s.len() as int))
    }
}

impl Element {
    pub open spec fn deep(self) -> ElementV
        decreases self,
    {
        match self {
            Element::Directive(d) => ElementV::Directive(d.deep()),
            Element::StateDiagram(d) => ElementV::StateDiagram(
                StateDiagramV { elements: elems_deep(d.elements@) },
            ),
            Element::StateDeclaration(d) => ElementV::StateDeclaration(d.deep()),
            Element::Transition(t) => ElementV::Transition(t.deep()),
            Element::StateNote(n) => ElementV::StateNote(n.deep()),
            Element::StateData(d) => ElementV::StateData(d.deep()),
        }
    }
}

impl StateDeclaration {
    pub open spec fn deep(self) -> StateDeclarationV
        decreases self,
    {
        StateDeclarationV {
            name: self.name@,
            id: self.id@,
            attributes: match self.attributes {
                Some(a) => Some(a.deep()),
                None => None,
            },
            state_block: match self.state_block {
                Some(b) => Some(StateBlockV { elements: elems_deep(b.elements@) }),
                None => None,
            },
        }
    }
}

impl StateDiagram {
    pub open spec fn deep(self) -> StateDiagramV {
        StateDiagramV { elements: elems_deep(self.elements@) }
    }
}

impl StateBlock {
    pub open spec fn deep(self) -> StateBlockV {
        StateBlockV { elements: elems_deep(self.elements@) }
    }
}

/// Unrolls [`elems_deep`] one element at a time from the front.
pub proof fn lemma_elems_deep_cons(e: Element, rest: Seq<Element>)
    ensures
        elems_deep(seq![e] + rest) == seq![e.deep()] + elems_deep(rest),
{
    let s = seq![e] + rest;
    assert(s.len() > 0);
    assert(s[0] == e);
    assert(s.subrange(1, s.len() as int) =~= rest);
}

/// Unrolls [`elems_deep`] one element at a time from the back.
pub proof fn lemma_elems_deep_push(s: Seq<Element>, e: Element)
    ensures
        elems_deep(s.push(e)) == elems_deep(s) + seq![e.deep()],
    decreases s,
{
    if s.len() == 0 {
        assert(s.push(e)[0] == e);
        assert(s.push(e).subrange(1, 1) =~= Seq::<Element>::empty());
        assert(elems_deep(s.push(e).subrange(1, 1)) =~= Seq::<ElementV>::empty());
        assert(elems_deep(s) =~= Seq::<ElementV>::empty());
        assert(elems_deep(s.push(e)) =~= elems_deep(s) + seq![e.deep()]);
    } else {
        let t = s.push(e);
        assert(t[0] == s[0]);
        assert(t.subrange(1, t.len() as int) =~= s.subrange(1, s.len() as int).push(e));
        lemma_elems_deep_push(s.subrange(1, s.len() as int), e);
        assert(elems_deep(t) == seq![t[0].deep()] + elems_deep(t.subrange(1, t.len() as int)));
        assert(elems_deep(s) == seq![s[0].deep()] + elems_deep(s.subrange(1, s.len() as int)));
        assert(elems_deep(t) =~= elems_deep(s) + seq![e.deep()]);
    }
}

fn clone_string_opt(o: &Option<String>) -> (r: Option<String>)
    ensures
        r == *o,
{
    match o {
        Some(s) => Some(s.clone()),
        None => None,
    }
}

fn clone_elements(v: &Vec<Element>) -> (r: Vec<Element>)
    ensures
        elems_deep(r@) == elems_deep(v@),
    decreases *v,
{
    let mut out: Vec<Element> = Vec::new();
    assert(elems_deep(out@) =~= elems_deep(v@.subrange(0, 0)));
    let mut i: usize = 0;
    while i < v.len()
        invariant
            0 <= i <= v.len(),
            elems_deep(out@) == elems_deep(v@.subrange(0, i as int)),
        decreases v@.len() - i,
    {
        let e = v[i].clone();
        proof {
            lemma_elems_deep_push(v@.subrange(0, i as int), v@[i as int]);
            assert(v@.subrange(0, i as int).push(v@[i as int]) =~= v@.subrange(0, i + 1));
            lemma_elems_deep_push(out@, e);
        }
        out.push(e);
        i = i + 1;
    }
    assert(v@.subrange(0, v@.len() as int) =~= v@);
    out
}

impl Clone for Element {
    /// A deep copy: the clone's tree is the same tree.
    fn clone(&self) -> (r: Self)
        ensures
            r.deep() == self.deep(),
        decreases self,
    {
        match self {
            Element::Directive(d) => Element::Directive(
                match d {
                    Directive::StartUml => Directive::StartUml,
                    Directive::EndUml => Directive::EndUml,
                    Directive::SkinParam => Directive::SkinParam,
                    Directive::Style => Directive::Style,
                    Directive::Scale => Directive::Scale,
                    Directive::Hide => Directive::Hide,
                    Directive::Entry(s) => Directive::Entry(s.clone()),
                    Directive::Exit(s) => Directive::Exit(s.clone()),
                },
            ),
            Element::StateDiagram(d) => Element::StateDiagram(
                StateDiagram { elements: clone_elements(&d.elements) },
            ),
            Element::StateDeclaration(d) => Element::StateDeclaration(
                StateDeclaration {
                    name: d.name.clone(),
                    id: d.id.clone(),
                    attributes: match &d.attributes {
                        Some(a) => Some(
                            Attributes {
                                color: a.color.clone(),
                                line_style: clone_string_opt(&a.line_style),
                                text_style: clone_string_opt(&a.text_style),
                            },
                        ),
                        None => None,
                    },
                    state_block: match &d.state_block {
                        Some(b) => Some(StateBlock { elements: clone_elements(&b.elements) }),
                        None => None,
                    },
                },
            ),
            Element::Transition(t) => Element::Transition(
                Transition {
                    from_state: t.from_state.clone(),
                    to_state: t.to_state.clone(),
                    event: clone_string_opt(&t.event),
                },
            ),
            Element::StateNote(n) => Element::StateNote(
                StateNote { identifier: n.identifier.clone(), content: n.content.clone() },
            ),
            Element::StateData(d) => Element::StateData(
                StateData { name: d.name.clone(), data_type: d.data_type.clone() },
            ),
        }
    }
}

impl Clone for StateDiagram {
    /// A deep copy: the clone's tree is the same tree.
    fn clone(&self) -> (r: Self)
        ensures
            r.deep() == self.deep(),
    {
        StateDiagram { elements: clone_elements(&self.elements) }
    }
}

impl Clone for StateBlock {
    /// A deep copy: the clone's tree is the same tree.
    fn clone(&self) -> (r: Self)
        ensures
            r.deep() == self.deep(),
    {
        StateBlock { elements: clone_elements(&self.elements) }
    }
}

impl Clone for StateDeclaration {
    /// A deep copy: the clone's tree is the same tree.
    fn clone(&self) -> (r: Self)
        ensures
            r.deep() == self.deep(),
    {
        StateDeclaration {
            name: self.name.clone(),
            id: self.id.clone(),
            attributes: match &self.attributes {
                Some(a) => Some(
                    Attributes {
                        color: a.color.clone(),
                        line_style: clone_string_opt(&a.line_style),
                        text_style: clone_string_opt(&a.text_style),
                    },
                ),
                None => None,
            },
            state_block: match &self.state_block {
                Some(b) => Some(StateBlock { elements: clone_elements(&b.elements) }),
                None => None,
            },
        }
    }
}

/// The depth of state-block nesting below one element: a state declaration
/// with a block stands one level above the deepest element of that block.
pub open spec fn elem_depth(e: ElementV) -> int
    decreases e,
{
    match e {
        ElementV::StateDeclaration(d) => match d.state_block {
            Some(b) => 1 + elems_depth(b.elements),
            None => 0,
        },
        ElementV::StateDiagram(d) => elems_depth(d.elements),
        _ => 0,
    }
}

/// The deepest state-block nesting among a sequence of elements.
pub open spec fn elems_depth(es: Seq<ElementV>) -> int
    decreases es,
{
    if es.len() == 0 {
        0
    } else {
        vstd::math::max(elem_depth(es[0]), elems_depth(es.subrange(1, es.len() as int)))
    }
}

/// Nesting depths are never negative.
pub proof fn lemma_elem_depth_nonneg(e: ElementV)
    ensures
        elem_depth(e) >= 0,
    decreases e,
{
    match e {
        ElementV::StateDeclaration(d) => match d.state_block {
            Some(b) => lemma_elems_depth_nonneg(b.elements),
            None => {},
        },
        ElementV::StateDiagram(d) => lemma_elems_depth_nonneg(d.elements),
        _ => {},
    }
}

/// Nesting depths are never negative.
pub proof fn lemma_elems_depth_nonneg(es: Seq<ElementV>)
    ensures
        elems_depth(es) >= 0,
    decreases es,
{
    if es.len() > 0 {
        lemma_elems_depth_nonneg(es.subrange(1, es.len() as int));
    }
}

} // verus!
