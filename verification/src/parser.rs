//! The executable parsing engine.
//!
//! A recursive-descent engine with ordered choice and backtracking, working
//! on character positions of the input.  Every function mirrors one grammar
//! function of [`crate::grammar`] and is proved to return exactly what that
//! function says; the entry points therefore return, for every input, the one
//! tree the grammar assigns, or a [`SyntaxError`] carrying the position where
//! parsing stopped.

use crate::ast::Directive;
use crate::ast::Element;
use crate::ast::StateBlock;
use crate::ast::StateData;
use crate::ast::StateDeclaration;
use crate::ast::StateDiagram;
use crate::ast::StateNote;
use crate::ast::Transition;
use crate::ast::elems_deep;
use crate::ast::lemma_elems_deep_cons;
use crate::grammar::col_of;
use crate::grammar::color_end;
use crate::grammar::dash_end;
use crate::grammar::event_end;
use crate::grammar::find_quote;
use crate::grammar::first_non_ws;
use crate::grammar::ident_end;
use crate::grammar::is_color_char;
use crate::grammar::is_event_end;
use crate::grammar::is_ident_char;
use crate::grammar::is_ident_start;
use crate::grammar::is_ws;
use crate::grammar::last_non_ws;
use crate::grammar::lemma_ident_end_bounds;
use crate::grammar::line_end;
use crate::grammar::line_of;
use crate::grammar::match_kw;
use crate::grammar::parse_decl_tail;
use crate::grammar::parse_directive;
use crate::grammar::parse_element;
use crate::grammar::parse_elements;
use crate::grammar::parse_state_data;
use crate::grammar::parse_state_declaration;
use crate::grammar::parse_state_note;
use crate::grammar::parse_transition;
use crate::grammar::scan_arrow;
use crate::grammar::scan_color;
use crate::grammar::scan_ident;
use crate::grammar::scan_string;
use crate::grammar::skip_trivia;
use crate::grammar::spec_fail_pos;
use crate::grammar::spec_parse_diagram;
use crate::grammar::strip_event;
use vstd::prelude::*;
use vstd::string::StrSliceExecFns;

verus! {

/// What the engine reports when the grammar assigns the input no tree: the
/// character position where parsing stopped, its 1-based line and column,
/// a description of what would have been accepted there, and the rule trail
/// that was active.
#[derive(Debug, PartialEq, Clone)]
pub struct SyntaxError {
    pub position: usize,
    pub line: usize,
    pub column: usize,
    pub expected: String,
    pub rule_stack: Vec<String>,
}

fn is_ws_x(c: char) -> (r: bool)
    ensures
        r == is_ws(c),
{
    c == ' ' || c == '\t' || c == '\r' || c == '\n'
}

fn is_ident_start_x(c: char) -> (r: bool)
    ensures
        r == is_ident_start(c),
{
    ('a' <= c && c <= 'z') || ('A' <= c && c <= 'Z') || c == '_'
}

fn is_ident_char_x(c: char) -> (r: bool)
    ensures
        r == is_ident_char(c),
{
    is_ident_start_x(c) || ('0' <= c && c <= '9')
}

fn is_color_char_x(c: char) -> (r: bool)
    ensures
        r == is_color_char(c),
{
    ('a' <= c && c <= 'z') || ('A' <= c && c <= 'Z') || ('0' <= c && c <= '9')
}

fn is_event_end_x(c: char) -> (r: bool)
    ensures
        r == is_event_end(c),
{
    c == '\n' || c == '\r' || c == '}'
}

fn line_end_x(s: &str, pos: usize, n: usize) -> (r: usize)
    requires
        pos <= n,
        n == s@.len(),
    ensures
        r as int == line_end(s@, pos as int),
        pos <= r <= n,
{
    let mut cur: usize = pos;
    while cur < n && s.get_char(cur) != '\n'
        invariant
            pos <= cur <= n,
            n == s@.len(),
            line_end(s@, pos as int) == line_end(s@, cur as int),
        decreases n - cur,
    {
        cur = cur + 1;
    }
    cur
}

fn skip_trivia_x(s: &str, pos: usize, n: usize) -> (r: usize)
    requires
        pos <= n,
        n == s@.len(),
    ensures
        r as int == skip_trivia(s@, pos as int),
        pos <= r <= n,
{
    let mut cur: usize = pos;
    loop
        invariant
            pos <= cur <= n,
            n == s@.len(),
            skip_trivia(s@, pos as int) == skip_trivia(s@, cur as int),
        decreases n - cur,
    {
        if cur >= n {
            assert(skip_trivia(s@, cur as int) == cur as int);
            return cur;
        }
        let c = s.get_char(cur);
        if is_ws_x(c) {
            cur = cur + 1;
        } else if c == '/' && cur + 1 < n && s.get_char(cur + 1) == '/' {
            let e = line_end_x(s, cur + 2, n);
            assert(skip_trivia(s@, cur as int) == skip_trivia(s@, e as int));
            cur = e;
        } else if c == '\'' {
            let e = line_end_x(s, cur + 1, n);
            assert(skip_trivia(s@, cur as int) == skip_trivia(s@, e as int));
            cur = e;
        } else {
            assert(skip_trivia(s@, cur as int) == cur as int);
            return cur;
        }
    }
}

fn ident_end_x(s: &str, pos: usize, n: usize) -> (r: usize)
    requires
        pos <= n,
        n == s@.len(),
    ensures
        r as int == ident_end(s@, pos as int),
        pos <= r <= n,
{
    let mut cur: usize = pos;
    while cur < n && is_ident_char_x(s.get_char(cur))
        invariant
            pos <= cur <= n,
            n == s@.len(),
            ident_end(s@, pos as int) == ident_end(s@, cur as int),
        decreases n - cur,
    {
        cur = cur + 1;
    }
    cur
}

fn color_end_x(s: &str, pos: usize, n: usize) -> (r: usize)
    requires
        pos <= n,
        n == s@.len(),
    ensures
        r as int == color_end(s@, pos as int),
        pos <= r <= n,
{
    let mut cur: usize = pos;
    while cur < n && is_color_char_x(s.get_char(cur))
        invariant
            pos <= cur <= n,
            n == s@.len(),
            color_end(s@, pos as int) == color_end(s@, cur as int),
        decreases n - cur,
    {
        cur = cur + 1;
    }
    cur
}

fn dash_end_x(s: &str, pos: usize, n: usize) -> (r: usize)
    requires
        pos <= n,
        n == s@.len(),
    ensures
        r as int == dash_end(s@, pos as int),
        pos <= r <= n,
{
    let mut cur: usize = pos;
    while cur < n && s.get_char(cur) == '-'
        invariant
            pos <= cur <= n,
            n == s@.len(),
            dash_end(s@, pos as int) == dash_end(s@, cur as int),
        decreases n - cur,
    {
        cur = cur + 1;
    }
    cur
}

fn find_quote_x(s: &str, pos: usize, n: usize) -> (r: Option<usize>)
    requires
        pos <= n,
        n == s@.len(),
    ensures
        match r {
            Some(q) => find_quote(s@, pos as int) == q as int && pos <= q < n,
            None => find_quote(s@, pos as int) == -1,
        },
{
    let mut cur: usize = pos;
    while cur < n && s.get_char(cur) != '"'
        invariant
            pos <= cur <= n,
            n == s@.len(),
            find_quote(s@, pos as int) == find_quote(s@, cur as int),
        decreases n - cur,
    {
        cur = cur + 1;
    }
    if cur < n {
        Some(cur)
    } else {
        None
    }
}

fn event_end_x(s: &str, pos: usize, n: usize) -> (r: usize)
    requires
        pos <= n,
        n == s@.len(),
    ensures
        r as int == event_end(s@, pos as int),
        pos <= r <= n,
{
    let mut cur: usize = pos;
    while cur < n && !is_event_end_x(s.get_char(cur))
        invariant
            pos <= cur <= n,
            n == s@.len(),
            event_end(s@, pos as int) == event_end(s@, cur as int),
        decreases n - cur,
    {
        cur = cur + 1;
    }
    cur
}

fn first_non_ws_x(s: &str, pos: usize, to: usize, n: usize) -> (r: usize)
    requires
        pos <= to <= n,
        n == s@.len(),
    ensures
        r as int == first_non_ws(s@, pos as int, to as int),
        pos <= r <= to,
{
    let mut cur: usize = pos;
    while cur < to && is_ws_x(s.get_char(cur))
        invariant
            pos <= cur <= to,
            to <= n == s@.len(),
            first_non_ws(s@, pos as int, to as int) == first_non_ws(s@, cur as int, to as int),
        decreases to - cur,
    {
        cur = cur + 1;
    }
    cur
}

fn last_non_ws_x(s: &str, from: usize, pos: usize, n: usize) -> (r: usize)
    requires
        from <= pos <= n,
        n == s@.len(),
    ensures
        r as int == last_non_ws(s@, from as int, pos as int),
        from <= r <= pos,
{
    let mut cur: usize = pos;
    while cur > from && is_ws_x(s.get_char(cur - 1))
        invariant
            from <= cur <= pos,
            pos <= n == s@.len(),
            last_non_ws(s@, from as int, pos as int) == last_non_ws(s@, from as int, cur as int),
        decreases cur,
    {
        cur = cur - 1;
    }
    cur
}

fn eq_kw_x(s: &str, pos: usize, n: usize, kw: &str) -> (r: bool)
    requires
        pos <= n,
        n == s@.len(),
    ensures
        r == match_kw(s@, pos as int, kw@),
{
    let k = kw.unicode_len();
    if k > n - pos {
        return false;
    }
    let mut i: usize = 0;
    while i < k
        invariant
            0 <= i <= k,
            pos + k <= n,
            n == s@.len(),
            k == kw@.len(),
            forall|j: int| 0 <= j < i ==> s@[pos + j] == kw@[j],
        decreases k - i,
    {
        if s.get_char(pos + i) != kw.get_char(i) {
            assert(s@.subrange(pos as int, pos + k as int)[i as int] != kw@[i as int]);
            return false;
        }
        i = i + 1;
    }
    assert(s@.subrange(pos as int, pos + k as int) =~= kw@);
    if pos + k == n {
        true
    } else {
        !is_ident_char_x(s.get_char(pos + k))
    }
}

fn scan_ident_x(s: &str, pos: usize, n: usize) -> (r: Option<(String, usize)>)
    requires
        pos <= n,
        n == s@.len(),
    ensures
        match r {
            Some((t, p)) => scan_ident(s@, pos as int) == Some((t@, p as int)) && pos < p <= n,
            None => scan_ident(s@, pos as int) is None,
        },
{
    if pos < n && is_ident_start_x(s.get_char(pos)) {
        let e = ident_end_x(s, pos, n);
        assert(ident_end(s@, pos as int) == ident_end(s@, pos + 1));
        proof {
            lemma_ident_end_bounds(s@, pos + 1);
        }
        let t = s.substring_char(pos, e).to_owned();
        Some((t, e))
    } else {
        None
    }
}

fn scan_string_x(s: &str, pos: usize, n: usize) -> (r: Option<(String, usize)>)
    requires
        pos <= n,
        n == s@.len(),
    ensures
        match r {
            Some((t, p)) => scan_string(s@, pos as int) == Some((t@, p as int)) && pos < p <= n,
            None => scan_string(s@, pos as int) is None,
        },
{
    if pos < n && s.get_char(pos) == '"' {
        match find_quote_x(s, pos + 1, n) {
            Some(q) => {
                let t = s.substring_char(pos + 1, q).to_owned();
                Some((t, q + 1))
            },
            None => None,
        }
    } else {
        None
    }
}

fn scan_arrow_x(s: &str, pos: usize, n: usize) -> (r: Option<usize>)
    requires
        pos <= n,
        n == s@.len(),
    ensures
        match r {
            Some(p) => scan_arrow(s@, pos as int) == Some(p as int) && pos < p <= n,
            None => scan_arrow(s@, pos as int) is None,
        },
{
    if pos < n {
        let d = dash_end_x(s, pos, n);
        if d > pos && d < n && s.get_char(d) == '>' {
            Some(d + 1)
        } else {
            None
        }
    } else {
        None
    }
}

fn scan_color_x(s: &str, pos: usize, n: usize) -> (r: Option<(String, usize)>)
    requires
        pos <= n,
        n == s@.len(),
    ensures
        match r {
            Some((t, p)) => scan_color(s@, pos as int) == Some((t@, p as int)) && pos < p <= n,
            None => scan_color(s@, pos as int) is None,
        },
{
    if pos < n && s.get_char(pos) == '#' {
        let e = color_end_x(s, pos + 1, n);
        if e > pos + 1 {
            let t = s.substring_char(pos, e).to_owned();
            Some((t, e))
        } else {
            None
        }
    } else {
        None
    }
}

fn parse_directive_x(s: &str, pos: usize, n: usize) -> (r: Option<(Directive, usize)>)
    requires
        pos <= n,
        n == s@.len(),
    ensures
        match r {
            Some((d, p)) => parse_directive(s@, pos as int) == Some((d.deep(), p as int)) && pos
                < p <= n,
            None => parse_directive(s@, pos as int) is None,
        },
{
    if eq_kw_x(s, pos, n, "@startuml") {
        proof {
            reveal_strlit("@startuml");
        }
        let l = "@startuml".unicode_len();
        Some((Directive::StartUml, pos + l))
    } else if eq_kw_x(s, pos, n, "@enduml") {
        proof {
            reveal_strlit("@enduml");
        }
        let l = "@enduml".unicode_len();
        Some((Directive::EndUml, pos + l))
    } else if eq_kw_x(s, pos, n, "skinparam") {
        proof {
            reveal_strlit("skinparam");
        }
        let l = "skinparam".unicode_len();
        Some((Directive::SkinParam, pos + l))
    } else if eq_kw_x(s, pos, n, "style") {
        proof {
            reveal_strlit("style");
        }
        let l = "style".unicode_len();
        Some((Directive::Style, pos + l))
    } else if eq_kw_x(s, pos, n, "scale") {
        proof {
            reveal_strlit("scale");
        }
        let l = "scale".unicode_len();
        Some((Directive::Scale, pos + l))
    } else if eq_kw_x(s, pos, n, "hide") {
        proof {
            reveal_strlit("hide");
        }
        let l = "hide".unicode_len();
        Some((Directive::Hide, pos + l))
    } else {
        None
    }
}

fn parse_state_data_x(s: &str, pos: usize, n: usize) -> (r: Option<(StateData, usize)>)
    requires
        pos <= n,
        n == s@.len(),
    ensures
        match r {
            Some((d, p)) => parse_state_data(s@, pos as int) == Some((d.deep(), p as int)) && pos
                < p <= n,
            None => parse_state_data(s@, pos as int) is None,
        },
{
    match scan_ident_x(s, pos, n) {
        Some((name, p1)) => {
            let p2 = skip_trivia_x(s, p1, n);
            if p2 < n && s.get_char(p2) == ':' {
                let p3 = skip_trivia_x(s, p2 + 1, n);
                match scan_string_x(s, p3, n) {
                    Some((ty, p4)) => Some((StateData { name, data_type: ty }, p4)),
                    None => None,
                }
            } else {
                None
            }
        },
        None => None,
    }
}

fn parse_transition_x(s: &str, pos: usize, n: usize) -> (r: Option<(Transition, usize)>)
    requires
        pos <= n,
        n == s@.len(),
    ensures
        match r {
            Some((t, p)) => parse_transition(s@, pos as int) == Some((t.deep(), p as int)) && pos
                < p <= n,
            None => parse_transition(s@, pos as int) is None,
        },
{
    match scan_ident_x(s, pos, n) {
        Some((from, p1)) => {
            let p2 = skip_trivia_x(s, p1, n);
            match scan_arrow_x(s, p2, n) {
                Some(p3) => {
                    let p4 = skip_trivia_x(s, p3, n);
                    match scan_ident_x(s, p4, n) {
                        Some((to, p5)) => {
                            let p6 = skip_trivia_x(s, p5, n);
                            if p6 < n && s.get_char(p6) == ':' {
                                let pe = event_end_x(s, p6, n);
                                let w = first_non_ws_x(s, p6, pe, n);
                                let c = if w < pe && s.get_char(w) == ':' {
                                    w + 1
                                } else {
                                    w
                                };
                                let a = first_non_ws_x(s, c, pe, n);
                                let b = last_non_ws_x(s, a, pe, n);
                                assert(strip_event(s@, p6 as int, pe as int) == (
                                    a as int,
                                    b as int,
                                ));
                                let ev = s.substring_char(a, b).to_owned();
                                Some((
                                    Transition {
                                        from_state: from,
                                        to_state: to,
                                        event: Some(ev),
                                    },
                                    pe,
                                ))
                            } else {
                                Some((
                                    Transition { from_state: from, to_state: to, event: None },
                                    p5,
                                ))
                            }
                        },
                        None => None,
                    }
                },
                None => None,
            }
        },
        None => None,
    }
}

fn parse_state_note_x(s: &str, pos: usize, n: usize) -> (r: Option<(StateNote, usize)>)
    requires
        pos <= n,
        n == s@.len(),
    ensures
        match r {
            Some((o, p)) => parse_state_note(s@, pos as int) == Some((o.deep(), p as int)) && pos
                < p <= n,
            None => parse_state_note(s@, pos as int) is None,
        },
{
    if eq_kw_x(s, pos, n, "note") {
        proof {
            reveal_strlit("note");
        }
        let l = "note".unicode_len();
        let p1 = skip_trivia_x(s, pos + l, n);
        match scan_ident_x(s, p1, n) {
            Some((id, p2)) => {
                let p3 = skip_trivia_x(s, p2, n);
                if p3 < n && s.get_char(p3) == ':' {
                    let p4 = skip_trivia_x(s, p3 + 1, n);
                    match scan_string_x(s, p4, n) {
                        Some((content, p5)) => Some((
                            StateNote { identifier: id, content },
                            p5,
                        )),
                        None => None,
                    }
                } else {
                    None
                }
            },
            None => None,
        }
    } else {
        None
    }
}

fn parse_decl_tail_x(s: &str, pos: usize, n: usize, name: String, id: String) -> (r: (
    StateDeclaration,
    usize,
))
    requires
        pos <= n,
        n == s@.len(),
    ensures
        parse_decl_tail(s@, pos as int, name@, id@) == Some((r.0.deep(), r.1 as int)),
        pos <= r.1 <= n,
    decreases n - pos, 1int,
{
    let pa = skip_trivia_x(s, pos, n);
    let (attrs, p5): (Option<crate::ast::Attributes>, usize) = match scan_color_x(s, pa, n) {
        Some((c, pe)) => (
            Some(crate::ast::Attributes { color: c, line_style: None, text_style: None }),
            pe,
        ),
        None => (None, pos),
    };
    let pb = skip_trivia_x(s, p5, n);
    if pb < n && s.get_char(pb) == '{' {
        let (elems, pe2) = parse_elements_x(s, pb + 1, n);
        let pc = skip_trivia_x(s, pe2, n);
        if pc < n && s.get_char(pc) == '}' {
            (
                StateDeclaration {
                    name,
                    id,
                    attributes: attrs,
                    state_block: Some(StateBlock { elements: elems }),
                },
                pc + 1,
            )
        } else {
            (StateDeclaration { name, id, attributes: attrs, state_block: None }, p5)
        }
    } else {
        (StateDeclaration { name, id, attributes: attrs, state_block: None }, p5)
    }
}

fn parse_state_declaration_x(s: &str, pos: usize, n: usize) -> (r: Option<(
    StateDeclaration,
    usize,
)>)
    requires
        pos <= n,
        n == s@.len(),
    ensures
        match r {
            Some((d, p)) => parse_state_declaration(s@, pos as int) == Some((d.deep(), p as int))
                && pos < p <= n,
            None => parse_state_declaration(s@, pos as int) is None,
        },
    decreases n - pos, 2int,
{
    if eq_kw_x(s, pos, n, "state") {
        proof {
            reveal_strlit("state");
        }
        let l = "state".unicode_len();
        let p1 = skip_trivia_x(s, pos + l, n);
        if p1 < n && s.get_char(p1) == '"' {
            match scan_string_x(s, p1, n) {
                Some((name, p2)) => {
                    let p3 = skip_trivia_x(s, p2, n);
                    let mut as_id: Option<(String, usize)> = None;
                    if eq_kw_x(s, p3, n, "as") {
                        let l2 = "as".unicode_len();
                        let p3b = skip_trivia_x(s, p3 + l2, n);
                        as_id = scan_ident_x(s, p3b, n);
                    }
                    match as_id {
                        Some((id, p4)) => {
                            let (d, p) = parse_decl_tail_x(s, p4, n, name, id);
                            Some((d, p))
                        },
                        None => {
                            let display = name.clone();
                            let (d, p) = parse_decl_tail_x(s, p2, n, display, name);
                            Some((d, p))
                        },
                    }
                },
                None => None,
            }
        } else {
            match scan_ident_x(s, p1, n) {
                Some((id, p2)) => {
                    let (d, p) = parse_decl_tail_x(s, p2, n, String::new(), id);
                    Some((d, p))
                },
                None => None,
            }
        }
    } else {
        None
    }
}

fn parse_element_x(s: &str, pos: usize, n: usize) -> (r: Option<(Element, usize)>)
    requires
        pos <= n,
        n == s@.len(),
    ensures
        match r {
            Some((e, p)) => parse_element(s@, pos as int) == Some((e.deep(), p as int)) && pos < p
                <= n,
            None => parse_element(s@, pos as int) is None,
        },
    decreases n - pos, 3int,
{
    match parse_directive_x(s, pos, n) {
        Some((d, p)) => Some((Element::Directive(d), p)),
        None => match parse_state_data_x(s, pos, n) {
            Some((d, p)) => Some((Element::StateData(d), p)),
            None => match parse_state_declaration_x(s, pos, n) {
                Some((d, p)) => Some((Element::StateDeclaration(d), p)),
                None => match parse_transition_x(s, pos, n) {
                    Some((t, p)) => Some((Element::Transition(t), p)),
                    None => match parse_state_note_x(s, pos, n) {
                        Some((o, p)) => Some((Element::StateNote(o), p)),
                        None => None,
                    },
                },
            },
        },
    }
}

fn parse_elements_x(s: &str, pos: usize, n: usize) -> (r: (Vec<Element>, usize))
    requires
        pos <= n,
        n == s@.len(),
    ensures
        parse_elements(s@, pos as int) == (elems_deep(r.0@), r.1 as int),
        pos <= r.1 <= n,
    decreases n - pos, 4int,
{
    let p = skip_trivia_x(s, pos, n);
    match parse_element_x(s, p, n) {
        Some((e, p2)) => {
            let (mut rest, p3) = parse_elements_x(s, p2, n);
            proof {
                lemma_elems_deep_cons(e, rest@);
            }
            let ghost r0 = rest@;
            rest.insert(0, e);
            proof {
                assert(rest@ =~= seq![rest@[0]] + r0);
            }
            (rest, p3)
        },
        None => {
            let empty: Vec<Element> = Vec::new();
            assert(elems_deep(empty@) =~= Seq::<crate::ast::ElementV>::empty());
            (empty, pos)
        },
    }
}

fn line_col_x(s: &str, p: usize, n: usize) -> (r: (usize, usize))
    requires
        p < n,
        n == s@.len(),
    ensures
        r.0 as int == line_of(s@, p as int),
        r.1 as int == col_of(s@, p as int),
{
    let mut line: usize = 1;
    let mut col: usize = 1;
    let mut i: usize = 0;
    while i < p
        invariant
            0 <= i <= p,
            p < n == s@.len(),
            line as int == line_of(s@, i as int),
            col as int == col_of(s@, i as int),
            line <= i + 1,
            col <= i + 1,
        decreases p - i,
    {
        if s.get_char(i) == '\n' {
            line = line + 1;
            col = 1;
        } else {
            col = col + 1;
        }
        i = i + 1;
    }
    (line, col)
}

/// What the engine promises of its result: on `Ok` exactly the tree that the
/// grammar assigns to the input, on `Err` the grammar assigns none and the
/// error describes the position where parsing stopped.
pub open spec fn engine_result_ok(s: Seq<char>, r: Result<StateDiagram, SyntaxError>) -> bool {
    match r {
        Ok(d) => spec_parse_diagram(s) == Some(d.deep()),
        Err(e) => {
            &&& spec_parse_diagram(s) is None
            &&& e.position as int == spec_fail_pos(s)
            &&& e.line as int == line_of(s, spec_fail_pos(s))
            &&& e.column as int == col_of(s, spec_fail_pos(s))
            &&& e.expected@ == "an element or the end of the input"@
            &&& e.rule_stack@.len() == 2
            &&& e.rule_stack@[0]@ == "state_diagram"@
            &&& e.rule_stack@[1]@ == "element"@
        },
    }
}

/// The grammar-driven parsing engine: applies the whole grammar to a raw
/// input.  It holds no state; each call is a pure function of its input.
pub struct StateDiagramParser;

impl StateDiagramParser {
    /// Parses a complete diagram: the repetition of elements must consume
    /// the whole input up to trailing trivia, or the call fails with a
    /// [`SyntaxError`] at the first position the grammar cannot explain.
    pub fn parse(input: &str) -> (r: Result<StateDiagram, SyntaxError>)
        ensures
            engine_result_ok(input@, r),
    {
        let n = input.unicode_len();
        let (elems, p) = parse_elements_x(input, 0, n);
        let p2 = skip_trivia_x(input, p, n);
        if p2 == n {
            Ok(StateDiagram { elements: elems })
        } else {
            let (line, column) = line_col_x(input, p2, n);
            let mut rule_stack: Vec<String> = Vec::new();
            rule_stack.push("state_diagram".to_owned());
            rule_stack.push("element".to_owned());
            Err(SyntaxError {
                position: p2,
                line,
                column,
                expected: "an element or the end of the input".to_owned(),
                rule_stack,
            })
        }
    }
}

/// The public entry point: turns a diagram text into its tree, or reports
/// where and why the text stopped conforming to the grammar.  Performs no
/// input or output and keeps no state between calls.
pub fn parse_state_diagram(input: &str) -> (r: Result<StateDiagram, SyntaxError>)
    ensures
        engine_result_ok(input@, r),
{
    StateDiagramParser::parse(input)
}

} // verus!
