//! The grammar of the state-diagram notation, stated mathematically.
//!
//! The notation is a parsing expression grammar over characters: alternatives
//! are tried in a fixed order, the first match at a position wins, and a
//! failed alternative restores the position it started from.  The functions
//! here define, for every input and position, exactly which tree (if any) the
//! grammar assigns; the executable parser is proved to return that tree.
//!
//! Lexical conventions:
//! - whitespace and line comments (`//` or `'` to the end of the line) are
//!   skipped between tokens and significant inside quoted strings;
//! - an identifier is a letter or `_` followed by letters, digits or `_`;
//! - a quoted string runs from `"` to the next `"`, verbatim;
//! - a color literal is `#` followed by letters or digits (hex or a name);
//! - a transition arrow is one or more `-` followed by `>`; the arrow
//!   variants are interchangeable, the tree does not record which matched;
//! - an event clause starts at a `:` after a transition's target state and
//!   runs to the end of the line (or to a closing `}`, so that a transition
//!   can stand in a one-line state block).
//!
//! Structure, in the order the alternatives are tried:
//! - `state_diagram` is a repetition of `element` until the end of input;
//! - `element` is `directive` / `state_data` / `state_declaration` /
//!   `transition` / `state_note`;
//! - `directive` is one of the six fixed keywords `@startuml`, `@enduml`,
//!   `skinparam`, `style`, `scale`, `hide`;
//! - `state_data` is `identifier : "string"`;
//! - `state_declaration` is `state` then a quoted name with an optional
//!   `as identifier`, or a bare identifier; then an optional color and an
//!   optional braced `state_block` of elements;
//! - `transition` is `identifier arrow identifier` with the optional event;
//! - `state_note` is `note identifier : "string"`.
//!
//! The recursive rules test the positions they recurse from against the
//! window they were given, so that every recursion visibly shrinks the rest
//! of the input; the bounds and progress lemmas at the end of the module
//! show those tests always pass on matched input, so they exclude nothing.

use crate::ast::AttributesV;
use crate::ast::DirectiveV;
use crate::ast::ElementV;
use crate::ast::StateBlockV;
use crate::ast::StateDataV;
use crate::ast::StateDeclarationV;
use crate::ast::StateDiagramV;
use crate::ast::StateNoteV;
use crate::ast::TransitionV;
use vstd::prelude::*;

verus! {

/// Whitespace between tokens: space, tab, carriage return, line feed.
pub open spec fn is_ws(c: char) -> bool {
    c == ' ' || c == '\t' || c == '\r' || c == '\n'
}

/// First character of an identifier: a letter or an underscore.
pub open spec fn is_ident_start(c: char) -> bool {
    ('a' <= c && c <= 'z') || ('A' <= c && c <= 'Z') || c == '_'
}

/// Any later character of an identifier: a letter, a digit or an underscore.
pub open spec fn is_ident_char(c: char) -> bool {
    is_ident_start(c) || ('0' <= c && c <= '9')
}

/// A character of a color literal after the `#`: a letter or a digit.
pub open spec fn is_color_char(c: char) -> bool {
    ('a' <= c && c <= 'z') || ('A' <= c && c <= 'Z') || ('0' <= c && c <= '9')
}

/// A character that ends an event clause (exclusive).
pub open spec fn is_event_end(c: char) -> bool {
    c == '\n' || c == '\r' || c == '}'
}

/// The position of the next line feed at or after `pos`, or the end of the
/// input; a line comment runs up to here.
pub open spec fn line_end(s: Seq<char>, pos: int) -> int
    decreases s.len() - pos,
{
    if 0 <= pos < s.len() {
        if s[pos] == '\n' {
            pos
        } else {
            line_end(s, pos + 1)
        }
    } else {
        pos
    }
}

/// The position of the first meaningful character at or after `pos`:
/// whitespace and line comments (`//` or `'`) are skipped.
pub open spec fn skip_trivia(s: Seq<char>, pos: int) -> int
    decreases s.len() - pos,
{
    if 0 <= pos < s.len() {
        if is_ws(s[pos]) {
            skip_trivia(s, pos + 1)
        } else if s[pos] == '/' && pos + 1 < s.len() && s[pos + 1] == '/' {
            let e = line_end(s, pos + 2);
            if pos < e <= s.len() {
                skip_trivia(s, e)
            } else {
                e
            }
        } else if s[pos] == '\'' {
            let e = line_end(s, pos + 1);
            if pos < e <= s.len() {
                skip_trivia(s, e)
            } else {
                e
            }
        } else {
            pos
        }
    } else {
        pos
    }
}

/// The end of the identifier-character run starting at `pos`.
pub open spec fn ident_end(s: Seq<char>, pos: int) -> int
    decreases s.len() - pos,
{
    if 0 <= pos < s.len() && is_ident_char(s[pos]) {
        ident_end(s, pos + 1)
    } else {
        pos
    }
}

/// The end of the color-character run starting at `pos`.
pub open spec fn color_end(s: Seq<char>, pos: int) -> int
    decreases s.len() - pos,
{
    if 0 <= pos < s.len() && is_color_char(s[pos]) {
        color_end(s, pos + 1)
    } else {
        pos
    }
}

/// The end of the dash run starting at `pos`.
pub open spec fn dash_end(s: Seq<char>, pos: int) -> int
    decreases s.len() - pos,
{
    if 0 <= pos < s.len() && s[pos] == '-' {
        dash_end(s, pos + 1)
    } else {
        pos
    }
}

/// The position of the next `"` at or after `pos`, or -1 when the rest of
/// the input holds none (an unterminated string).
pub open spec fn find_quote(s: Seq<char>, pos: int) -> int
    decreases s.len() - pos,
{
    if 0 <= pos < s.len() {
        if s[pos] == '"' {
            pos
        } else {
            find_quote(s, pos + 1)
        }
    } else {
        -1
    }
}

/// The end of the event clause that starts at `pos`: the next line break or
/// `}` at or after `pos`, or the end of the input.
pub open spec fn event_end(s: Seq<char>, pos: int) -> int
    decreases s.len() - pos,
{
    if 0 <= pos < s.len() && !is_event_end(s[pos]) {
        event_end(s, pos + 1)
    } else {
        pos
    }
}

/// The first position in `[pos, to)` holding a non-whitespace character,
/// or `to` when there is none.
pub open spec fn first_non_ws(s: Seq<char>, pos: int, to: int) -> int
    decreases to - pos,
{
    if pos < to && 0 <= pos < s.len() && is_ws(s[pos]) {
        first_non_ws(s, pos + 1, to)
    } else {
        pos
    }
}

/// The position just after the last non-whitespace character in `[from, pos)`,
/// or `from` when there is none.
pub open spec fn last_non_ws(s: Seq<char>, from: int, pos: int) -> int
    decreases pos - from,
{
    if from < pos && 0 <= pos - 1 < s.len() && is_ws(s[pos - 1]) {
        last_non_ws(s, from, pos - 1)
    } else {
        pos
    }
}

/// True when the literal `kw` stands at `pos` and is not followed by a
/// further identifier character (so a keyword never swallows the head of a
/// longer word).
pub open spec fn match_kw(s: Seq<char>, pos: int, kw: Seq<char>) -> bool {
    &&& 0 <= pos
    &&& pos + kw.len() <= s.len()
    &&& s.subrange(pos, pos + kw.len()) == kw
    &&& (pos + kw.len() == s.len() || !is_ident_char(s[pos + kw.len()]))
}

/// The identifier starting exactly at `pos`, with the position after it.
pub open spec fn scan_ident(s: Seq<char>, pos: int) -> Option<(Seq<char>, int)> {
    if 0 <= pos < s.len() && is_ident_start(s[pos]) {
        let e = ident_end(s, pos);
        Some((s.subrange(pos, e), e))
    } else {
        None
    }
}

/// The quoted string starting exactly at `pos`: its verbatim content without
/// the quotes, and the position after the closing quote.  An unterminated
/// string matches nothing.
pub open spec fn scan_string(s: Seq<char>, pos: int) -> Option<(Seq<char>, int)> {
    if 0 <= pos < s.len() && s[pos] == '"' {
        let q = find_quote(s, pos + 1);
        if q >= 0 {
            Some((s.subrange(pos + 1, q), q + 1))
        } else {
            None
        }
    } else {
        None
    }
}

/// The arrow starting exactly at `pos`: one or more dashes then `>`.
/// Returns the position after the `>`.
pub open spec fn scan_arrow(s: Seq<char>, pos: int) -> Option<int> {
    if 0 <= pos < s.len() {
        let d = dash_end(s, pos);
        if d > pos && 0 <= d < s.len() && s[d] == '>' {
            Some(d + 1)
        } else {
            None
        }
    } else {
        None
    }
}

/// The color literal starting exactly at `pos`: `#` then at least one color
/// character.  The captured text keeps the `#`.
pub open spec fn scan_color(s: Seq<char>, pos: int) -> Option<(Seq<char>, int)> {
    if 0 <= pos < s.len() && s[pos] == '#' {
        let e = color_end(s, pos + 1);
        if e > pos + 1 {
            Some((s.subrange(pos, e), e))
        } else {
            None
        }
    } else {
        None
    }
}

/// The bounds of an event label inside the raw clause text `[from, to)`:
/// leading whitespace, then one introducing `:` if present, then further
/// whitespace are dropped from the front, and trailing whitespace from the
/// back.  The label is `s.subrange(a, b)` for the returned `(a, b)`.
pub open spec fn strip_event(s: Seq<char>, from: int, to: int) -> (int, int) {
    let w = first_non_ws(s, from, to);
    let c = if w < to && 0 <= w < s.len() && s[w] == ':' {
        w + 1
    } else {
        w
    };
    let a = first_non_ws(s, c, to);
    let b = last_non_ws(s, a, to);
    (a, b)
}

/// A directive element: one of the six fixed keywords.
pub open spec fn parse_directive(s: Seq<char>, pos: int) -> Option<(DirectiveV, int)> {
    if match_kw(s, pos, "@startuml"@) {
        Some((DirectiveV::StartUml, pos + "@startuml"@.len()))
    } else if match_kw(s, pos, "@enduml"@) {
        Some((DirectiveV::EndUml, pos + "@enduml"@.len()))
    } else if match_kw(s, pos, "skinparam"@) {
        Some((DirectiveV::SkinParam, pos + "skinparam"@.len()))
    } else if match_kw(s, pos, "style"@) {
        Some((DirectiveV::Style, pos + "style"@.len()))
    } else if match_kw(s, pos, "scale"@) {
        Some((DirectiveV::Scale, pos + "scale"@.len()))
    } else if match_kw(s, pos, "hide"@) {
        Some((DirectiveV::Hide, pos + "hide"@.len()))
    } else {
        None
    }
}

/// A state-data element: `identifier : "string"`, the string naming the type.
pub open spec fn parse_state_data(s: Seq<char>, pos: int) -> Option<(StateDataV, int)> {
    match scan_ident(s, pos) {
        Some((name, p1)) => {
            let p2 = skip_trivia(s, p1);
            if 0 <= p2 < s.len() && s[p2] == ':' {
                let p3 = skip_trivia(s, p2 + 1);
                match scan_string(s, p3) {
                    Some((ty, p4)) => Some((StateDataV { name, data_type: ty }, p4)),
                    None => None,
                }
            } else {
                None
            }
        },
        None => None,
    }
}

/// A transition element: `identifier arrow identifier`, then the optional
/// event clause.  The raw clause text starts at its `:` and runs to
/// [`event_end`]; the label stored in the tree is that text with the
/// introducing colon and the surrounding whitespace dropped ([`strip_event`]).
pub open spec fn parse_transition(s: Seq<char>, pos: int) -> Option<(TransitionV, int)> {
    match scan_ident(s, pos) {
        Some((from, p1)) => {
            let p2 = skip_trivia(s, p1);
            match scan_arrow(s, p2) {
                Some(p3) => {
                    let p4 = skip_trivia(s, p3);
                    match scan_ident(s, p4) {
                        Some((to, p5)) => {
                            let p6 = skip_trivia(s, p5);
                            if 0 <= p6 < s.len() && s[p6] == ':' {
                                let pe = event_end(s, p6);
                                let (a, b) = strip_event(s, p6, pe);
                                Some((
                                    TransitionV {
                                        from_state: from,
                                        to_state: to,
                                        event: Some(s.subrange(a, b)),
                                    },
                                    pe,
                                ))
                            } else {
                                Some((
                                    TransitionV { from_state: from, to_state: to, event: None },
                                    p5,
                                ))
                            }
                        },
                        None => None,
                    }
                },
                None => None,
            }
        },
        None => None,
    }
}

/// A note element: `note identifier : "string"`.
pub open spec fn parse_state_note(s: Seq<char>, pos: int) -> Option<(StateNoteV, int)> {
    if match_kw(s, pos, "note"@) {
        let p1 = skip_trivia(s, pos + "note"@.len());
        match scan_ident(s, p1) {
            Some((id, p2)) => {
                let p3 = skip_trivia(s, p2);
                if 0 <= p3 < s.len() && s[p3] == ':' {
                    let p4 = skip_trivia(s, p3 + 1);
                    match scan_string(s, p4) {
                        Some((content, p5)) => Some((
                            StateNoteV { identifier: id, content },
                            p5,
                        )),
                        None => None,
                    }
                } else {
                    None
                }
            },
            None => None,
        }
    } else {
        None
    }
}

/// The tail of a state declaration, after its name: an optional color
/// attribute, then an optional braced block of elements.  In keeping with
/// the ordered-choice semantics, a brace that is never closed makes the
/// optional block match empty, leaving the brace unconsumed.
pub open spec fn parse_decl_tail(
    s: Seq<char>,
    pos: int,
    name: Seq<char>,
    id: Seq<char>,
) -> Option<(StateDeclarationV, int)>
    decreases s.len() - pos, 1int,
{
    let pa = skip_trivia(s, pos);
    let (attrs, p5) = match scan_color(s, pa) {
        Some((c, pe)) => (
            Some(AttributesV { color: c, line_style: None, text_style: None }),
            pe,
        ),
        None => (None, pos),
    };
    let pb = skip_trivia(s, p5);
    if pos <= pb < s.len() && s[pb] == '{' {
        let (elems, pe2) = parse_elements(s, pb + 1);
        let pc = skip_trivia(s, pe2);
        if 0 <= pc < s.len() && s[pc] == '}' {
            Some((
                StateDeclarationV {
                    name,
                    id,
                    attributes: attrs,
                    state_block: Some(StateBlockV { elements: elems }),
                },
                pc + 1,
            ))
        } else {
            Some((StateDeclarationV { name, id, attributes: attrs, state_block: None }, p5))
        }
    } else {
        Some((StateDeclarationV { name, id, attributes: attrs, state_block: None }, p5))
    }
}

/// A state declaration: the keyword `state`, then a quoted display name
/// with an optional `as identifier`, or a bare identifier.  With a quoted
/// name and no explicit identifier the identifier falls back to the name;
/// with a bare identifier the display name is empty.
pub open spec fn parse_state_declaration(s: Seq<char>, pos: int) -> Option<
    (StateDeclarationV, int),
>
    decreases s.len() - pos, 2int,
{
    if match_kw(s, pos, "state"@) {
        let p1 = skip_trivia(s, pos + "state"@.len());
        if 0 <= p1 < s.len() && s[p1] == '"' {
            match scan_string(s, p1) {
                Some((name, p2)) => {
                    let p3 = skip_trivia(s, p2);
                    let as_id = if match_kw(s, p3, "as"@) {
                        scan_ident(s, skip_trivia(s, p3 + "as"@.len()))
                    } else {
                        None
                    };
                    match as_id {
                        Some((id, p4)) => if pos <= p4 <= s.len() {
                            parse_decl_tail(s, p4, name, id)
                        } else {
                            None
                        },
                        None => if pos <= p2 <= s.len() {
                            parse_decl_tail(s, p2, name, name)
                        } else {
                            None
                        },
                    }
                },
                None => None,
            }
        } else {
            match scan_ident(s, p1) {
                Some((id, p2)) => if pos <= p2 <= s.len() {
                    parse_decl_tail(s, p2, Seq::empty(), id)
                } else {
                    None
                },
                None => None,
            }
        }
    } else {
        None
    }
}

/// One element, by ordered choice: directive, state data, state
/// declaration, transition, note.  The first alternative that matches at
/// `pos` wins.
pub open spec fn parse_element(s: Seq<char>, pos: int) -> Option<(ElementV, int)>
    decreases s.len() - pos, 3int,
{
    if !(0 <= pos <= s.len()) {
        None
    } else {
        match parse_directive(s, pos) {
            Some((d, p)) => Some((ElementV::Directive(d), p)),
            None => match parse_state_data(s, pos) {
                Some((d, p)) => Some((ElementV::StateData(d), p)),
                None => match parse_state_declaration(s, pos) {
                    Some((d, p)) => Some((ElementV::StateDeclaration(d), p)),
                    None => match parse_transition(s, pos) {
                        Some((t, p)) => Some((ElementV::Transition(t), p)),
                        None => match parse_state_note(s, pos) {
                            Some((n, p)) => Some((ElementV::StateNote(n), p)),
                            None => None,
                        },
                    },
                },
            },
        }
    }
}

/// A greedy repetition of elements starting at `pos`: parses elements,
/// each after skipping trivia, until one fails to match, and returns the
/// trees in source order with the position after the last element (or
/// `pos` itself when none matched).
pub open spec fn parse_elements(s: Seq<char>, pos: int) -> (Seq<ElementV>, int)
    decreases s.len() - pos, 4int,
{
    let p = skip_trivia(s, pos);
    if pos <= p <= s.len() {
        match parse_element(s, p) {
            Some((e, p2)) => if p < p2 <= s.len() {
                let (rest, p3) = parse_elements(s, p2);
                (seq![e] + rest, p3)
            } else {
                (seq![e], p2)
            },
            None => (Seq::empty(), pos),
        }
    } else {
        (Seq::empty(), pos)
    }
}

/// The whole grammar: the tree of a full input, if the repetition of
/// elements, followed by trailing trivia, consumes every character; `None`
/// otherwise.  This function is the parser's sole arbiter: the executable
/// engine returns exactly this tree or, when there is none, an error at
/// [`spec_fail_pos`].
pub open spec fn spec_parse_diagram(s: Seq<char>) -> Option<StateDiagramV> {
    let (elems, p) = parse_elements(s, 0);
    if skip_trivia(s, p) == s.len() {
        Some(StateDiagramV { elements: elems })
    } else {
        None
    }
}

/// Where parsing stopped on an input the grammar rejects: the first
/// meaningful position after the last element that did match.
pub open spec fn spec_fail_pos(s: Seq<char>) -> int {
    skip_trivia(s, parse_elements(s, 0).1)
}

/// The 1-based line number of the character position `pos`.
pub open spec fn line_of(s: Seq<char>, pos: int) -> int
    decreases pos,
{
    if pos <= 0 {
        1
    } else {
        line_of(s, pos - 1) + (if 0 <= pos - 1 < s.len() && s[pos - 1] == '\n' {
            1int
        } else {
            0int
        })
    }
}

/// The 1-based column of the character position `pos` within its line.
pub open spec fn col_of(s: Seq<char>, pos: int) -> int
    decreases pos,
{
    if pos <= 0 {
        1
    } else if 0 <= pos - 1 < s.len() && s[pos - 1] == '\n' {
        1
    } else {
        col_of(s, pos - 1) + 1
    }
}

/// [`line_end`] stays within the input.
pub broadcast proof fn lemma_line_end_bounds(s: Seq<char>, pos: int)
    requires
        0 <= pos <= s.len(),
    ensures
        pos <= #[trigger] line_end(s, pos) <= s.len(),
    decreases s.len() - pos,
{
    if 0 <= pos < s.len() && s[pos] != '\n' {
        lemma_line_end_bounds(s, pos + 1);
    }
}

/// [`skip_trivia`] stays within the input.
pub broadcast proof fn lemma_skip_trivia_bounds(s: Seq<char>, pos: int)
    requires
        0 <= pos <= s.len(),
    ensures
        pos <= #[trigger] skip_trivia(s, pos) <= s.len(),
    decreases s.len() - pos,
{
    if 0 <= pos < s.len() {
        if is_ws(s[pos]) {
            lemma_skip_trivia_bounds(s, pos + 1);
        } else if s[pos] == '/' && pos + 1 < s.len() && s[pos + 1] == '/' {
            lemma_line_end_bounds(s, pos + 2);
            let e = line_end(s, pos + 2);
            lemma_skip_trivia_bounds(s, e);
        } else if s[pos] == '\'' {
            lemma_line_end_bounds(s, pos + 1);
            let e = line_end(s, pos + 1);
            lemma_skip_trivia_bounds(s, e);
        }
    }
}

/// [`ident_end`] stays within the input.
pub broadcast proof fn lemma_ident_end_bounds(s: Seq<char>, pos: int)
    requires
        0 <= pos <= s.len(),
    ensures
        pos <= #[trigger] ident_end(s, pos) <= s.len(),
    decreases s.len() - pos,
{
    if 0 <= pos < s.len() && is_ident_char(s[pos]) {
        lemma_ident_end_bounds(s, pos + 1);
    }
}

/// [`color_end`] stays within the input.
pub broadcast proof fn lemma_color_end_bounds(s: Seq<char>, pos: int)
    requires
        0 <= pos <= s.len(),
    ensures
        pos <= #[trigger] color_end(s, pos) <= s.len(),
    decreases s.len() - pos,
{
    if 0 <= pos < s.len() && is_color_char(s[pos]) {
        lemma_color_end_bounds(s, pos + 1);
    }
}

/// [`dash_end`] stays within the input.
pub broadcast proof fn lemma_dash_end_bounds(s: Seq<char>, pos: int)
    requires
        0 <= pos <= s.len(),
    ensures
        pos <= #[trigger] dash_end(s, pos) <= s.len(),
    decreases s.len() - pos,
{
    if 0 <= pos < s.len() && s[pos] == '-' {
        lemma_dash_end_bounds(s, pos + 1);
    }
}

/// [`event_end`] stays within the input.
pub broadcast proof fn lemma_event_end_bounds(s: Seq<char>, pos: int)
    requires
        0 <= pos <= s.len(),
    ensures
        pos <= #[trigger] event_end(s, pos) <= s.len(),
    decreases s.len() - pos,
{
    if 0 <= pos < s.len() && !is_event_end(s[pos]) {
        lemma_event_end_bounds(s, pos + 1);
    }
}

/// [`find_quote`] returns -1 or the position of a quote within the input.
pub broadcast proof fn lemma_find_quote_bounds(s: Seq<char>, pos: int)
    requires
        0 <= pos <= s.len(),
    ensures
        #[trigger] find_quote(s, pos) == -1 || (pos <= find_quote(s, pos) < s.len()
            && s[find_quote(s, pos)] == '"'),
    decreases s.len() - pos,
{
    if 0 <= pos < s.len() && s[pos] != '"' {
        lemma_find_quote_bounds(s, pos + 1);
    }
}

/// [`first_non_ws`] stays within its window.
pub broadcast proof fn lemma_first_non_ws_bounds(s: Seq<char>, pos: int, to: int)
    requires
        0 <= pos <= to <= s.len(),
    ensures
        pos <= #[trigger] first_non_ws(s, pos, to) <= to,
    decreases to - pos,
{
    if pos < to && 0 <= pos < s.len() && is_ws(s[pos]) {
        lemma_first_non_ws_bounds(s, pos + 1, to);
    }
}

/// [`last_non_ws`] stays within its window.
pub broadcast proof fn lemma_last_non_ws_bounds(s: Seq<char>, from: int, pos: int)
    requires
        0 <= from <= pos <= s.len(),
    ensures
        from <= #[trigger] last_non_ws(s, from, pos) <= pos,
    decreases pos - from,
{
    if from < pos && 0 <= pos - 1 < s.len() && is_ws(s[pos - 1]) {
        lemma_last_non_ws_bounds(s, from, pos - 1);
    }
}

/// A matched state declaration consumes at least one character and ends
/// within the input.
pub proof fn lemma_decl_tail_bounds(s: Seq<char>, pos: int, name: Seq<char>, id: Seq<char>)
    requires
        0 <= pos <= s.len(),
    ensures
        parse_decl_tail(s, pos, name, id) matches Some((d, p2)) ==> pos <= p2 <= s.len(),
    decreases s.len() - pos, 1int,
{
    broadcast use lemma_skip_trivia_bounds, lemma_color_end_bounds;

    let pa = skip_trivia(s, pos);
    let p5 = match scan_color(s, pa) {
        Some((c, pe)) => pe,
        None => pos,
    };
    let pb = skip_trivia(s, p5);
    if pos <= pb < s.len() && s[pb] == '{' {
        lemma_parse_elements_bounds(s, pb + 1);
        let (elems, pe2) = parse_elements(s, pb + 1);
        lemma_skip_trivia_bounds(s, pe2);
    }
}

/// A matched state declaration moves the position strictly forward.
pub proof fn lemma_parse_state_declaration_progress(s: Seq<char>, pos: int)
    requires
        0 <= pos <= s.len(),
    ensures
        parse_state_declaration(s, pos) matches Some((d, p2)) ==> pos < p2 <= s.len(),
    decreases s.len() - pos, 2int,
{
    broadcast use lemma_skip_trivia_bounds, lemma_ident_end_bounds, lemma_find_quote_bounds;

    reveal_strlit("state");
    reveal_strlit("as");
    if match_kw(s, pos, "state"@) {
        let p1 = skip_trivia(s, pos + "state"@.len());
        if 0 <= p1 < s.len() && s[p1] == '"' {
            match scan_string(s, p1) {
                Some((name, p2)) => {
                    let p3 = skip_trivia(s, p2);
                    let as_id = if match_kw(s, p3, "as"@) {
                        scan_ident(s, skip_trivia(s, p3 + "as"@.len()))
                    } else {
                        None
                    };
                    match as_id {
                        Some((id, p4)) => if pos <= p4 <= s.len() {
                            lemma_decl_tail_bounds(s, p4, name, id);
                        },
                        None => if pos <= p2 <= s.len() {
                            lemma_decl_tail_bounds(s, p2, name, name);
                        },
                    }
                },
                None => {},
            }
        } else {
            match scan_ident(s, p1) {
                Some((id, p2)) => if pos <= p2 <= s.len() {
                    lemma_decl_tail_bounds(s, p2, Seq::empty(), id);
                },
                None => {},
            }
        }
    }
}

/// A matched element moves the position strictly forward.
pub proof fn lemma_parse_element_progress(s: Seq<char>, pos: int)
    requires
        0 <= pos <= s.len(),
    ensures
        parse_element(s, pos) matches Some((e, p2)) ==> pos < p2 <= s.len(),
    decreases s.len() - pos, 3int,
{
    broadcast use lemma_skip_trivia_bounds, lemma_ident_end_bounds, lemma_find_quote_bounds,
        lemma_dash_end_bounds, lemma_event_end_bounds;

    reveal_strlit("@startuml");
    reveal_strlit("@enduml");
    reveal_strlit("skinparam");
    reveal_strlit("style");
    reveal_strlit("scale");
    reveal_strlit("hide");
    reveal_strlit("note");
    lemma_parse_state_declaration_progress(s, pos);
}

/// The element repetition never moves the position backwards and stays
/// within the input.
pub proof fn lemma_parse_elements_bounds(s: Seq<char>, pos: int)
    requires
        0 <= pos <= s.len(),
    ensures
        pos <= parse_elements(s, pos).1 <= s.len(),
    decreases s.len() - pos, 4int,
{
    broadcast use lemma_skip_trivia_bounds;

    let p = skip_trivia(s, pos);
    if pos <= p <= s.len() {
        lemma_parse_element_progress(s, p);
        match parse_element(s, p) {
            Some((e, p2)) => {
                if p < p2 <= s.len() {
                    lemma_parse_elements_bounds(s, p2);
                }
            },
            None => {},
        }
    }
}

} // verus!
