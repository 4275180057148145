//! Laws the grammar obeys, stated and proved once and for all inputs.
//!
//! The executable engine returns exactly what [`crate::grammar`] assigns, so
//! every law proved here about the grammar holds of the engine's results.

use crate::ast::elem_depth;
use crate::ast::elems_depth;
use crate::ast::lemma_elem_depth_nonneg;
use crate::ast::lemma_elems_depth_nonneg;
use crate::ast::ElementV;
use crate::grammar::color_end;
use crate::grammar::dash_end;
use crate::grammar::event_end;
use crate::grammar::ident_end;
use crate::grammar::is_color_char;
use crate::grammar::is_ident_char;
use crate::grammar::lemma_color_end_bounds;
use crate::grammar::lemma_dash_end_bounds;
use crate::grammar::lemma_ident_end_bounds;
use crate::grammar::lemma_parse_element_progress;
use crate::grammar::lemma_parse_elements_bounds;
use crate::grammar::parse_decl_tail;
use crate::grammar::parse_directive;
use crate::grammar::parse_element;
use crate::grammar::parse_elements;
use crate::grammar::parse_state_data;
use crate::grammar::parse_state_note;
use crate::grammar::scan_color;
use crate::grammar::first_non_ws;
use crate::grammar::is_ws;
use crate::grammar::last_non_ws;
use crate::grammar::lemma_event_end_bounds;
use crate::grammar::lemma_first_non_ws_bounds;
use crate::grammar::lemma_last_non_ws_bounds;
use crate::grammar::lemma_skip_trivia_bounds;
use crate::grammar::match_kw;
use crate::grammar::parse_state_declaration;
use crate::grammar::parse_transition;
use crate::grammar::scan_arrow;
use crate::grammar::scan_ident;
use crate::grammar::scan_string;
use crate::grammar::skip_trivia;
use crate::grammar::spec_parse_diagram;
use vstd::prelude::*;

verus! {

/// Parsing is deterministic: the grammar is a function of the input text
/// alone, so identical texts are assigned identical trees (or identical
/// failures), and repeated calls of the engine return structurally equal
/// results.
pub proof fn lemma_parse_deterministic(s1: Seq<char>, s2: Seq<char>)
    requires
        s1 == s2,
    ensures
        spec_parse_diagram(s1) == spec_parse_diagram(s2),
{
}

/// The tail of a declaration keeps the name and identifier it was given.
proof fn lemma_decl_tail_fields(s: Seq<char>, pos: int, name: Seq<char>, id: Seq<char>)
    ensures
        parse_decl_tail(s, pos, name, id) matches Some((d, p)) ==> d.name == name && d.id == id,
{
}

/// The grammar matched a quoted display name after `state` and no `as
/// identifier` clause followed it.
pub open spec fn quoted_name_without_id(s: Seq<char>, pos: int) -> bool {
    &&& match_kw(s, pos, "state"@)
    &&& ({
        let p1 = skip_trivia(s, pos + "state"@.len());
        &&& 0 <= p1 < s.len()
        &&& s[p1] == '"'
        &&& match scan_string(s, p1) {
            Some((name, p2)) => ({
                let p3 = skip_trivia(s, p2);
                !match_kw(s, p3, "as"@) || scan_ident(
                    s,
                    skip_trivia(s, p3 + "as"@.len()),
                ) is None
            }),
            None => true,
        }
    })
}

/// A state declaration whose match supplied only a quoted display name and
/// no explicit identifier falls back to that name: its `id` equals its
/// `name`.
pub proof fn lemma_quoted_name_id_fallback(s: Seq<char>, pos: int)
    requires
        quoted_name_without_id(s, pos),
    ensures
        parse_state_declaration(s, pos) matches Some((d, p)) ==> d.id == d.name,
{
    let p1 = skip_trivia(s, pos + "state"@.len());
    match scan_string(s, p1) {
        Some((name, p2)) => {
            if pos <= p2 <= s.len() {
                lemma_decl_tail_fields(s, p2, name, name);
            }
        },
        None => {},
    }
}

/// Where the event clause of the transition at `pos` would start: the
/// position of the `:` after the target state, when the transition and the
/// clause both match.
pub open spec fn event_clause_start(s: Seq<char>, pos: int) -> Option<int> {
    match scan_ident(s, pos) {
        Some((from, p1)) => match scan_arrow(s, skip_trivia(s, p1)) {
            Some(p3) => match scan_ident(s, skip_trivia(s, p3)) {
                Some((to, p5)) => {
                    let p6 = skip_trivia(s, p5);
                    if 0 <= p6 < s.len() && s[p6] == ':' {
                        Some(p6)
                    } else {
                        None
                    }
                },
                None => None,
            },
            None => None,
        },
        None => None,
    }
}

/// A transition's event is present exactly when the optional event clause
/// matched in the grammar: a `:` follows the target state.
pub proof fn lemma_event_iff_clause(s: Seq<char>, pos: int)
    ensures
        parse_transition(s, pos) matches Some((t, p)) ==> (t.event is Some <==> event_clause_start(
            s,
            pos,
        ) is Some),
{
}

/// [`first_non_ws`] lands on a non-whitespace character or on the window's
/// end.
proof fn lemma_first_non_ws_not_ws(s: Seq<char>, pos: int, to: int)
    requires
        0 <= pos <= to <= s.len(),
    ensures
        first_non_ws(s, pos, to) < to ==> !is_ws(s[first_non_ws(s, pos, to)]),
    decreases to - pos,
{
    if pos < to && 0 <= pos < s.len() && is_ws(s[pos]) {
        lemma_first_non_ws_not_ws(s, pos + 1, to);
    }
}

/// [`last_non_ws`] ends just after a non-whitespace character or at the
/// window's start.
proof fn lemma_last_non_ws_not_ws(s: Seq<char>, from: int, pos: int)
    requires
        0 <= from <= pos <= s.len(),
    ensures
        last_non_ws(s, from, pos) > from ==> !is_ws(s[last_non_ws(s, from, pos) - 1]),
    decreases pos - from,
{
    if from < pos && 0 <= pos - 1 < s.len() && is_ws(s[pos - 1]) {
        lemma_last_non_ws_not_ws(s, from, pos - 1);
    }
}

/// The raw event clause at `pos`, after its introducing colon and any
/// whitespace, begins with a second colon.  Such a clause is the one case
/// in which a stored event label can itself begin with `:`.
pub open spec fn event_double_colon(s: Seq<char>, pos: int) -> bool {
    match event_clause_start(s, pos) {
        Some(p6) => ({
            let pe = event_end(s, p6);
            let a = first_non_ws(s, p6 + 1, pe);
            a < pe && 0 <= a < s.len() && s[a] == ':'
        }),
        None => false,
    }
}

/// A present event label is trimmed: it never begins or ends with
/// whitespace, and — except for a clause whose text begins with a second
/// colon, which the `requires` leaves out — it never begins with `:`.
pub proof fn lemma_event_label_trimmed(s: Seq<char>, pos: int)
    requires
        0 <= pos <= s.len(),
        !event_double_colon(s, pos),
    ensures
        parse_transition(s, pos) matches Some((t, q)) ==> match t.event {
            Some(ev) => ev.len() > 0 ==> !is_ws(ev[0]) && !is_ws(ev[ev.len() - 1]) && ev[0] != ':',
            None => true,
        },
{
    broadcast use lemma_skip_trivia_bounds, lemma_event_end_bounds, lemma_first_non_ws_bounds,
        lemma_last_non_ws_bounds;

    match event_clause_start(s, pos) {
        Some(p6) => {
            let pe = event_end(s, p6);
            assert(event_end(s, p6) == event_end(s, p6 + 1));
            lemma_event_end_bounds(s, p6 + 1);
            let w = first_non_ws(s, p6, pe);
            assert(w == p6);
            let a = first_non_ws(s, p6 + 1, pe);
            let b = last_non_ws(s, a, pe);
            lemma_first_non_ws_not_ws(s, p6 + 1, pe);
            lemma_last_non_ws_not_ws(s, a, pe);
        },
        None => {},
    }
}

/// Malformed input yields an error and never a partial tree: a result that
/// meets the engine's contract is `Err` exactly when the grammar assigns
/// the input no tree, and an `Err` carries no tree at all.
pub proof fn lemma_malformed_yields_error(s: Seq<char>, r: Result<
    crate::ast::StateDiagram,
    crate::parser::SyntaxError,
>)
    requires
        crate::parser::engine_result_ok(s, r),
    ensures
        r is Err <==> spec_parse_diagram(s) is None,
{
}

/// How one character changes the brace-nesting level.
pub open spec fn brace_delta(c: char) -> int {
    if c == '{' {
        1
    } else if c == '}' {
        -1
    } else {
        0
    }
}

/// The net brace-nesting change over `[a, b)`.
pub open spec fn brace_net(s: Seq<char>, a: int, b: int) -> int
    decreases b - a,
{
    if a >= b {
        0
    } else {
        brace_delta(s[a]) + brace_net(s, a + 1, b)
    }
}

/// The brace-nesting depth of `[a, b)`: the highest level, relative to the
/// level at `a`, that the scan of the window reaches.
pub open spec fn brace_depth(s: Seq<char>, a: int, b: int) -> int
    decreases b - a,
{
    if a >= b {
        0
    } else {
        vstd::math::max(0, brace_delta(s[a]) + brace_depth(s, a + 1, b))
    }
}

/// A window's brace-nesting depth is never negative.
proof fn lemma_brace_depth_nonneg(s: Seq<char>, a: int, b: int)
    ensures
        brace_depth(s, a, b) >= 0,
    decreases b - a,
{
    if a < b {
        lemma_brace_depth_nonneg(s, a + 1, b);
    }
}

/// Net change and depth of a window, split at a midpoint.
proof fn lemma_brace_split(s: Seq<char>, a: int, m: int, b: int)
    requires
        a <= m <= b,
    ensures
        brace_net(s, a, b) == brace_net(s, a, m) + brace_net(s, m, b),
        brace_depth(s, a, b) == vstd::math::max(
            brace_depth(s, a, m),
            brace_net(s, a, m) + brace_depth(s, m, b),
        ),
    decreases m - a,
{
    if a == m {
        lemma_brace_depth_nonneg(s, a, b);
    } else {
        lemma_brace_split(s, a + 1, m, b);
    }
}

/// The window `[a, b)` holds no brace at all.
pub open spec fn no_brace(s: Seq<char>, a: int, b: int) -> bool {
    forall|i: int| a <= i < b ==> s[i] != '{' && s[i] != '}'
}

/// A braceless window changes nothing and reaches no depth.
proof fn lemma_no_brace_zero(s: Seq<char>, a: int, b: int)
    requires
        no_brace(s, a, b),
    ensures
        brace_net(s, a, b) == 0,
        brace_depth(s, a, b) == 0,
    decreases b - a,
{
    if a < b {
        lemma_no_brace_zero(s, a + 1, b);
    }
}

/// Counting braces in a window is counting them in the window's copy.
proof fn lemma_brace_transport(s: Seq<char>, a: int, b: int)
    requires
        0 <= a <= b <= s.len(),
    ensures
        brace_net(s, a, b) == brace_net(s.subrange(a, b), 0, b - a),
        brace_depth(s, a, b) == brace_depth(s.subrange(a, b), 0, b - a),
    decreases b - a,
{
    if a < b {
        let t = s.subrange(a, b);
        lemma_brace_transport(s, a + 1, b);
        assert(t[0] == s[a]);
        lemma_brace_transport(t, 1, b - a);
        assert(t.subrange(1, b - a) =~= s.subrange(a + 1, b));
    }
}

/// Every brace in the input is structural: the text holds no quoted string,
/// no event clause and no comment, the only constructs whose raw text could
/// carry a brace that opens or closes nothing.
pub open spec fn braces_structural(s: Seq<char>) -> bool {
    forall|i: int|
        0 <= i < s.len() ==> s[i] != '"' && s[i] != ':' && s[i] != '/' && s[i] != '\''
}

/// Trivia never holds a brace: in an input without comments everything it
/// skips is whitespace.
proof fn lemma_trivia_no_brace(s: Seq<char>, pos: int)
    requires
        braces_structural(s),
        0 <= pos <= s.len(),
    ensures
        no_brace(s, pos, skip_trivia(s, pos)),
    decreases s.len() - pos,
{
    if 0 <= pos < s.len() && is_ws(s[pos]) {
        lemma_trivia_no_brace(s, pos + 1);
    }
}

/// An identifier run never holds a brace.
proof fn lemma_ident_run_no_brace(s: Seq<char>, pos: int)
    ensures
        no_brace(s, pos, ident_end(s, pos)),
    decreases s.len() - pos,
{
    if 0 <= pos < s.len() && is_ident_char(s[pos]) {
        lemma_ident_run_no_brace(s, pos + 1);
    }
}

/// A dash run never holds a brace.
proof fn lemma_dash_run_no_brace(s: Seq<char>, pos: int)
    ensures
        no_brace(s, pos, dash_end(s, pos)),
    decreases s.len() - pos,
{
    if 0 <= pos < s.len() && s[pos] == '-' {
        lemma_dash_run_no_brace(s, pos + 1);
    }
}

/// A color-character run never holds a brace.
proof fn lemma_color_run_no_brace(s: Seq<char>, pos: int)
    ensures
        no_brace(s, pos, color_end(s, pos)),
    decreases s.len() - pos,
{
    if 0 <= pos < s.len() && is_color_char(s[pos]) {
        lemma_color_run_no_brace(s, pos + 1);
    }
}

/// A matched directive keyword holds no brace: its window counts zero.
proof fn lemma_directive_segment(s: Seq<char>, pos: int)
    requires
        0 <= pos <= s.len(),
    ensures
        parse_directive(s, pos) matches Some((d, p2)) ==> pos <= p2 <= s.len() && brace_net(
            s,
            pos,
            p2,
        ) == 0 && brace_depth(s, pos, p2) == 0,
{
    reveal_with_fuel(brace_net, 11);
    reveal_with_fuel(brace_depth, 11);
    reveal_strlit("@startuml");
    reveal_strlit("@enduml");
    reveal_strlit("skinparam");
    reveal_strlit("style");
    reveal_strlit("scale");
    reveal_strlit("hide");
    if match_kw(s, pos, "@startuml"@) {
        lemma_brace_transport(s, pos, pos + 9);
        assert(brace_net("@startuml"@, 0, 9) == 0);
        assert(brace_depth("@startuml"@, 0, 9) == 0);
    } else if match_kw(s, pos, "@enduml"@) {
        lemma_brace_transport(s, pos, pos + 7);
        assert(brace_net("@enduml"@, 0, 7) == 0);
        assert(brace_depth("@enduml"@, 0, 7) == 0);
    } else if match_kw(s, pos, "skinparam"@) {
        lemma_brace_transport(s, pos, pos + 9);
        assert(brace_net("skinparam"@, 0, 9) == 0);
        assert(brace_depth("skinparam"@, 0, 9) == 0);
    } else if match_kw(s, pos, "style"@) {
        lemma_brace_transport(s, pos, pos + 5);
        assert(brace_net("style"@, 0, 5) == 0);
        assert(brace_depth("style"@, 0, 5) == 0);
    } else if match_kw(s, pos, "scale"@) {
        lemma_brace_transport(s, pos, pos + 5);
        assert(brace_net("scale"@, 0, 5) == 0);
        assert(brace_depth("scale"@, 0, 5) == 0);
    } else if match_kw(s, pos, "hide"@) {
        lemma_brace_transport(s, pos, pos + 4);
        assert(brace_net("hide"@, 0, 4) == 0);
        assert(brace_depth("hide"@, 0, 4) == 0);
    }
}

/// The declaration tail's window counts exactly the braces of its block:
/// its depth is the declaration's nesting depth.
proof fn lemma_tail_depth(s: Seq<char>, pos: int, name: Seq<char>, id: Seq<char>)
    requires
        braces_structural(s),
        0 <= pos <= s.len(),
    ensures
        parse_decl_tail(s, pos, name, id) matches Some((d, p2)) ==> pos <= p2 <= s.len()
            && brace_net(s, pos, p2) == 0 && brace_depth(s, pos, p2) == elem_depth(
            ElementV::StateDeclaration(d),
        ),
    decreases s.len() - pos, 1int,
{
    broadcast use lemma_skip_trivia_bounds, lemma_color_end_bounds;

    lemma_trivia_no_brace(s, pos);
    let pa = skip_trivia(s, pos);
    let p5 = match scan_color(s, pa) {
        Some((c, pe)) => pe,
        None => pos,
    };
    match scan_color(s, pa) {
        Some((c, pe)) => {
            lemma_color_run_no_brace(s, pa + 1);
        },
        None => {},
    }
    let pb = skip_trivia(s, p5);
    lemma_trivia_no_brace(s, p5);
    if pos <= pb < s.len() && s[pb] == '{' {
        lemma_parse_elements_bounds(s, pb + 1);
        lemma_elems_brace(s, pb + 1);
        let (elems, pe2) = parse_elements(s, pb + 1);
        let pc = skip_trivia(s, pe2);
        lemma_trivia_no_brace(s, pe2);
        lemma_elems_depth_nonneg(elems);
        if 0 <= pc < s.len() && s[pc] == '}' {
            lemma_no_brace_zero(s, pos, pb);
            assert(brace_net(s, pc + 1, pc + 1) == 0);
            assert(brace_depth(s, pc + 1, pc + 1) == 0);
            assert(brace_net(s, pc, pc + 1) == -1);
            assert(brace_depth(s, pc, pc + 1) == 0);
            lemma_no_brace_zero(s, pe2, pc);
            lemma_brace_split(s, pe2, pc, pc + 1);
            lemma_brace_split(s, pb + 1, pe2, pc + 1);
            assert(brace_net(s, pb, pc + 1) == 1 + brace_net(s, pb + 1, pc + 1));
            assert(brace_depth(s, pb, pc + 1) == vstd::math::max(
                0,
                1 + brace_depth(s, pb + 1, pc + 1),
            ));
            lemma_brace_split(s, pos, pb, pc + 1);
        } else {
            lemma_no_brace_zero(s, pos, p5);
        }
    } else {
        lemma_no_brace_zero(s, pos, p5);
    }
}

/// A matched element's window is brace-balanced and counts the element's
/// nesting depth.
proof fn lemma_elem_brace(s: Seq<char>, pos: int)
    requires
        braces_structural(s),
        0 <= pos <= s.len(),
    ensures
        parse_element(s, pos) matches Some((e, p2)) ==> pos <= p2 <= s.len() && brace_net(
            s,
            pos,
            p2,
        ) == 0 && brace_depth(s, pos, p2) == elem_depth(e),
    decreases s.len() - pos, 3int,
{
    broadcast use lemma_skip_trivia_bounds, lemma_ident_end_bounds, lemma_dash_end_bounds;

    lemma_directive_segment(s, pos);
    match parse_directive(s, pos) {
        Some((d, p2)) => {},
        None => {
            match parse_state_data(s, pos) {
                Some((d, p2)) => {
                    let (nm, p1) = scan_ident(s, pos).unwrap();
                    let pt = skip_trivia(s, p1);
                    assert(false);
                },
                None => {
                    lemma_decl_brace(s, pos);
                    match crate::grammar::parse_state_declaration(s, pos) {
                        Some((d, p2)) => {},
                        None => {
                            match parse_transition(s, pos) {
                                Some((t, p2)) => {
                                    let (from, p1) = scan_ident(s, pos).unwrap();
                                    lemma_ident_run_no_brace(s, pos);
                                    let pw = skip_trivia(s, p1);
                                    lemma_trivia_no_brace(s, p1);
                                    let d = dash_end(s, pw);
                                    lemma_dash_run_no_brace(s, pw);
                                    let p3 = scan_arrow(s, pw).unwrap();
                                    let p4 = skip_trivia(s, p3);
                                    lemma_trivia_no_brace(s, p3);
                                    let (to, p5) = scan_ident(s, p4).unwrap();
                                    lemma_ident_run_no_brace(s, p4);
                                    let p6 = skip_trivia(s, p5);
                                    assert(!(0 <= p6 < s.len() && s[p6] == ':'));
                                    lemma_no_brace_zero(s, pos, p5);
                                },
                                None => {
                                    match parse_state_note(s, pos) {
                                        Some((o, p2)) => {
                                            assert(false);
                                        },
                                        None => {},
                                    }
                                },
                            }
                        },
                    }
                },
            }
        },
    }
}

/// A matched state declaration's window is brace-balanced and counts the
/// declaration's nesting depth.
proof fn lemma_decl_brace(s: Seq<char>, pos: int)
    requires
        braces_structural(s),
        0 <= pos <= s.len(),
    ensures
        crate::grammar::parse_state_declaration(s, pos) matches Some((d, p2)) ==> pos <= p2
            <= s.len() && brace_net(s, pos, p2) == 0 && brace_depth(s, pos, p2) == elem_depth(
            ElementV::StateDeclaration(d),
        ),
    decreases s.len() - pos, 2int,
{
    broadcast use lemma_skip_trivia_bounds, lemma_ident_end_bounds;

    reveal_strlit("state");
    reveal_with_fuel(brace_net, 8);
    reveal_with_fuel(brace_depth, 8);
    if match_kw(s, pos, "state"@) {
        lemma_brace_transport(s, pos, pos + 5);
        assert(brace_net("state"@, 0, 5) == 0);
        assert(brace_depth("state"@, 0, 5) == 0);
        let p1 = skip_trivia(s, pos + 5);
        lemma_trivia_no_brace(s, pos + 5);
        assert(!(0 <= p1 < s.len() && s[p1] == '"'));
        match scan_ident(s, p1) {
            Some((id, p2i)) => {
                lemma_ident_run_no_brace(s, p1);
                if pos <= p2i <= s.len() {
                    lemma_tail_depth(s, p2i, Seq::empty(), id);
                    match parse_decl_tail(s, p2i, Seq::empty(), id) {
                        Some((d, p2)) => {
                            lemma_no_brace_zero(s, pos + 5, p2i);
                            lemma_brace_split(s, pos, pos + 5, p2i);
                            lemma_brace_split(s, pos, p2i, p2);
                            lemma_elem_depth_nonneg(ElementV::StateDeclaration(d));
                        },
                        None => {},
                    }
                }
            },
            None => {},
        }
    }
}

/// The element repetition's window is brace-balanced and counts the deepest
/// nesting among its elements.
proof fn lemma_elems_brace(s: Seq<char>, pos: int)
    requires
        braces_structural(s),
        0 <= pos <= s.len(),
    ensures
        ({
            let (es, p2) = parse_elements(s, pos);
            pos <= p2 <= s.len() && brace_net(s, pos, p2) == 0 && brace_depth(s, pos, p2)
                == elems_depth(es)
        }),
    decreases s.len() - pos, 4int,
{
    broadcast use lemma_skip_trivia_bounds;

    let p = skip_trivia(s, pos);
    lemma_trivia_no_brace(s, pos);
    lemma_parse_element_progress(s, p);
    match parse_element(s, p) {
        Some((e, p2)) => {
            lemma_elem_brace(s, p);
            let (rest, p3) = parse_elements(s, p2);
            lemma_elems_brace(s, p2);
            lemma_no_brace_zero(s, pos, p);
            lemma_brace_split(s, pos, p, p2);
            lemma_brace_split(s, pos, p2, p3);
            lemma_elem_depth_nonneg(e);
            lemma_elems_depth_nonneg(rest);
            assert((seq![e] + rest)[0] == e);
            assert((seq![e] + rest).subrange(1, (seq![e] + rest).len() as int) =~= rest);
        },
        None => {},
    }
}

/// Nesting-depth law: in an input whose braces are all structural (it has
/// no quoted strings, no event clauses and no comments, the only raw text
/// that could carry a brace), the nesting depth of the parsed tree equals
/// the brace-nesting depth of the text.
pub proof fn lemma_nesting_depth(s: Seq<char>)
    requires
        braces_structural(s),
    ensures
        spec_parse_diagram(s) matches Some(d) ==> elems_depth(d.elements) == brace_depth(
            s,
            0,
            s.len() as int,
        ),
{
    lemma_elems_brace(s, 0);
    let (es, p) = parse_elements(s, 0);
    lemma_trivia_no_brace(s, p);
    if skip_trivia(s, p) == s.len() {
        lemma_no_brace_zero(s, p, s.len() as int);
        lemma_brace_split(s, 0, p, s.len() as int);
        lemma_elems_depth_nonneg(es);
    }
}

} // verus!
