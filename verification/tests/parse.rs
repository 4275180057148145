use plantuml_state_diagram_parser::parse_state_diagram;
use plantuml_state_diagram_parser::Attributes;
use plantuml_state_diagram_parser::Directive;
use plantuml_state_diagram_parser::Element;
use plantuml_state_diagram_parser::StateData;
use plantuml_state_diagram_parser::StateDeclaration;
use plantuml_state_diagram_parser::StateDiagramParser;
use plantuml_state_diagram_parser::StateNote;
use plantuml_state_diagram_parser::Transition;

#[test]
fn startuml_enduml_directives() {
    let d = parse_state_diagram("@startuml\n@enduml").unwrap();
    assert_eq!(d.elements.len(), 2);
    assert_eq!(d.elements[0], Element::Directive(Directive::StartUml));
    assert_eq!(d.elements[1], Element::Directive(Directive::EndUml));
}

#[test]
fn quoted_name_with_explicit_id() {
    let d = parse_state_diagram("state \"Idle\" as S1").unwrap();
    assert_eq!(d.elements.len(), 1);
    assert_eq!(
        d.elements[0],
        Element::StateDeclaration(StateDeclaration {
            id: "S1".to_string(),
            name: "Idle".to_string(),
            attributes: None,
            state_block: None,
        })
    );
}

#[test]
fn quoted_name_without_id_falls_back() {
    let d = parse_state_diagram("state \"Idle\"").unwrap();
    match &d.elements[0] {
        Element::StateDeclaration(s) => {
            assert_eq!(s.id, "Idle");
            assert_eq!(s.name, "Idle");
        }
        other => panic!("expected a state declaration, got {:?}", other),
    }
}

#[test]
fn transition_with_event() {
    let d = parse_state_diagram("S1 --> S2 : go").unwrap();
    assert_eq!(d.elements.len(), 1);
    assert_eq!(
        d.elements[0],
        Element::Transition(Transition {
            from_state: "S1".to_string(),
            to_state: "S2".to_string(),
            event: Some("go".to_string()),
        })
    );
}

#[test]
fn transition_without_event() {
    let d = parse_state_diagram("S1 --> S2").unwrap();
    assert_eq!(
        d.elements[0],
        Element::Transition(Transition {
            from_state: "S1".to_string(),
            to_state: "S2".to_string(),
            event: None,
        })
    );
}

#[test]
fn nested_state_block() {
    let d = parse_state_diagram("state S1 { state S2 }").unwrap();
    assert_eq!(d.elements.len(), 1);
    match &d.elements[0] {
        Element::StateDeclaration(s1) => {
            assert_eq!(s1.id, "S1");
            assert_eq!(s1.name, "");
            let block = s1.state_block.as_ref().expect("S1 should have a block");
            assert_eq!(block.elements.len(), 1);
            match &block.elements[0] {
                Element::StateDeclaration(s2) => {
                    assert_eq!(s2.id, "S2");
                    assert!(s2.state_block.is_none());
                }
                other => panic!("expected nested state declaration, got {:?}", other),
            }
        }
        other => panic!("expected a state declaration, got {:?}", other),
    }
}

#[test]
fn note_with_content() {
    let d = parse_state_diagram("note n1 : \"hello\"").unwrap();
    assert_eq!(
        d.elements[0],
        Element::StateNote(StateNote {
            identifier: "n1".to_string(),
            content: "hello".to_string(),
        })
    );
}

#[test]
fn state_data_attribute() {
    let d = parse_state_diagram("speed : \"Velocity\"").unwrap();
    assert_eq!(
        d.elements[0],
        Element::StateData(StateData {
            name: "speed".to_string(),
            data_type: "Velocity".to_string(),
        })
    );
}

#[test]
fn color_attribute_on_state() {
    let d = parse_state_diagram("state S1 #red").unwrap();
    match &d.elements[0] {
        Element::StateDeclaration(s) => {
            assert_eq!(
                s.attributes,
                Some(Attributes {
                    color: "#red".to_string(),
                    line_style: None,
                    text_style: None,
                })
            );
            assert!(s.state_block.is_none());
        }
        other => panic!("expected a state declaration, got {:?}", other),
    }
}

#[test]
fn all_bare_directives() {
    let d = parse_state_diagram("skinparam\nstyle\nscale\nhide").unwrap();
    assert_eq!(
        d.elements,
        vec![
            Element::Directive(Directive::SkinParam),
            Element::Directive(Directive::Style),
            Element::Directive(Directive::Scale),
            Element::Directive(Directive::Hide),
        ]
    );
}

#[test]
fn comments_and_whitespace_are_skipped() {
    let d = parse_state_diagram("' a comment line\n@startuml // trailing words\n@enduml\n").unwrap();
    assert_eq!(d.elements.len(), 2);
    assert_eq!(d.elements[0], Element::Directive(Directive::StartUml));
    assert_eq!(d.elements[1], Element::Directive(Directive::EndUml));
}

#[test]
fn empty_input_is_an_empty_diagram() {
    let d = parse_state_diagram("").unwrap();
    assert!(d.elements.is_empty());
    let d2 = parse_state_diagram("  \n\t ").unwrap();
    assert!(d2.elements.is_empty());
}

#[test]
fn event_is_trimmed() {
    let d = parse_state_diagram("S1 --> S2 :   press start  ").unwrap();
    match &d.elements[0] {
        Element::Transition(t) => assert_eq!(t.event.as_deref(), Some("press start")),
        other => panic!("expected a transition, got {:?}", other),
    }
}

#[test]
fn empty_event_clause_is_present_but_empty() {
    let d = parse_state_diagram("S1 --> S2 :").unwrap();
    match &d.elements[0] {
        Element::Transition(t) => assert_eq!(t.event.as_deref(), Some("")),
        other => panic!("expected a transition, got {:?}", other),
    }
}

#[test]
fn arrow_variants_are_interchangeable() {
    let short = parse_state_diagram("S1 -> S2").unwrap();
    let long = parse_state_diagram("S1 ---> S2").unwrap();
    assert_eq!(short.elements, long.elements);
}

#[test]
fn keyword_needs_a_word_boundary() {
    let d = parse_state_diagram("statex --> y").unwrap();
    match &d.elements[0] {
        Element::Transition(t) => assert_eq!(t.from_state, "statex"),
        other => panic!("expected a transition, got {:?}", other),
    }
}

#[test]
fn transition_inside_block_on_one_line() {
    let d = parse_state_diagram("state S { A --> B : go }").unwrap();
    match &d.elements[0] {
        Element::StateDeclaration(s) => {
            let block = s.state_block.as_ref().expect("block expected");
            match &block.elements[0] {
                Element::Transition(t) => assert_eq!(t.event.as_deref(), Some("go")),
                other => panic!("expected a transition, got {:?}", other),
            }
        }
        other => panic!("expected a state declaration, got {:?}", other),
    }
}

fn depth(e: &Element) -> usize {
    match e {
        Element::StateDeclaration(s) => match &s.state_block {
            Some(b) => 1 + b.elements.iter().map(depth).max().unwrap_or(0),
            None => 0,
        },
        _ => 0,
    }
}

#[test]
fn nesting_depth_follows_braces() {
    let d = parse_state_diagram("state A { state B { state C } }").unwrap();
    assert_eq!(depth(&d.elements[0]), 2);
    let deeper = parse_state_diagram("state A { state B { state C { state D } } }").unwrap();
    assert_eq!(depth(&deeper.elements[0]), 3);
}

#[test]
fn parsing_is_deterministic() {
    let text = "@startuml\nstate \"On\" as ON #blue\nON --> OFF : toggle\n@enduml";
    let first = parse_state_diagram(text).unwrap();
    let second = parse_state_diagram(text).unwrap();
    assert_eq!(first, second);
    let bad = "state S1 {";
    assert_eq!(
        parse_state_diagram(bad).unwrap_err(),
        parse_state_diagram(bad).unwrap_err()
    );
}

#[test]
fn unterminated_block_is_an_error() {
    assert!(parse_state_diagram("state S1 {").is_err());
    assert!(parse_state_diagram("state S1 { state S2").is_err());
}

#[test]
fn missing_arrow_is_an_error() {
    assert!(parse_state_diagram("S1 - S2").is_err());
    assert!(parse_state_diagram("S1 -->").is_err());
    assert!(parse_state_diagram("--> S2").is_err());
}

#[test]
fn unterminated_string_is_an_error() {
    assert!(parse_state_diagram("note n : \"abc").is_err());
    assert!(parse_state_diagram("state \"Idle").is_err());
}

#[test]
fn bare_braces_are_an_error() {
    assert!(parse_state_diagram("{ }").is_err());
}

#[test]
fn error_reports_position_line_and_column() {
    let e = parse_state_diagram("@startuml\n???").unwrap_err();
    assert_eq!(e.position, 10);
    assert_eq!(e.line, 2);
    assert_eq!(e.column, 1);
    assert_eq!(e.expected, "an element or the end of the input");
    assert_eq!(e.rule_stack, vec!["state_diagram".to_string(), "element".to_string()]);
}

#[test]
fn engine_entry_matches_public_entry() {
    let text = "state \"Busy\" as B { B --> B : tick }";
    assert_eq!(
        StateDiagramParser::parse(text).unwrap(),
        parse_state_diagram(text).unwrap()
    );
}

#[test]
fn game_like_diagram_parses() {
    let text = "@startuml\n' the main loop\nstate \"Main Menu\" as menu\nstate playing {\n  lives : \"u32\"\n  playing --> paused : pause\n  paused --> playing : resume\n}\nmenu --> playing : start\nnote menu : \"entry point\"\n@enduml\n";
    let d = parse_state_diagram(text).unwrap();
    assert_eq!(d.elements.len(), 6);
    match &d.elements[2] {
        Element::StateDeclaration(s) => {
            assert_eq!(s.id, "playing");
            let block = s.state_block.as_ref().expect("block expected");
            assert_eq!(block.elements.len(), 3);
        }
        other => panic!("expected a state declaration, got {:?}", other),
    }
}
