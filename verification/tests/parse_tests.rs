use viewgen::ast::{
    AssignAttr, ConditionalBranches, FuncKind, PropertyType, WidgetAttr,
};
use viewgen::diag::DiagKind;
use viewgen::parse::{parse_component, Token};

const FRESH: u32 = 1000;

/// `Window { set_title: e9, Box { } }`: a block widget with an assignment
/// and a nested child, both names synthesized.
#[test]
fn block_widget_with_nested_child() {
    let tokens = vec![
        Token::Path(1),
        Token::OpenBrace,
        Token::Ident(2),
        Token::Colon,
        Token::Expr(9),
        Token::Comma,
        Token::Path(3),
        Token::OpenBrace,
        Token::CloseBrace,
        Token::CloseBrace,
    ];
    let (c, fresh2) = parse_component(&tokens, false, FRESH).unwrap();
    assert_eq!(c.trees.len(), 1);
    let root = &c.trees[0];
    assert_eq!(root.func.path, 1);
    assert!(matches!(root.func.kind, FuncKind::Block));
    assert!(!root.name_explicit);
    assert_eq!(root.properties.properties.len(), 2);
    match &root.properties.properties[0].ty {
        PropertyType::Assign(a) => {
            assert_eq!(a.target, 2);
            assert_eq!(a.expr, 9);
            assert!(matches!(a.attr, AssignAttr::Once));
            assert!(!a.optional);
        }
        _ => panic!("expected an assignment"),
    }
    match &root.properties.properties[1].ty {
        PropertyType::Widget(w) => {
            assert_eq!(w.func.path, 3);
            // The child's synthesized name is drawn first, the root's after.
            assert_eq!(w.name, FRESH);
        }
        _ => panic!("expected a child widget"),
    }
    assert_eq!(root.name, FRESH + 1);
    assert_eq!(fresh2, FRESH + 2);
}

/// Attribute modifiers: watch, track, block_signal, explicit name, a
/// trailing `?`, and a named child bound with `name = &Type { .. }`.
#[test]
fn modifiers_and_named_child() {
    let tokens = vec![
        Token::AttrName(50),
        Token::Path(1),
        Token::OpenBrace,
        // #[watch] #[block_signal(60)] set_active: e7 ?
        Token::AttrWatch,
        Token::AttrBlockSignal(60),
        Token::Ident(2),
        Token::Colon,
        Token::Expr(7),
        Token::Question,
        Token::Comma,
        // #[track(8)] set_label: e9
        Token::AttrTrack(8),
        Token::Ident(3),
        Token::Colon,
        Token::Expr(9),
        Token::Comma,
        // append = inc_button = ... is spelled: inc_button = &Button { }
        Token::Ident(55),
        Token::Eq,
        Token::Amp,
        Token::Path(4),
        Token::OpenBrace,
        Token::CloseBrace,
        Token::CloseBrace,
    ];
    let (c, _) = parse_component(&tokens, true, FRESH).unwrap();
    let root = &c.trees[0];
    assert!(root.name_explicit);
    assert_eq!(root.name, 50);
    match &root.properties.properties[0].ty {
        PropertyType::Assign(a) => {
            assert!(matches!(a.attr, AssignAttr::Watch));
            assert_eq!(a.block_signal, Some(60));
            assert!(a.optional);
        }
        _ => panic!("expected an assignment"),
    }
    match &root.properties.properties[1].ty {
        PropertyType::Assign(a) => {
            assert!(matches!(a.attr, AssignAttr::Track(8)));
        }
        _ => panic!("expected an assignment"),
    }
    match &root.properties.properties[2].ty {
        PropertyType::Widget(w) => {
            assert_eq!(w.name, 55);
            assert!(w.name_explicit);
        }
        _ => panic!("expected a named child widget"),
    }
}

/// When a property carries both refresh modifiers, the unconditional one
/// wins.
#[test]
fn watch_wins_over_track() {
    let tokens = vec![
        Token::Path(1),
        Token::OpenBrace,
        Token::AttrWatch,
        Token::AttrTrack(8),
        Token::Ident(2),
        Token::Colon,
        Token::Expr(9),
        Token::CloseBrace,
    ];
    let (c, _) = parse_component(&tokens, true, FRESH).unwrap();
    match &c.trees[0].properties.properties[0].ty {
        PropertyType::Assign(a) => assert!(matches!(a.attr, AssignAttr::Watch)),
        _ => panic!("expected an assignment"),
    }
}

/// Signal connections, with and without a stored handler id.
#[test]
fn signal_connections() {
    let tokens = vec![
        Token::Path(1),
        Token::OpenBrace,
        Token::Ident(2),
        Token::FatArrow,
        Token::Expr(9),
        Token::At,
        Token::Ident(60),
        Token::Comma,
        Token::Ident(3),
        Token::FatArrow,
        Token::Expr(10),
        Token::CloseBrace,
    ];
    let (c, _) = parse_component(&tokens, false, FRESH).unwrap();
    match &c.trees[0].properties.properties[0].ty {
        PropertyType::Signal(s) => {
            assert_eq!(s.signal, 2);
            assert_eq!(s.closure, 9);
            assert_eq!(s.handler_name, Some(60));
        }
        _ => panic!("expected a signal connection"),
    }
    match &c.trees[0].properties.properties[1].ty {
        PropertyType::Signal(s) => assert_eq!(s.handler_name, None),
        _ => panic!("expected a signal connection"),
    }
}

/// Builder-chain and direct-constructor widget forms, and the
/// zero-argument shorthand.
#[test]
fn constructor_forms() {
    let tokens = vec![
        Token::Path(1),
        Token::OpenBrace,
        Token::Path(2),
        Token::BuilderChain(30),
        Token::Comma,
        Token::Path(3),
        Token::Expr(31),
        Token::Comma,
        Token::Ident(4),
        Token::Colon,
        Token::Unit,
        Token::CloseBrace,
    ];
    let (c, _) = parse_component(&tokens, false, FRESH).unwrap();
    let props = &c.trees[0].properties.properties;
    match &props[0].ty {
        PropertyType::Widget(w) => {
            assert!(matches!(w.func.kind, FuncKind::Builder));
            assert_eq!(w.func.args, Some(30));
        }
        _ => panic!("expected a builder-form widget"),
    }
    match &props[1].ty {
        PropertyType::Widget(w) => {
            assert!(matches!(w.func.kind, FuncKind::Constructor));
            assert_eq!(w.func.args, Some(31));
        }
        _ => panic!("expected a constructor-form widget"),
    }
    match &props[2].ty {
        PropertyType::Assign(a) => assert_eq!(a.expr, 0),
        _ => panic!("expected an empty-args assignment"),
    }
}

/// Pre-bound widgets: `#[local] name -> Type { .. }` is bound by value,
/// `#[local_ref]` by reference.
#[test]
fn prebound_widgets() {
    let tokens = vec![
        Token::Path(1),
        Token::OpenBrace,
        Token::AttrLocal,
        Token::Ident(40),
        Token::Arrow,
        Token::Path(2),
        Token::OpenBrace,
        Token::CloseBrace,
        Token::Comma,
        Token::AttrLocalRef,
        Token::Ident(41),
        Token::OpenBrace,
        Token::CloseBrace,
        Token::CloseBrace,
    ];
    let (c, _) = parse_component(&tokens, false, FRESH).unwrap();
    let props = &c.trees[0].properties.properties;
    match &props[0].ty {
        PropertyType::Widget(w) => {
            assert_eq!(w.name, 40);
            assert!(matches!(w.attr, WidgetAttr::Local));
            assert_eq!(w.func.ty, Some(2));
        }
        _ => panic!("expected a pre-bound widget"),
    }
    match &props[1].ty {
        PropertyType::Widget(w) => {
            assert_eq!(w.name, 41);
            assert!(matches!(w.attr, WidgetAttr::LocalRef));
        }
        _ => panic!("expected a pre-bound widget"),
    }
}

/// An if/else-if chain and a named match conditional.
#[test]
fn conditional_forms() {
    let tokens = vec![
        Token::Path(1),
        Token::OpenBrace,
        // #[transition(70)] if e5 { Label {} } else if e6 { Label {} } else { Label {} }
        Token::AttrTransition(70),
        Token::KwIf,
        Token::Expr(5),
        Token::OpenBrace,
        Token::Path(2),
        Token::OpenBrace,
        Token::CloseBrace,
        Token::CloseBrace,
        Token::KwElse,
        Token::KwIf,
        Token::Expr(6),
        Token::OpenBrace,
        Token::Path(2),
        Token::OpenBrace,
        Token::CloseBrace,
        Token::CloseBrace,
        Token::KwElse,
        Token::OpenBrace,
        Token::Path(2),
        Token::OpenBrace,
        Token::CloseBrace,
        Token::CloseBrace,
        Token::Comma,
        // stack = match e7 { p8 => { Label {} } }
        Token::Ident(45),
        Token::Eq,
        Token::KwMatch,
        Token::Expr(7),
        Token::OpenBrace,
        Token::Expr(8),
        Token::FatArrow,
        Token::OpenBrace,
        Token::Path(2),
        Token::OpenBrace,
        Token::CloseBrace,
        Token::CloseBrace,
        Token::CloseBrace,
        Token::CloseBrace,
    ];
    let (c, _) = parse_component(&tokens, false, FRESH).unwrap();
    let props = &c.trees[0].properties.properties;
    match &props[0].ty {
        PropertyType::ConditionalWidget(cw) => {
            assert_eq!(cw.transition, Some(70));
            match &cw.branches {
                ConditionalBranches::If(bs) => {
                    assert_eq!(bs.len(), 3);
                    assert_eq!(bs[0].cond, Some(5));
                    assert_eq!(bs[1].cond, Some(6));
                    assert_eq!(bs[2].cond, None);
                }
                _ => panic!("expected an if-chain"),
            }
        }
        _ => panic!("expected a conditional widget"),
    }
    match &props[1].ty {
        PropertyType::ConditionalWidget(cw) => {
            assert_eq!(cw.name, 45);
            assert!(cw.name_explicit);
            match &cw.branches {
                ConditionalBranches::Match(scrutinee, arms) => {
                    assert_eq!(*scrutinee, 7);
                    assert_eq!(arms.len(), 1);
                    assert_eq!(arms[0].pattern, 8);
                }
                _ => panic!("expected match arms"),
            }
        }
        _ => panic!("expected a conditional widget"),
    }
}

/// A binding property: a one-time directional mirroring link with its
/// chained configuration call.
#[test]
fn binding_property() {
    let tokens = vec![
        Token::Path(1),
        Token::OpenBrace,
        Token::AttrBind,
        Token::AttrChain(33),
        Token::Ident(2),
        Token::Colon,
        Token::Expr(9),
        Token::CloseBrace,
    ];
    let (c, _) = parse_component(&tokens, false, FRESH).unwrap();
    match &c.trees[0].properties.properties[0].ty {
        PropertyType::Bind(b) => {
            assert_eq!(b.target, 2);
            assert_eq!(b.expr, 9);
            assert_eq!(b.chain, Some(33));
        }
        _ => panic!("expected a binding property"),
    }
}

/// A template widget and a mutable binding.
#[test]
fn template_and_mut() {
    let tokens = vec![
        Token::Path(1),
        Token::OpenBrace,
        Token::AttrTemplate,
        Token::KwMut,
        Token::Path(2),
        Token::OpenBrace,
        Token::CloseBrace,
        Token::CloseBrace,
    ];
    let (c, _) = parse_component(&tokens, false, FRESH).unwrap();
    match &c.trees[0].properties.properties[0].ty {
        PropertyType::Widget(w) => {
            assert!(w.uses_template);
            assert!(w.mutable);
        }
        _ => panic!("expected a widget"),
    }
}

/// Two top-level trees, separated by a comma; the first is the root.
#[test]
fn two_top_level_trees() {
    let tokens = vec![
        Token::AttrRoot,
        Token::AttrName(50),
        Token::Path(1),
        Token::OpenBrace,
        Token::CloseBrace,
        Token::Comma,
        Token::Path(2),
        Token::OpenBrace,
        Token::CloseBrace,
    ];
    let (c, _) = parse_component(&tokens, false, FRESH).unwrap();
    assert_eq!(c.trees.len(), 2);
    assert_eq!(c.trees[0].name, 50);
    assert_eq!(c.trees[1].func.path, 2);
}

/// An if-chain without a final `else` is a fatal syntax error.
#[test]
fn if_chain_without_else_rejected() {
    let tokens = vec![
        Token::Path(1),
        Token::OpenBrace,
        Token::KwIf,
        Token::Expr(5),
        Token::OpenBrace,
        Token::Path(2),
        Token::OpenBrace,
        Token::CloseBrace,
        Token::CloseBrace,
        Token::CloseBrace,
    ];
    let e = match parse_component(&tokens, false, FRESH) {
        Err(d) => d,
        Ok(_) => panic!("expected a diagnostic"),
    };
    assert_eq!(e.kind, DiagKind::IncompleteBranches);
    assert_eq!(e.at, 9);
}

/// A truncated description is rejected with the offending position.
#[test]
fn truncated_input_rejected() {
    let tokens = vec![Token::Path(1), Token::OpenBrace];
    let e = match parse_component(&tokens, false, FRESH) {
        Err(d) => d,
        Ok(_) => panic!("expected a diagnostic"),
    };
    assert_eq!(e.kind, DiagKind::UnexpectedEnd);
    assert_eq!(e.at, 2);
}

/// A stray token where a property should begin is rejected.
#[test]
fn unexpected_token_rejected() {
    let tokens = vec![Token::Path(1), Token::OpenBrace, Token::Colon, Token::CloseBrace];
    let e = match parse_component(&tokens, false, FRESH) {
        Err(d) => d,
        Ok(_) => panic!("expected a diagnostic"),
    };
    assert_eq!(e.kind, DiagKind::UnexpectedToken);
    assert_eq!(e.at, 2);
}

/// An empty token stream has no tree to expose.
#[test]
fn empty_input_rejected() {
    let e = match parse_component(&vec![], false, FRESH) {
        Err(d) => d,
        Ok(_) => panic!("expected a diagnostic"),
    };
    assert_eq!(e.kind, DiagKind::EmptyComponent);
}
