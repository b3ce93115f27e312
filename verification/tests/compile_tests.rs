use viewgen::ast::{
    AssignAttr, AssignProperty, Component, ConditionalBranches, ConditionalWidget, FuncKind,
    IfBranch, Properties, Property, PropertyType, SignalProperty, Widget, WidgetAttr, WidgetFunc,
};
use viewgen::connect_gen::ConnectStatement;
use viewgen::diag::DiagKind;
use viewgen::emit::compile;
use viewgen::init_gen::{ConstructKind, InitStatement};

fn widget(name: u32, explicit: bool, attr: WidgetAttr, props: Vec<Property>) -> Widget {
    Widget {
        name,
        name_explicit: explicit,
        mutable: false,
        attr,
        uses_template: false,
        func: WidgetFunc { path: 90, ty: None, args: None, kind: FuncKind::Block },
        properties: Properties { properties: props },
    }
}

fn child(w: Widget) -> Property {
    Property { ty: PropertyType::Widget(w) }
}

/// Construction creates exactly one instance of the root and of every
/// descendant, conditional branches included, in declaration order.
#[test]
fn init_constructs_every_descendant_once() {
    let cond = ConditionalWidget {
        name: 4,
        name_explicit: false,
        transition: None,
        branches: ConditionalBranches::If(vec![
            IfBranch { cond: Some(7), widget: widget(5, false, WidgetAttr::Constructed, vec![]) },
            IfBranch { cond: None, widget: widget(6, false, WidgetAttr::Constructed, vec![]) },
        ]),
    };
    let tree = widget(
        1,
        true,
        WidgetAttr::Constructed,
        vec![
            child(widget(2, false, WidgetAttr::Constructed, vec![])),
            Property { ty: PropertyType::ConditionalWidget(cond) },
            child(widget(3, true, WidgetAttr::Constructed, vec![])),
        ],
    );
    let c = Component { trees: vec![tree], tracker_support: false };
    let a = compile(&c).unwrap();

    let mut constructed: Vec<u32> = Vec::new();
    for s in a.root_stream.iter().chain(a.init_stream.iter()) {
        match s {
            InitStatement::Construct { name, .. } => constructed.push(*name),
            InitStatement::CreateSwitch { name } => constructed.push(*name),
            _ => {}
        }
    }
    assert_eq!(constructed, vec![1, 2, 4, 5, 6, 3]);
    // The root stream constructs the root and yields its handle.
    assert_eq!(a.root_stream.len(), 2);
    assert!(matches!(a.root_stream[1], InitStatement::Yield { name: 1 }));
    // The record holds exactly the explicitly named widgets.
    assert_eq!(a.record.widgets, vec![1, 3]);
}

/// A pre-bound widget receives zero construction statements, while its
/// descendants are still constructed.
#[test]
fn prebound_widget_not_constructed() {
    let inner = widget(3, false, WidgetAttr::Constructed, vec![]);
    let pre = widget(2, true, WidgetAttr::Local, vec![child(inner)]);
    let tree = widget(1, true, WidgetAttr::Constructed, vec![child(pre)]);
    let c = Component { trees: vec![tree], tracker_support: false };
    let a = compile(&c).unwrap();
    for s in a.root_stream.iter().chain(a.init_stream.iter()) {
        match s {
            InitStatement::Construct { name, .. } => assert_ne!(*name, 2),
            InitStatement::CreateSwitch { name } => assert_ne!(*name, 2),
            _ => {}
        }
    }
}

/// A conditional with three branches lowers to a switch-container with
/// exactly three labeled children, indexed 0, 1, 2 in declaration order.
#[test]
fn three_branches_three_labeled_children() {
    let cond = ConditionalWidget {
        name: 9,
        name_explicit: false,
        transition: Some(70),
        branches: ConditionalBranches::If(vec![
            IfBranch { cond: Some(11), widget: widget(21, false, WidgetAttr::Constructed, vec![]) },
            IfBranch { cond: Some(12), widget: widget(22, false, WidgetAttr::Constructed, vec![]) },
            IfBranch { cond: None, widget: widget(23, false, WidgetAttr::Constructed, vec![]) },
        ]),
    };
    let mut stmts: Vec<InitStatement> = Vec::new();
    cond.init_stream(&mut stmts);
    let mut children: Vec<(u32, usize)> = Vec::new();
    for s in &stmts {
        if let InitStatement::AddSwitchChild { container, child, label, .. } = s {
            assert_eq!(*container, 9);
            children.push((*child, *label));
        }
    }
    assert_eq!(children, vec![(21, 0), (22, 1), (23, 2)]);
    assert!(matches!(stmts[1], InitStatement::SetTransition { name: 9, transition: 70 }));
}

/// A validation failure suppresses all artifacts for the component.
#[test]
fn fatal_diagnostic_suppresses_artifacts() {
    let bad = widget(
        1,
        true,
        WidgetAttr::Constructed,
        vec![Property {
            ty: PropertyType::Assign(AssignProperty {
                target: 100,
                expr: 2,
                optional: false,
                attr: AssignAttr::Track(3),
                block_signal: None,
                chain: None,
            }),
        }],
    );
    let c = Component { trees: vec![bad], tracker_support: false };
    let e = match compile(&c) {
        Err(d) => d,
        Ok(_) => panic!("expected a diagnostic"),
    };
    assert_eq!(e.kind, DiagKind::TrackWithoutTracker);
    assert_eq!(e.at, 100);
}

/// An empty component is rejected.
#[test]
fn empty_component_rejected() {
    let c = Component { trees: vec![], tracker_support: false };
    let e = match compile(&c) {
        Err(d) => d,
        Ok(_) => panic!("expected a diagnostic"),
    };
    assert_eq!(e.kind, DiagKind::EmptyComponent);
}

/// Signal connections register callbacks; the handler id of a guarded
/// connection goes into the record for the update routine's use.
#[test]
fn signals_and_guards_in_record() {
    let tree = widget(
        1,
        true,
        WidgetAttr::Constructed,
        vec![
            Property {
                ty: PropertyType::Signal(SignalProperty {
                    signal: 40,
                    closure: 41,
                    handler_name: Some(42),
                }),
            },
            Property {
                ty: PropertyType::Assign(AssignProperty {
                    target: 100,
                    expr: 2,
                    optional: false,
                    attr: AssignAttr::Watch,
                    block_signal: Some(42),
                    chain: None,
                }),
            },
        ],
    );
    let c = Component { trees: vec![tree], tracker_support: false };
    let a = compile(&c).unwrap();
    assert_eq!(a.record.handlers, vec![42]);
    assert_eq!(a.connect_stream.len(), 1);
    assert!(matches!(
        a.connect_stream[0],
        ConnectStatement::ConnectSignal { widget: 1, signal: 40, closure: 41, handler: Some(42) }
    ));
    // The guarded re-application carries its suppression guard.
    assert_eq!(a.assign_stream.len(), 1);
    assert_eq!(a.assign_stream[0].guard, Some(42));
}

/// A suppression guard resolves against connections of its own tree
/// only: each top-level tree is validated with a fresh handler scope.
#[test]
fn guard_scope_is_per_tree() {
    let t1 = widget(1, true, WidgetAttr::Constructed, vec![Property {
        ty: PropertyType::Signal(SignalProperty {
            signal: 40,
            closure: 41,
            handler_name: Some(42),
        }),
    }]);
    let t2 = widget(2, true, WidgetAttr::Constructed, vec![assign_watch_guarded(100, 42)]);
    let c = Component { trees: vec![t1, t2], tracker_support: false };
    let e = match compile(&c) {
        Err(d) => d,
        Ok(_) => panic!("expected a diagnostic"),
    };
    assert_eq!(e.kind, DiagKind::UnknownSignalGuard);
}

fn assign_watch_guarded(target: u32, guard: u32) -> Property {
    Property {
        ty: PropertyType::Assign(AssignProperty {
            target,
            expr: 2,
            optional: false,
            attr: AssignAttr::Watch,
            block_signal: Some(guard),
            chain: None,
        }),
    }
}

/// Construction strategies: template init and direct constructor.
#[test]
fn construction_strategies() {
    let mut t = widget(1, true, WidgetAttr::Constructed, vec![]);
    t.uses_template = true;
    let mut stmts: Vec<InitStatement> = Vec::new();
    t.init_stream(&mut stmts);
    assert!(matches!(
        stmts[0],
        InitStatement::Construct { kind: ConstructKind::Template { path: 90 }, .. }
    ));

    let mut k = widget(2, true, WidgetAttr::Constructed, vec![]);
    k.func.kind = FuncKind::Constructor;
    k.func.args = Some(55);
    let mut stmts: Vec<InitStatement> = Vec::new();
    k.init_stream(&mut stmts);
    assert!(matches!(
        stmts[0],
        InitStatement::Construct {
            kind: ConstructKind::Call { path: 90, args: Some(55), form: FuncKind::Constructor },
            ..
        }
    ));
}

/// The second top-level tree's construction goes to the ordinary stream,
/// after the first tree's descendants.
#[test]
fn second_tree_after_first() {
    let t1 = widget(1, true, WidgetAttr::Constructed, vec![child(widget(
        2,
        false,
        WidgetAttr::Constructed,
        vec![],
    ))]);
    let t2 = widget(3, true, WidgetAttr::Constructed, vec![]);
    let c = Component { trees: vec![t1, t2], tracker_support: false };
    let a = compile(&c).unwrap();
    let names: Vec<u32> = a
        .init_stream
        .iter()
        .filter_map(|s| match s {
            InitStatement::Construct { name, .. } => Some(*name),
            _ => None,
        })
        .collect();
    assert_eq!(names, vec![2, 3]);
}
