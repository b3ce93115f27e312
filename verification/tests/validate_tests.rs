use viewgen::ast::{
    AssignAttr, AssignProperty, FuncKind, Properties, Property, PropertyType, SignalProperty,
    Widget, WidgetAttr, WidgetFunc,
};
use viewgen::diag::DiagKind;

fn widget(name: u32, explicit: bool, attr: WidgetAttr, props: Vec<Property>) -> Widget {
    Widget {
        name,
        name_explicit: explicit,
        mutable: false,
        attr,
        uses_template: false,
        func: WidgetFunc { path: 90, ty: None, args: None, kind: FuncKind::Block },
        properties: Properties { properties: props },
    }
}

fn assign(target: u32, attr: AssignAttr, block_signal: Option<u32>) -> Property {
    Property {
        ty: PropertyType::Assign(AssignProperty {
            target,
            expr: 2,
            optional: false,
            attr,
            block_signal,
            chain: None,
        }),
    }
}

fn signal(sig: u32, handler: Option<u32>) -> Property {
    Property {
        ty: PropertyType::Signal(SignalProperty { signal: sig, closure: 9, handler_name: handler }),
    }
}

/// A conditional-refresh modifier is only legal when the model declares
/// change-tracking support.
#[test]
fn track_needs_tracker_support() {
    let w = widget(1, true, WidgetAttr::Constructed, vec![assign(
        100,
        AssignAttr::Track(3),
        None,
    )]);
    let mut handlers: Vec<u32> = Vec::new();
    let e = w.validate(false, &mut handlers).unwrap_err();
    assert_eq!(e.kind, DiagKind::TrackWithoutTracker);
    let mut handlers: Vec<u32> = Vec::new();
    assert!(w.validate(true, &mut handlers).is_ok());
}

/// A suppression-guard name must match a previously declared signal
/// connection in the same tree.
#[test]
fn guard_must_follow_its_connection() {
    // Guard before any connection: rejected.
    let w = widget(1, true, WidgetAttr::Constructed, vec![
        assign(100, AssignAttr::Watch, Some(60)),
        signal(40, Some(60)),
    ]);
    let mut handlers: Vec<u32> = Vec::new();
    let e = w.validate(false, &mut handlers).unwrap_err();
    assert_eq!(e.kind, DiagKind::UnknownSignalGuard);
    assert_eq!(e.at, 60);

    // Connection first, guard after: accepted, and the handler is recorded.
    let w = widget(1, true, WidgetAttr::Constructed, vec![
        signal(40, Some(60)),
        assign(100, AssignAttr::Watch, Some(60)),
    ]);
    let mut handlers: Vec<u32> = Vec::new();
    assert!(w.validate(false, &mut handlers).is_ok());
    assert_eq!(handlers, vec![60]);
}

/// Widget names must be unique within their enclosing property scope.
#[test]
fn duplicate_names_in_scope_rejected() {
    let w = widget(1, true, WidgetAttr::Constructed, vec![
        Property { ty: PropertyType::Widget(widget(7, true, WidgetAttr::Constructed, vec![])) },
        Property { ty: PropertyType::Widget(widget(7, true, WidgetAttr::Constructed, vec![])) },
    ]);
    let mut handlers: Vec<u32> = Vec::new();
    let e = w.validate(false, &mut handlers).unwrap_err();
    assert_eq!(e.kind, DiagKind::DuplicateWidgetName);
    assert_eq!(e.at, 7);

    // The same name in two different scopes is not a duplicate here.
    let inner = widget(7, true, WidgetAttr::Constructed, vec![]);
    let mid = widget(8, true, WidgetAttr::Constructed, vec![Property {
        ty: PropertyType::Widget(inner),
    }]);
    let w = widget(1, true, WidgetAttr::Constructed, vec![
        Property { ty: PropertyType::Widget(mid) },
        Property { ty: PropertyType::Widget(widget(7, true, WidgetAttr::Constructed, vec![])) },
    ]);
    let mut handlers: Vec<u32> = Vec::new();
    assert!(w.validate(false, &mut handlers).is_ok());
}

/// A pre-bound widget must be explicitly named: its name refers to a
/// binding of the surrounding initializer.
#[test]
fn prebound_needs_explicit_name() {
    let w = widget(1, true, WidgetAttr::Constructed, vec![Property {
        ty: PropertyType::Widget(widget(7, false, WidgetAttr::LocalRef, vec![])),
    }]);
    let mut handlers: Vec<u32> = Vec::new();
    let e = w.validate(false, &mut handlers).unwrap_err();
    assert_eq!(e.kind, DiagKind::UnnamedPrebound);
    assert_eq!(e.at, 7);
}

/// A connection declared inside a child widget counts for a guard used
/// later in the same tree.
#[test]
fn guard_sees_connections_of_earlier_children() {
    let child = widget(5, true, WidgetAttr::Constructed, vec![signal(40, Some(61))]);
    let w = widget(1, true, WidgetAttr::Constructed, vec![
        Property { ty: PropertyType::Widget(child) },
        assign(100, AssignAttr::Watch, Some(61)),
    ]);
    let mut handlers: Vec<u32> = Vec::new();
    assert!(w.validate(false, &mut handlers).is_ok());
    assert_eq!(handlers, vec![61]);
}
