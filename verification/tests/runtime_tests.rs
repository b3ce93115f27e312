use viewgen::assign_gen::ApplyOp;
use viewgen::ast::{
    AssignAttr, AssignProperty, ConditionalBranches, ConditionalWidget, FuncKind, IfBranch,
    Properties, Property, PropertyType, Widget, WidgetAttr, WidgetFunc,
};
use viewgen::ast::MatchArm;
use viewgen::init_gen::InitStatement;
use viewgen::runtime::{Env, Store};
use viewgen::update_gen::UpdateStep;

fn leaf(name: u32, path: u32, props: Vec<Property>) -> Widget {
    Widget {
        name,
        name_explicit: true,
        mutable: false,
        attr: WidgetAttr::Constructed,
        uses_template: false,
        func: WidgetFunc { path, ty: None, args: None, kind: FuncKind::Block },
        properties: Properties { properties: props },
    }
}

fn env(values: Vec<u64>) -> Env {
    Env { values, present: Vec::new(), matched: Vec::new() }
}

/// A two-branch conditional on "value is even", initialized even: the even
/// branch is visible; after the value turns odd, update switches the
/// visible child to the odd branch without constructing anything new.
#[test]
fn even_odd_visibility_switch() {
    let even_cond = 1u32;
    let cond = ConditionalWidget {
        name: 5,
        name_explicit: true,
        transition: None,
        branches: ConditionalBranches::If(vec![
            IfBranch { cond: Some(even_cond), widget: leaf(10, 90, vec![]) },
            IfBranch { cond: None, widget: leaf(11, 90, vec![]) },
        ]),
    };

    let mut stmts: Vec<InitStatement> = Vec::new();
    cond.init_stream(&mut stmts);
    let mut store = Store::new();
    store.run_init(&stmts);
    assert_eq!(store.constructed, vec![5, 10, 11]);
    assert_eq!(store.switches.len(), 1);
    assert_eq!(store.switches[0].children, vec![10, 11]);

    let mut steps: Vec<UpdateStep> = Vec::new();
    cond.update_stream(&mut steps);
    assert_eq!(steps.len(), 1);

    // value = 0: even, so the predicate expression evaluates true.
    let even_env = env(vec![0, 1]);
    store.run_update(&steps, &even_env);
    assert_eq!(store.switches[0].visible, 0);

    // value = 1: odd; exactly the other branch becomes visible, and the
    // construction log is untouched.
    let odd_env = env(vec![0, 0]);
    store.run_update(&steps, &odd_env);
    assert_eq!(store.switches[0].visible, 1);
    assert_eq!(store.constructed, vec![5, 10, 11]);
    assert_eq!(store.switches[0].children.len(), 2);
}

/// A match conditional selects the first arm whose pattern covers the
/// scrutinee's value; an uncovered value lands on the final catch-all
/// arm.
#[test]
fn match_selects_by_scrutinee() {
    let scrutinee = 2u32;
    let cond = ConditionalWidget {
        name: 6,
        name_explicit: true,
        transition: Some(77),
        branches: ConditionalBranches::Match(
            scrutinee,
            vec![
                MatchArm { pattern: 50, widget: leaf(20, 90, vec![]) },
                MatchArm { pattern: 51, widget: leaf(21, 90, vec![]) },
            ],
        ),
    };
    let mut stmts: Vec<InitStatement> = Vec::new();
    cond.init_stream(&mut stmts);
    let mut store = Store::new();
    store.run_init(&stmts);
    assert_eq!(store.switches[0].transition, Some(77));

    let mut steps: Vec<UpdateStep> = Vec::new();
    cond.update_stream(&mut steps);

    // Pattern 51 covers the value 1: the second arm becomes visible.
    let mut vals = vec![0u64; 3];
    vals[2] = 1;
    let e = Env { values: vals, present: vec![], matched: vec![(50, 0), (51, 1)] };
    store.run_update(&steps, &e);
    assert_eq!(store.switches[0].visible, 1);

    // A value no pattern covers lands on the final catch-all arm.
    let mut vals = vec![0u64; 3];
    vals[2] = 9;
    let e = Env { values: vals, present: vec![], matched: vec![(50, 0), (51, 1)] };
    store.run_update(&steps, &e);
    assert_eq!(store.switches[0].visible, 1);

    // Pattern 50 covers the value 0: the first arm becomes visible.
    let vals = vec![0u64; 3];
    let e = Env { values: vals, present: vec![], matched: vec![(50, 0), (51, 1)] };
    store.run_update(&steps, &e);
    assert_eq!(store.switches[0].visible, 0);
}

fn assign(target: u32, expr: u32, attr: AssignAttr) -> Property {
    Property {
        ty: PropertyType::Assign(AssignProperty {
            target,
            expr,
            optional: false,
            attr,
            block_signal: None,
            chain: None,
        }),
    }
}

/// Unconditional-refresh properties are re-applied on every update;
/// conditional-refresh ones exactly when their predicate holds; a
/// construction-only property never.
#[test]
fn refresh_modifiers_drive_update() {
    let w = leaf(
        1,
        90,
        vec![
            assign(100, 2, AssignAttr::Watch),
            assign(101, 4, AssignAttr::Track(3)),
            assign(102, 5, AssignAttr::Once),
        ],
    );
    let mut steps: Vec<UpdateStep> = Vec::new();
    w.update_stream(&mut steps);
    assert_eq!(steps.len(), 2);

    let mut store = Store::new();
    // Predicate (expr 3) false: only the watch property applies.
    let mut vals = vec![0u64; 6];
    vals[2] = 7;
    vals[4] = 8;
    store.run_update(&steps, &env(vals.clone()));
    assert_eq!(store.log.len(), 1);
    assert_eq!(store.log[0].widget, 1);
    assert_eq!(store.log[0].target, 100);
    assert_eq!(store.log[0].value, 7);

    // Predicate true: both refreshing properties apply, in declaration order.
    vals[3] = 1;
    store.run_update(&steps, &env(vals));
    assert_eq!(store.log.len(), 3);
    assert_eq!(store.log[1].target, 100);
    assert_eq!(store.log[2].target, 101);
    assert_eq!(store.log[2].value, 8);
}

/// An optional-argument property applies only when its argument is present.
#[test]
fn optional_argument_skipped_when_absent() {
    let op = ApplyOp { widget: 1, target: 100, expr: 0, optional: true, guard: None, chain: None };
    let mut store = Store::new();
    let absent = Env { values: vec![42], present: vec![false], matched: vec![] };
    store.run_applies(&vec![op.clone()], &absent);
    assert_eq!(store.log.len(), 0);
    let present = Env { values: vec![42], present: vec![true], matched: vec![] };
    store.run_applies(&vec![op], &present);
    assert_eq!(store.log.len(), 1);
    assert_eq!(store.log[0].value, 42);
}

/// Construction applies a widget's properties in declaration order at
/// init; update preserves that order among the refreshing subset.
#[test]
fn application_order_is_declaration_order() {
    let w = leaf(
        1,
        90,
        vec![
            assign(100, 2, AssignAttr::Once),
            assign(101, 2, AssignAttr::Watch),
            assign(102, 2, AssignAttr::Once),
            assign(103, 2, AssignAttr::Track(3)),
        ],
    );
    let mut ops: Vec<ApplyOp> = Vec::new();
    w.assign_stream(&mut ops);
    let targets: Vec<u32> = ops.iter().map(|o| o.target).collect();
    assert_eq!(targets, vec![100, 101, 102, 103]);

    let mut steps: Vec<UpdateStep> = Vec::new();
    w.update_stream(&mut steps);
    let mut refresh: Vec<u32> = Vec::new();
    for s in &steps {
        match s {
            UpdateStep::ApplyAlways { op } => refresh.push(op.target),
            UpdateStep::ApplyTracked { op, .. } => refresh.push(op.target),
            _ => {}
        }
    }
    assert_eq!(refresh, vec![101, 103]);
}
