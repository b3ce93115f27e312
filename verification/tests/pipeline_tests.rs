use viewgen::emit::compile;
use viewgen::parse::{parse_component, Token};
use viewgen::runtime::{Env, Store};

const FRESH: u32 = 1000;

/// The whole pipeline on a window holding a two-branch conditional on
/// "value is even": parse, validate, compile, construct, update.  With
/// the value even the first branch is visible; after an update with the
/// value odd, the visible child switches to the second branch and
/// nothing is constructed anew.
#[test]
fn parse_compile_run_even_odd() {
    let even_cond = 5u32;
    let tokens = vec![
        Token::Path(1),
        Token::OpenBrace,
        // stack = if (value is even) { Label {} } else { Label {} }
        Token::Ident(45),
        Token::Eq,
        Token::KwIf,
        Token::Expr(even_cond),
        Token::OpenBrace,
        Token::Path(2),
        Token::OpenBrace,
        Token::CloseBrace,
        Token::CloseBrace,
        Token::KwElse,
        Token::OpenBrace,
        Token::Path(2),
        Token::OpenBrace,
        Token::CloseBrace,
        Token::CloseBrace,
        Token::CloseBrace,
    ];
    let (component, _) = parse_component(&tokens, false, FRESH).unwrap();
    let artifacts = compile(&component).unwrap();

    let mut store = Store::new();
    store.run_init(&artifacts.root_stream);
    store.run_init(&artifacts.init_stream);
    // Every branch widget exists after construction, whatever the
    // condition's initial value: the root, the container, both branches.
    assert_eq!(store.constructed.len(), 4);
    assert_eq!(store.switches.len(), 1);
    assert_eq!(store.switches[0].name, 45);
    assert_eq!(store.switches[0].children.len(), 2);
    let constructed_at_init = store.constructed.clone();

    // value = 0: even.
    let mut vals = vec![0u64; 6];
    vals[even_cond as usize] = 1;
    store.run_applies(&artifacts.assign_stream, &Env { values: vals.clone(), present: vec![], matched: vec![] });
    store.run_update(&artifacts.update_stream, &Env { values: vals, present: vec![], matched: vec![] });
    assert_eq!(store.switches[0].visible, 0);

    // value = 1: odd; visibility switches, nothing is re-constructed.
    let vals = vec![0u64; 6];
    store.run_update(&artifacts.update_stream, &Env { values: vals, present: vec![], matched: vec![] });
    assert_eq!(store.switches[0].visible, 1);
    assert_eq!(store.constructed, constructed_at_init);
}
