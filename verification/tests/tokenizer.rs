use lip::tokenizer::Token::{And, Def, False, Ident, If, Lambda, Lparen, Not, Or, Rparen, True};
use lip::tokenizer::{tokenize, TokenizeErr};

#[test]
fn tokenize_valid_tokens_parsed_successfully() {
    let tokens = tokenize("( ) & | ^ T F if def lambda");
    assert_eq!(
        vec![Lparen, Rparen, And, Or, Not, True, False, If, Def, Lambda],
        tokens.unwrap()
    );
}

#[test]
fn tokenizer_tokenize_valid_tokens_parsed_successfully() {
    let tokens = tokenize("( ) & | ^ T F if def");
    assert_eq!(
        vec![Lparen, Rparen, And, Or, Not, True, False, If, Def],
        tokens.unwrap()
    );
}

#[test]
fn tokenize_identifier_succeed() {
    let tokens = tokenize("myvar abc");
    assert_eq!(
        vec![Ident("myvar".to_string()), Ident("abc".to_string())],
        tokens.unwrap()
    );
}

#[test]
fn tokenize_invalid_token_cannot_be_parsed() {
    let tokens = tokenize("( ) & | ^ T F $");
    match tokens {
        Err(TokenizeErr::Parse(e)) => assert_eq!("Invalid token `$`", e),
        _ => panic!(),
    };
}

#[test]
fn tokenize_works() {
    let tokens = tokenize("( ) T F & | ^ if").unwrap();
    assert_eq!(vec![Lparen, Rparen, True, False, And, Or, Not, If], tokens);
}

#[test]
fn tokenize_pads_parens() {
    let tokens = tokenize("(& T F)").unwrap();
    assert_eq!(vec![Lparen, And, True, False, Rparen], tokens);
}

#[test]
fn tokenize_nested_parens() {
    let tokens = tokenize("((lambda (x) (^ x)) T)").unwrap();
    assert_eq!(
        vec![
            Lparen,
            Lparen,
            Lambda,
            Lparen,
            Ident("x".to_string()),
            Rparen,
            Lparen,
            Not,
            Ident("x".to_string()),
            Rparen,
            Rparen,
            True,
            Rparen
        ],
        tokens
    );
}

#[test]
fn tokenize_underscore_is_rejected() {
    // '_' is not a lowercase letter, so the whole word is one bad token
    match tokenize("undefined_var") {
        Err(TokenizeErr::Parse(e)) => assert_eq!("Invalid token `undefined_var`", e),
        _ => panic!(),
    }
}

#[test]
fn tokenize_word_running_into_open_paren_is_rejected() {
    // padding inserts a space only after `(`, so `x(` stays one word
    match tokenize("x( T)") {
        Err(TokenizeErr::Parse(e)) => assert_eq!("Invalid token `x(`", e),
        _ => panic!(),
    }
}

#[test]
fn tokenize_word_after_close_paren_is_rejected() {
    // padding inserts a space only before `)`, so `)x` stays one word
    match tokenize("(T ) )x") {
        Err(TokenizeErr::Parse(e)) => assert_eq!("Invalid token `)x`", e),
        _ => panic!(),
    }
}

#[test]
fn tokenize_empty_input_gives_no_tokens() {
    assert_eq!(Vec::<lip::tokenizer::Token>::new(), tokenize("").unwrap());
    assert_eq!(Vec::<lip::tokenizer::Token>::new(), tokenize("   ").unwrap());
}

#[test]
fn token_to_string_shows_surface_text() {
    assert_eq!("(", Lparen.to_string());
    assert_eq!(")", Rparen.to_string());
    assert_eq!("&", And.to_string());
    assert_eq!("|", Or.to_string());
    assert_eq!("^", Not.to_string());
    assert_eq!("T", True.to_string());
    assert_eq!("F", False.to_string());
    assert_eq!("if", If.to_string());
    assert_eq!("def", Def.to_string());
    assert_eq!("lambda", Lambda.to_string());
    assert_eq!("`abc`", Ident("abc".to_string()).to_string());
}
