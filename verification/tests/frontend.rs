//! The lexical stream and the built-in function validators.

use zinc_vm::lexical::{Keyword, Lexeme, Location, Symbol, TokenStream};
use zinc_vm::semantic::{ArgumentList, Constant, Element, Type};
use zinc_vm::stdlib::array_reverse_standard::ArrayReverseStandardLibraryFunction;
use zinc_vm::stdlib::{BuiltinIdentifier, FunctionError, FunctionIdentifier, StandardLibraryFunctionError};

fn loc() -> Location {
    Location::new(1, 1)
}

#[test]
fn test_token_stream_basic() {
    let mut stream = TokenStream::new(String::from("const x = 42;"));
    let t = stream.next().expect("token");
    assert_eq!(t.lexeme, Lexeme::Keyword(Keyword::Const));
    assert_eq!(t.location, Location::new(1, 1));
    let t = stream.next().expect("token");
    assert_eq!(t.lexeme, Lexeme::Identifier(String::from("x")));
    let t = stream.next().expect("token");
    assert_eq!(t.lexeme, Lexeme::Symbol(Symbol::Equals));
    let t = stream.next().expect("token");
    assert_eq!(t.lexeme, Lexeme::IntegerLiteral(42));
    let t = stream.next().expect("token");
    assert_eq!(t.lexeme, Lexeme::Symbol(Symbol::Semicolon));
    let t = stream.next().expect("token");
    assert_eq!(t.lexeme, Lexeme::Eof);
}

#[test]
fn test_token_stream_skips_comments_and_tracks_lines() {
    let mut stream = TokenStream::new(String::from("// a comment\nfn"));
    let t = stream.next().expect("token");
    assert_eq!(t.lexeme, Lexeme::Keyword(Keyword::Fn));
    assert_eq!(t.location.line, 2);
}

#[test]
fn test_token_stream_look_ahead() {
    let mut stream = TokenStream::new(String::from("true false"));
    {
        let t = stream.look_ahead(2).expect("token");
        assert_eq!(t.lexeme, Lexeme::BooleanLiteral(false));
    }
    let t = stream.next().expect("token");
    assert_eq!(t.lexeme, Lexeme::BooleanLiteral(true));
    let t = stream.next().expect("token");
    assert_eq!(t.lexeme, Lexeme::BooleanLiteral(false));
}

#[test]
fn test_array_reverse_validate() {
    let f = ArrayReverseStandardLibraryFunction::new();
    assert_eq!(f.identifier(), "reverse");
    assert_eq!(f.builtin_identifier(), BuiltinIdentifier::ArrayReverse);
    assert_eq!(f.arguments_count(), 1);

    let good = vec![Type::Array { element: Box::new(Type::Boolean), size: 4 }];
    assert_eq!(
        f.validate(good),
        Ok(Type::Array { element: Box::new(Type::Boolean), size: 4 })
    );

    let not_array = vec![Type::Boolean];
    assert_eq!(
        f.validate(not_array),
        Err(StandardLibraryFunctionError::ArgumentType {
            function: "reverse",
            found: Type::Boolean
        })
    );

    let none: Vec<Type> = Vec::new();
    assert_eq!(
        f.validate(none),
        Err(StandardLibraryFunctionError::ArgumentCount {
            function: "reverse",
            expected: 1,
            found: 0
        })
    );
}

#[test]
fn test_stdlib_array_reverse_call() {
    let f = zinc_vm::stdlib::array_reverse::Function::new(FunctionIdentifier::ArrayReverse);
    let args = ArgumentList::new(
        loc(),
        vec![(
            Element::Value(Type::Array { element: Box::new(Type::Field), size: 3 }),
            loc(),
        )],
    );
    assert_eq!(
        f.call(loc(), args),
        Ok(Type::Array { element: Box::new(Type::Field), size: 3 })
    );
}

#[test]
fn test_stdlib_sha256_call() {
    let f = zinc_vm::stdlib::crypto_sha256::Function::new(FunctionIdentifier::CryptoSha256);
    let args = ArgumentList::new(
        loc(),
        vec![(
            Element::Value(Type::Array { element: Box::new(Type::Boolean), size: 16 }),
            loc(),
        )],
    );
    assert_eq!(
        f.call(loc(), args),
        Ok(Type::Array { element: Box::new(Type::Boolean), size: 256 })
    );

    // A preimage whose bit-length is not a whole number of bytes.
    let f = zinc_vm::stdlib::crypto_sha256::Function::new(FunctionIdentifier::CryptoSha256);
    let bad = ArgumentList::new(
        loc(),
        vec![(
            Element::Value(Type::Array { element: Box::new(Type::Boolean), size: 12 }),
            loc(),
        )],
    );
    match f.call(loc(), bad) {
        Err(FunctionError::ArgumentType { function, .. }) => assert_eq!(function, "sha256"),
        other => panic!("unexpected: {:?}", other),
    }
}

#[test]
fn test_constant_type_of() {
    let c = Constant::Integer { value: 42, ty: Type::IntegerUnsigned { bitlength: 8 } };
    assert_eq!(c.type_of(), Type::IntegerUnsigned { bitlength: 8 });
}

#[test]
fn test_type_size() {
    let t = Type::Tuple {
        types: vec![
            Type::Boolean,
            Type::Array { element: Box::new(Type::Field), size: 4 },
        ],
    };
    assert_eq!(t.size(), 5);
}

#[test]
fn test_request_response_bodies() {
    let q = zinc_vm::request::swap::Query::new(String::from("A/B"));
    assert_eq!(q.name, "A/B");
    let q = zinc_vm::request::tokenname::Query::new(String::from("TOK"), String::from("0xabc"));
    assert_eq!(q.tokenname, "TOK");
    assert_eq!(q.address, "0xabc");
    let b = zinc_vm::response::swap::Body::new(10, 2, 1);
    assert_eq!((b.amount, b.count, b.fee), (10, 2, 1));
}
