use minilang::ast::{DefFuncExpr, Expr, ModifierSet, TypeExpr};
use minilang::ltype::{LType, ScalarType, TypeError};
use minilang::parser::parse_var_type;

fn ty_of(src: &[u8]) -> TypeExpr {
    let v = src.to_vec();
    let (t, p) = parse_var_type(&v, 0).unwrap();
    assert_eq!(p, src.len());
    t
}

#[test]
fn primitive_names_resolve() {
    let names: [(&[u8], usize); 10] = [
        (b"i8", 1),
        (b"i16", 2),
        (b"i32", 4),
        (b"i64", 8),
        (b"u8", 1),
        (b"u16", 2),
        (b"u32", 4),
        (b"u64", 8),
        (b"f32", 4),
        (b"f64", 8),
    ];
    for (name, size) in names {
        let lt = LType::parse_basic_ident(&ty_of(name)).unwrap();
        assert_eq!(lt.byte_size().unwrap(), size);
    }
    assert_eq!(LType::parse_basic_ident(&TypeExpr::Void), Some(LType::Void));
    assert_eq!(
        LType::parse_basic_ident(&TypeExpr::Ident(b"i128".to_vec())),
        None
    );
}

#[test]
fn array_of_i32_by_4_is_16_bytes() {
    let lt = LType::parse_type(&ty_of(b"[i32; 4]")).unwrap();
    assert_eq!(
        lt,
        LType::LArray(minilang::ltype::LArrayType {
            ltype: Box::new(LType::I32),
            size: 4,
        })
    );
    assert_eq!(lt.byte_size().unwrap(), 16);
}

#[test]
fn non_literal_array_size_is_an_error() {
    let t = TypeExpr::Array(
        Box::new(TypeExpr::Ident(b"i32".to_vec())),
        Box::new(Expr::Identifier(b"n".to_vec())),
    );
    assert_eq!(LType::parse_type(&t), Err(TypeError::NonLiteralArraySize));
}

#[test]
fn nested_arrays_size_recursively() {
    let lt = LType::parse_type(&ty_of(b"[[i8; 2]; 3]")).unwrap();
    assert_eq!(lt.byte_size().unwrap(), 6);
}

#[test]
fn zero_size_array_is_valid() {
    let lt = LType::parse_type(&ty_of(b"[i8; 0]")).unwrap();
    assert_eq!(lt.byte_size().unwrap(), 0);
}

#[test]
fn oversized_count_is_an_error() {
    let lt = LType::parse_type(&ty_of(b"[i8; 99999999999999999999999999]"));
    assert_eq!(lt, Err(TypeError::ArraySizeTooLarge));
}

#[test]
fn byte_size_overflow_is_an_error() {
    // the element count fits the machine word, but the byte size does not
    let lt = LType::parse_type(&ty_of(b"[i64; 4611686018427387904]")).unwrap();
    assert_eq!(lt.byte_size(), Err(TypeError::SizeOverflow));
}

#[test]
fn unknown_element_type_is_an_error() {
    let lt = LType::parse_type(&ty_of(b"[word; 2]"));
    assert_eq!(lt, Err(TypeError::UnknownTypeName));
}

#[test]
fn resolution_is_pure() {
    let t = ty_of(b"[[u16; 8]; 2]");
    let r1 = LType::parse_type(&t);
    let r2 = LType::parse_type(&t);
    assert_eq!(r1, r2);
    let l = r1.unwrap();
    assert_eq!(l.byte_size(), l.byte_size());
}

#[test]
fn function_prototype_resolves() {
    let d = DefFuncExpr {
        name: b"f".to_vec(),
        params: vec![
            (b"x".to_vec(), TypeExpr::Ident(b"i32".to_vec())),
            (b"y".to_vec(), TypeExpr::Ident(b"u8".to_vec())),
        ],
        return_type: TypeExpr::Ident(b"i64".to_vec()),
        modifiers: ModifierSet { no_mangle: true },
    };
    match LType::parse_function_def(&d).unwrap() {
        LType::LFunction(f) => {
            assert_eq!(f.name, b"f".to_vec());
            assert_eq!(f.params.len(), 2);
            assert_eq!(f.params[0], (b"x".to_vec(), LType::I32));
            assert_eq!(f.params[1], (b"y".to_vec(), LType::U8));
            assert_eq!(*f.return_type, LType::I64);
            assert!(f.modifiers.no_mangle);
        },
        other => panic!("expected a function type, got {:?}", other),
    }
}

#[test]
fn function_prototype_rejects_non_basic_annotations() {
    let unknown = DefFuncExpr {
        name: b"f".to_vec(),
        params: vec![(b"x".to_vec(), TypeExpr::Ident(b"word".to_vec()))],
        return_type: TypeExpr::Void,
        modifiers: ModifierSet { no_mangle: false },
    };
    assert_eq!(
        LType::parse_function_def(&unknown),
        Err(TypeError::UnknownTypeName)
    );

    let array_param = DefFuncExpr {
        name: b"g".to_vec(),
        params: vec![(b"x".to_vec(), ty_of(b"[i8; 2]"))],
        return_type: TypeExpr::Void,
        modifiers: ModifierSet { no_mangle: false },
    };
    assert_eq!(
        LType::parse_function_def(&array_param),
        Err(TypeError::UnsupportedSignatureType)
    );
}

#[test]
fn scalar_kinds_for_code_generation() {
    assert_eq!(LType::I8.to_type().unwrap(), ScalarType::I8);
    assert_eq!(LType::U8.to_type().unwrap(), ScalarType::I8);
    assert_eq!(LType::U16.to_type().unwrap(), ScalarType::I16);
    assert_eq!(LType::U32.to_type().unwrap(), ScalarType::I32);
    assert_eq!(LType::U64.to_type().unwrap(), ScalarType::I64);
    assert_eq!(LType::F32.to_type().unwrap(), ScalarType::F32);
    assert_eq!(LType::F64.to_type().unwrap(), ScalarType::F64);
    // arrays are address-width handles, never inlined
    let arr = LType::parse_type(&ty_of(b"[i8; 2]")).unwrap();
    assert_eq!(arr.to_type().unwrap(), ScalarType::I64);
    assert_eq!(arr.try_to_type(), Some(ScalarType::I64));
    // void, the aggregate placeholder, and function kinds have no register kind
    assert_eq!(LType::Void.to_type(), Err(TypeError::NoScalarKind));
    assert_eq!(LType::Void.try_to_type(), None);
    assert_eq!(LType::LStructure.to_type(), Err(TypeError::NoScalarKind));
}

#[test]
fn sizes_fail_explicitly_where_undefined() {
    assert_eq!(LType::Void.byte_size(), Ok(0));
    assert_eq!(LType::LStructure.byte_size(), Err(TypeError::NoDefinedSize));
    let f = DefFuncExpr {
        name: b"f".to_vec(),
        params: Vec::new(),
        return_type: TypeExpr::Void,
        modifiers: ModifierSet { no_mangle: false },
    };
    let lf = LType::parse_function_def(&f).unwrap();
    assert_eq!(lf.byte_size(), Err(TypeError::NoDefinedSize));
}

#[test]
fn decoded_literal_value_matches_text() {
    assert_eq!(minilang::ltype::decode_count(&b"123".to_vec()), Some(123));
    assert_eq!(minilang::ltype::decode_count(&b"0042".to_vec()), Some(42));
    assert_eq!(
        minilang::ltype::decode_count(&b"340282366920938463463374607431768211456".to_vec()),
        None
    );
}
