use flycatcher::types::{
    round, CStruct, Construct, ConstructProperty, FlycatcherType, Function, FunctionSignature, Named,
};

fn property(name: &str, ty: FlycatcherType) -> ConstructProperty {
    ConstructProperty { name: name.into(), ty }
}

fn construct(properties: Vec<ConstructProperty>) -> Construct {
    Construct {
        name: "test".into(),
        full_name: Named("test".into(), vec![]),
        properties,
        methods: vec![],
    }
}

fn cstruct(properties: Vec<ConstructProperty>) -> CStruct {
    CStruct { name: "test".into(), full_name: Named("test".into(), vec![]), properties }
}

#[test]
fn test_test() {
    let test_const = Construct {
        name: "test".into(),
        full_name: Named("test".into(), vec![]),
        properties: vec![
            ConstructProperty { name: "prop1".into(), ty: FlycatcherType::Uint8 },
            ConstructProperty { name: "prop2".into(), ty: FlycatcherType::Uint8 },
            ConstructProperty { name: "prop3".into(), ty: FlycatcherType::Uint16 },
        ],
        methods: vec![],
    };

    assert_eq!(test_const.calculate_64bit_size(), 4);
}

#[test]
fn round_gives_the_next_multiple() {
    assert_eq!(round(0, 4), 0);
    assert_eq!(round(1, 4), 4);
    assert_eq!(round(4, 4), 4);
    assert_eq!(round(5, 4), 8);
    assert_eq!(round(7, 1), 7);
    assert_eq!(round(9, 8), 16);
}

#[test]
fn primitive_types_have_fixed_alignments() {
    let narrow = [0, 1, 1, 2, 4, 8, 4, 1, 2, 4, 8, 4, 4, 8, 4];
    let wide = [0, 1, 1, 2, 4, 8, 8, 1, 2, 4, 8, 8, 4, 8, 8];
    let types = [
        FlycatcherType::Void,
        FlycatcherType::Bool,
        FlycatcherType::Uint8,
        FlycatcherType::Uint16,
        FlycatcherType::Uint32,
        FlycatcherType::Uint64,
        FlycatcherType::Usize,
        FlycatcherType::Int8,
        FlycatcherType::Int16,
        FlycatcherType::Int32,
        FlycatcherType::Int64,
        FlycatcherType::Size,
        FlycatcherType::Float32,
        FlycatcherType::Float64,
        FlycatcherType::NullString,
    ];
    for (i, t) in types.iter().enumerate() {
        assert_eq!(t.get_32bit_align(), narrow[i]);
        assert_eq!(t.get_64bit_align(), wide[i]);
        assert_eq!(t.get_32bit_size(), narrow[i]);
        assert_eq!(t.get_64bit_size(), wide[i]);
    }
}

#[test]
fn a_function_is_as_wide_as_an_address() {
    let function = Function::new("printf".into(), Named("printf".into(), vec![]), FunctionSignature::new());
    assert_eq!(function.name, "printf");
    assert_eq!(function.signatures.len(), 1);
    assert!(function.signatures[0].arguments.is_empty());
    assert!(matches!(function.signatures[0].returns, FlycatcherType::Void));
    let t = FlycatcherType::Func(function);
    assert_eq!(t.get_32bit_align(), 4);
    assert_eq!(t.get_64bit_align(), 8);
    assert_eq!(t.get_32bit_size(), 4);
    assert_eq!(t.get_64bit_size(), 8);
}

#[test]
fn properties_are_padded_to_the_alignment_of_the_next() {
    let mixed = || {
        vec![
            property("a", FlycatcherType::Uint8),
            property("b", FlycatcherType::Uint32),
            property("c", FlycatcherType::Uint8),
            property("d", FlycatcherType::Size),
            property("e", FlycatcherType::Uint16),
        ]
    };
    let c = construct(mixed());
    assert_eq!(c.calculate_32bit_align(), 4);
    assert_eq!(c.calculate_64bit_align(), 8);
    assert_eq!(c.calculate_32bit_size(), 20);
    assert_eq!(c.calculate_64bit_size(), 32);
    let s = cstruct(mixed());
    assert_eq!(s.calculate_32bit_align(), 4);
    assert_eq!(s.calculate_64bit_align(), 8);
    assert_eq!(s.calculate_32bit_size(), 20);
    assert_eq!(s.calculate_64bit_size(), 32);
    assert_eq!(FlycatcherType::CStruct(s).get_64bit_size(), 32);
    assert_eq!(FlycatcherType::Construct(c).get_32bit_size(), 20);
}

#[test]
fn a_single_property_gives_its_own_layout() {
    let c = construct(vec![property("only", FlycatcherType::Float64)]);
    assert_eq!(c.calculate_32bit_size(), 8);
    assert_eq!(c.calculate_64bit_size(), 8);
    assert_eq!(c.calculate_64bit_align(), 8);
}

#[test]
fn a_construct_within_a_construct_counts_with_its_alignment() {
    let inner = construct(vec![
        property("x", FlycatcherType::Uint16),
        property("y", FlycatcherType::Uint64),
    ]);
    assert_eq!(inner.calculate_64bit_size(), 16);
    let outer = construct(vec![
        property("flag", FlycatcherType::Bool),
        property("inner", FlycatcherType::Construct(inner)),
        property("tail", FlycatcherType::Uint8),
    ]);
    assert_eq!(outer.calculate_64bit_align(), 8);
    assert_eq!(outer.calculate_64bit_size(), 24);
    let empty = construct(vec![]);
    assert_eq!(empty.calculate_32bit_align(), 0);
    assert_eq!(empty.calculate_64bit_align(), 0);
}
