use rust_hdl::synth::ADT;
use rust_hdl::synth::{
    Synth, SynthArray, SynthStruct, SynthTuple, EnumWithU8, MyComplexStruct, MyStruct, State,
};

#[test]
fn test_my_struct_properties() {
    assert_eq!(MyStruct::static_offset("a"), 0);
    assert_eq!(MyStruct::static_offset("b"), 8);
    assert_eq!(MyStruct::static_offset("c"), 24);
}

#[test]
fn test_my_tuple_properties() {
    let tmp = (0_u8, 0_u16);
    assert_eq!(tmp.offset(0), 0);
    assert_eq!(tmp.offset(1), 8);
}

#[test]
fn test_my_complex_struct_properties() {
    let foo: MyComplexStruct = Default::default();
    assert_eq!(MyComplexStruct::static_offset("a"), 0);
    assert_eq!(MyComplexStruct::static_offset("b"), foo.a.bits());
    assert_eq!(
        MyComplexStruct::static_offset("c"),
        foo.a.bits() + foo.b.bits()
    );
    assert_eq!(
        MyComplexStruct::static_offset("d"),
        foo.a.bits() + foo.b.bits() + foo.c.bits()
    );
    assert_eq!(
        MyComplexStruct::static_offset("e"),
        foo.a.bits() + foo.b.bits() + foo.c.bits() + foo.d.bits()
    );
    assert_eq!(
        MyComplexStruct::static_offset("f"),
        foo.a.bits() + foo.b.bits() + foo.c.bits() + foo.d.bits() + foo.e.bits()
    );
}

#[test]
fn test_nested_indexing() {
    let mut k = MyComplexStruct::default();
    k.e.1.b = 0xDEAD;
    println!("{}", k.bin());
    let base = k.offset("e") + k.e.offset(1) + k.e.1.offset("b");
    let j = k.bin().chars().skip(k.bits() - base - 16).take(16).collect::<String>();
    println!("j: {}", j);
    assert_eq!(j, "1101111010101101");
}

#[test]
fn test_array_case() {
    let mut k = [0_u8; 4];
    println!("bits {}", k.bits());
    assert_eq!(k.bits(), 32);
    k[1] = 0xFF;
    println!("{}", k.bin());
    assert!(k.get(8) && k.get(15));
    assert!(!k.get(7) && !k.get(16));
    assert_eq!(<[u8; 4]>::static_offset(1), 8);
}

#[test]
fn test_side_effects() {
    let c = false;
    let foo = {
        println!("Hello");
        if c {
            "blo"
        } else {
            "bar"
        }
    };
    println!("Foo: {}", foo);
}

#[test]
fn test_enum_withu8() {
    let k = EnumWithU8 { b: State::B, a: 0 };
    println!("{}", k.bin());
    assert_eq!(k.bin(), "0100000000");
    assert_eq!(EnumWithU8::static_offset("b"), 8);
}

#[test]
fn test_pack_and_iter() {
    let v: u8 = 0b101;
    let bits = v.pack();
    assert_eq!(bits.len(), 8);
    assert!(bits[0] && !bits[1] && bits[2]);
    let mut it = v.iter();
    assert_eq!(it.next(), Some(true));
    assert_eq!(it.next(), Some(false));
    assert_eq!(it.next(), Some(true));
    for _ in 3..8 {
        assert_eq!(it.next(), Some(false));
    }
    assert_eq!(it.next(), None);
}

#[test]
fn test_adt_packing() {
    let a = ADT::A(0xFF);
    assert!(!a.get(0) && !a.get(1));
    assert!(a.get(2) && a.get(9));
    assert!(!a.get(10));
    let b = ADT::B(1);
    assert!(!b.get(0) && b.get(1) && b.get(2));
    let c = ADT::C(0x8000_0000);
    assert!(c.get(0) && c.get(1) && c.get(33));
    assert_eq!(c.bits(), 34);
    assert_eq!(rust_hdl::synth::max(3, 9), 9);
}
