use rust_hdl::errors::HdlError;
use rust_hdl::short_bit_vec::ShortBitVec;

#[test]
fn test_max_legal_calc() {
    let k = ShortBitVec::<16>::max_legal();
    assert_eq!(k, 65535);
}

#[test]
fn test_from_masks_to_width() {
    let v = ShortBitVec::<8>::from(0x1234);
    assert_eq!(v.short(), 0x34);
    let w = ShortBitVec::<16>::from(0xFFFF_FFFF);
    assert_eq!(w.short(), 0xFFFF);
    let x = ShortBitVec::<32>::from(0xDEAD_BEEF);
    assert_eq!(x.short(), 0xDEAD_BEEF);
}

#[test]
fn test_masking_invariant_high_bits() {
    let v = ShortBitVec::<5>::from(0xFF);
    for i in 5..32 {
        assert!(v.short() & (1u32 << i) == 0);
    }
    assert_eq!(v.short(), 0x1F);
}

#[test]
fn test_add_wraps_mod_width() {
    let a = ShortBitVec::<8>::from(200);
    let b = ShortBitVec::<8>::from(100);
    assert_eq!(a.add(b).short(), (200 + 100) % 256);
    let c = ShortBitVec::<16>::from(0xFFFF);
    let d = ShortBitVec::<16>::from(1);
    assert_eq!(c.add(d).short(), 0);
}

#[test]
fn test_sub_is_add_not_plus_one() {
    let a = ShortBitVec::<8>::from(5);
    let b = ShortBitVec::<8>::from(9);
    let direct = a.sub(b);
    let one = ShortBitVec::<8>::from(1);
    let via_not = a.add(b.not().add(one));
    assert_eq!(direct.short(), via_not.short());
    assert_eq!(direct.short(), 252);
}

#[test]
fn test_bitops_and_reductions() {
    let a = ShortBitVec::<4>::from(0b1010);
    let b = ShortBitVec::<4>::from(0b0110);
    assert_eq!(a.bitor(b).short(), 0b1110);
    assert_eq!(a.bitand(b).short(), 0b0010);
    assert_eq!(a.bitxor(b).short(), 0b1100);
    assert_eq!(a.not().short(), 0b0101);
    assert!(a.any());
    assert!(!ShortBitVec::<4>::from(0).any());
    assert!(ShortBitVec::<4>::from(0xF).all());
    assert!(!a.all());
    assert!(!a.xor());
    assert!(ShortBitVec::<4>::from(0b1110).xor());
    assert_eq!(ShortBitVec::<4>::mask().short(), 0xF);
}

#[test]
fn test_shifts_mask_to_width() {
    let a = ShortBitVec::<8>::from(0b1100_0011);
    assert_eq!(a.shl(2).short(), 0b0000_1100);
    assert_eq!(a.shr(2).short(), 0b0011_0000);
    assert_eq!(a.shl(64).short(), 0);
    assert_eq!(a.shr(64).short(), 0);
    let amt = ShortBitVec::<4>::from(1);
    assert_eq!(a.shl_bits(amt).short(), 0b1000_0110);
    assert_eq!(a.shr_bits(amt).short(), 0b0110_0001);
}

#[test]
fn test_bit_access() {
    let a = ShortBitVec::<8>::from(0b0100_0010);
    assert!(a.get_bit(1));
    assert!(!a.get_bit(0));
    assert!(a.get_bit(6));
    let b = a.replace_bit(0, true);
    assert!(b.get_bit(0));
    let c = b.replace_bit(6, false);
    assert!(!c.get_bit(6));
    assert_eq!(c.short(), 0b0000_0011);
}

#[test]
fn test_index_error_variant() {
    let a = ShortBitVec::<8>::from(1);
    assert!(matches!(a.try_get_bit(3), Ok(false)));
    assert!(matches!(a.try_get_bit(0), Ok(true)));
    let e = a.try_get_bit(8);
    assert!(matches!(e, Err(HdlError::IndexError { index: 8, width: 8 })));
    let e = a.try_replace_bit(9, true);
    assert!(matches!(e, Err(HdlError::IndexError { index: 9, width: 8 })));
    assert!(matches!(a.try_replace_bit(2, true), Ok(_)));
}

#[test]
fn test_ordering_and_u128() {
    let a = ShortBitVec::<8>::from(5);
    let b = ShortBitVec::<8>::from(9);
    assert!(a.lt(&b));
    assert!(a.le(&b));
    assert!(!b.lt(&a));
    assert!(a.eq_bits(&a));
    assert!(!a.eq_bits(&b));
    assert_eq!(b.to_u128(), 9);
}
