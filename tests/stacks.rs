use bset::{AsciiSet, AsciiStack, ByteSet, ByteStack, B0, B1, B2, B3, B4, B5, B6, B7};

#[test]
fn empty_stack_holds_nothing() {
    let a = AsciiStack::new();
    let b = ByteStack::new();
    for v in 0..=255u8 {
        assert!(!a.contains::<B0>(v));
        assert!(!a.contains::<B7>(v));
        assert!(!b.contains::<B0>(v));
        assert!(!b.contains::<B7>(v));
    }
}

#[test]
fn documented_stack_example() {
    let stack: ByteStack<B3> = ByteStack::new()
        .add_set(ByteSet::digits())
        .add_set(ByteSet::alphabetic())
        .add_set(ByteSet::new().add_bytes(b"+-*/%&|^"));
    assert!(stack.contains::<B2>(b'%'));
    assert!(!stack.contains::<B1>(b'%'));
    assert!(stack.contains::<B0>(b'7'));
    assert!(stack.contains::<B1>(b'Q'));
}

#[test]
fn fold_fidelity_three_sets() {
    let s0 = AsciiSet::digits();
    let s1 = AsciiSet::lowercase().add(b'5');
    let s2 = AsciiSet::uri_reserved();
    let t = AsciiStack::new().add_set(s0).add_set(s1).add_set(s2);
    let u = AsciiStack::new().add_set(s2).add_set(s0).add_set(s1);
    for v in 0..=255u8 {
        assert_eq!(t.contains::<B0>(v), s0.contains(v));
        assert_eq!(t.contains::<B1>(v), s1.contains(v));
        assert_eq!(t.contains::<B2>(v), s2.contains(v));
        assert_eq!(u.contains::<B1>(v), s0.contains(v));
        assert_eq!(u.contains::<B2>(v), s1.contains(v));
        assert_eq!(u.contains::<B0>(v), s2.contains(v));
        assert!(!t.contains::<B3>(v));
    }
}

#[test]
fn eight_sets_fill_the_stack() {
    let sets = [
        ByteSet::digits(),
        ByteSet::lowercase(),
        ByteSet::uppercase(),
        ByteSet::whitespace(),
        ByteSet::uri_reserved(),
        ByteSet::new().add_range(128..=255),
        ByteSet::new().add(0).add(255),
        ByteSet::graphic().complement(),
    ];
    let t = ByteStack::new()
        .add_set(sets[0])
        .add_set(sets[1])
        .add_set(sets[2])
        .add_set(sets[3])
        .add_set(sets[4])
        .add_set(sets[5])
        .add_set(sets[6])
        .add_set(sets[7]);
    for v in 0..=255u8 {
        assert_eq!(t.contains::<B0>(v), sets[0].contains(v));
        assert_eq!(t.contains::<B1>(v), sets[1].contains(v));
        assert_eq!(t.contains::<B2>(v), sets[2].contains(v));
        assert_eq!(t.contains::<B3>(v), sets[3].contains(v));
        assert_eq!(t.contains::<B4>(v), sets[4].contains(v));
        assert_eq!(t.contains::<B5>(v), sets[5].contains(v));
        assert_eq!(t.contains::<B6>(v), sets[6].contains(v));
        assert_eq!(t.contains::<B7>(v), sets[7].contains(v));
    }
}

#[test]
fn ascii_stack_never_holds_high_bytes() {
    let t = AsciiStack::new()
        .add_set(AsciiSet::new().complement())
        .add_set(AsciiSet::graphic());
    assert!(!t.contains::<B0>(200));
    assert!(!t.contains::<B1>(200));
    assert!(t.contains::<B0>(127));
    for v in 128..=255u8 {
        assert!(!t.contains::<B0>(v));
    }
}

#[test]
fn ascii_set_into_byte_stack() {
    let t = ByteStack::new().add_set(AsciiSet::lowercase()).add_set(ByteSet::new().add(250));
    assert!(t.contains::<B0>(b'k'));
    assert!(!t.contains::<B0>(b'K'));
    assert!(!t.contains::<B0>(250));
    assert!(t.contains::<B1>(250));
}

#[test]
fn copies_are_equal() {
    let t = AsciiStack::new().add_set(AsciiSet::digits());
    let c = t;
    assert!(c.contains::<B0>(b'3'));
    let d = t.clone();
    assert!(d.contains::<B0>(b'3'));
}
