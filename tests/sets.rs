use bset::{AsciiSet, ByteSet, ASCII_RANGE_LEN, BITS_PER_CHUNK, CHUNKS, CHUNK_SIZE};

#[test]
fn layout_constants() {
    assert_eq!(ASCII_RANGE_LEN, 128);
    assert_eq!(CHUNK_SIZE, 8);
    assert_eq!(BITS_PER_CHUNK, 64);
    assert_eq!(CHUNKS, 2);
}

#[test]
fn empty_sets_hold_nothing() {
    let a = AsciiSet::new();
    let b = ByteSet::new();
    for v in 0..=255u8 {
        assert!(!a.contains(v));
        assert!(!b.contains(v));
    }
}

#[test]
fn add_then_contains() {
    let s = AsciiSet::new().add(b'%');
    assert!(s.contains(b'%'));
    assert!(!s.contains(b'&'));
    let b = ByteSet::new().add(255).add(0).add(64);
    assert!(b.contains(255));
    assert!(b.contains(0));
    assert!(b.contains(64));
    assert!(!b.contains(63));
    assert!(!b.contains(128));
}

#[test]
fn remove_wins_after_add() {
    let s = AsciiSet::lowercase();
    for b in 0..128u8 {
        assert!(s.add(b).contains(b));
        assert!(!s.remove(b).contains(b));
        assert_eq!(s.add(b).remove(b), s.remove(b));
    }
    assert_eq!(s.remove(b'q').add(b'q'), s);
}

#[test]
fn add_bytes_and_remove_bytes() {
    let op = AsciiSet::new().add_bytes(b"+-*/%&|^");
    assert!(op.contains(b'%'));
    assert!(op.contains(b'^'));
    assert!(!op.contains(b'a'));
    let fewer = op.remove_bytes(b"%^x");
    assert!(!fewer.contains(b'%'));
    assert!(!fewer.contains(b'^'));
    assert!(fewer.contains(b'+'));
    assert_eq!(AsciiSet::new().add_bytes(b""), AsciiSet::new());
    assert_eq!(AsciiSet::new().add_bytes(b"aa"), AsciiSet::new().add(b'a'));
}

#[test]
fn add_range_matches_each_add() {
    let by_range = ByteSet::new().add_range(b'0'..=b'z');
    let mut by_add = ByteSet::new();
    for b in b'0'..=b'z' {
        by_add = by_add.add(b);
    }
    assert_eq!(by_range, by_add);
}

#[test]
fn add_range_up_to_255() {
    let s = ByteSet::new().add_range(250..=255);
    for v in 0..=255u8 {
        assert_eq!(s.contains(v), v >= 250);
    }
    let all = ByteSet::new().add_range(0..=255);
    for v in 0..=255u8 {
        assert!(all.contains(v));
    }
    let none = all.remove_range(0..=255);
    assert_eq!(none, ByteSet::new());
}

#[test]
fn empty_range_changes_nothing() {
    let s = AsciiSet::digits();
    assert_eq!(s.add_range(b'z'..=b'a'), s);
    assert_eq!(s.remove_range(b'9'..=b'0'), s);
}

#[test]
fn remove_range_clears_only_the_range() {
    let s = AsciiSet::alphanumeric().remove_range(b'a'..=b'z');
    assert_eq!(s, AsciiSet::uppercase().union(AsciiSet::digits()));
    assert!(!s.contains(b'm'));
    assert!(s.contains(b'M'));
}

#[test]
fn presets() {
    assert!(AsciiSet::alphabetic().contains(b'm'));
    assert!(!AsciiSet::alphabetic().contains(b'5'));
    assert!(AsciiSet::alphanumeric().contains(b'5'));
    assert_eq!(AsciiSet::digits().union(AsciiSet::alphabetic()), AsciiSet::alphanumeric());
    assert!(AsciiSet::uri_reserved().contains(b'@'));
    assert!(!AsciiSet::uri_reserved().contains(b'x'));
    assert!(AsciiSet::whitespace().contains(b'\t'));
    assert!(AsciiSet::whitespace().contains(b' '));
}

#[test]
fn presets_byte_for_byte() {
    let uri = b"!#$&'()*+,/:;=?@[]";
    for v in 0..=255u8 {
        assert_eq!(AsciiSet::lowercase().contains(v), v.is_ascii_lowercase());
        assert_eq!(AsciiSet::uppercase().contains(v), v.is_ascii_uppercase());
        assert_eq!(ByteSet::digits().contains(v), v.is_ascii_digit());
        assert_eq!(ByteSet::alphabetic().contains(v), v.is_ascii_alphabetic());
        assert_eq!(ByteSet::alphanumeric().contains(v), v.is_ascii_alphanumeric());
        assert_eq!(AsciiSet::space_tab().contains(v), v == b' ' || v == b'\t');
        assert_eq!(AsciiSet::newline().contains(v), v == b'\r' || v == b'\n');
        assert_eq!(
            ByteSet::whitespace().contains(v),
            v == b' ' || v == b'\t' || v == b'\r' || v == b'\n'
        );
        assert_eq!(AsciiSet::graphic().contains(v), v.is_ascii_graphic());
        assert_eq!(ByteSet::uri_reserved().contains(v), uri.contains(&v));
    }
}

#[test]
fn ascii_set_never_holds_high_bytes() {
    let sets = [
        AsciiSet::new(),
        AsciiSet::graphic(),
        AsciiSet::new().complement(),
        AsciiSet::new().add_range(0..=127),
    ];
    for s in sets.iter() {
        assert!(!s.contains(200));
        for v in 128..=255u8 {
            assert!(!s.contains(v));
        }
    }
}

#[test]
fn union_and_intersection_laws() {
    let a = AsciiSet::lowercase().add(b'0');
    let b = AsciiSet::digits();
    let c = AsciiSet::graphic().remove_range(b'a'..=b'f');
    assert_eq!(a.union(b), b.union(a));
    assert_eq!(a.union(b).union(c), a.union(b.union(c)));
    assert_eq!(a.intersection(b), b.intersection(a));
    assert_eq!(a.intersection(b).intersection(c), a.intersection(b.intersection(c)));
    assert_eq!(a.intersection(b), AsciiSet::new().add(b'0'));
}

#[test]
fn complement_and_difference_laws() {
    let a = ByteSet::alphanumeric();
    let b = ByteSet::lowercase().add(b'0');
    assert_eq!(a.difference(b), a.intersection(b.complement()));
    assert_eq!(a.complement().complement(), a);
    assert_eq!(a.union(b).complement(), a.complement().intersection(b.complement()));
    assert_eq!(a.intersection(b).complement(), a.complement().union(b.complement()));
    let c = ByteSet::new().complement();
    for v in 0..=255u8 {
        assert!(c.contains(v));
    }
}

#[test]
fn documented_examples() {
    assert_eq!(AsciiSet::alphabetic(), AsciiSet::uppercase().union(AsciiSet::lowercase()));
    assert_eq!(AsciiSet::lowercase(), AsciiSet::alphabetic().intersection(AsciiSet::lowercase()));
    assert_eq!(AsciiSet::lowercase(), AsciiSet::alphabetic().difference(AsciiSet::uppercase()));
}

#[test]
fn ascii_operand_into_byte_set() {
    let high = ByteSet::new().add_range(200..=210).add(b'a');
    let u = high.union(AsciiSet::digits());
    assert!(u.contains(b'5'));
    assert!(u.contains(205));
    assert!(u.contains(b'a'));
    let i = high.intersection(AsciiSet::lowercase());
    assert_eq!(i, ByteSet::new().add(b'a'));
    let d = ByteSet::alphanumeric().add(230).difference(AsciiSet::digits());
    assert!(d.contains(b'q'));
    assert!(!d.contains(b'5'));
    assert!(!d.contains(230));
}
