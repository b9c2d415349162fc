use inibin::hash::{to_lower, HASH_MULTIPLIER, SEPARATOR};
use inibin::wire::is_bit_set;
use inibin::{inibin_hash, inibin_incremental_hash};

#[test]
fn test() {
    assert_eq!(
        inibin_hash("DeathTimeScaling", "StartTime"),
        inibin_incremental_hash(inibin_hash("DeathTimeScaling", ""), "StartTime")
    );
}

#[test]
fn hash_known_values() {
    assert_eq!(inibin_hash("DeathTimeScaling", "StartTime"), 0xb284858b);
    assert_eq!(inibin_hash("DeathTimeScaling", ""), 0xa6c90f84);
    assert_eq!(inibin_hash("Data", "Name"), 0x04edc06b);
    assert_eq!(inibin_hash("a", "b"), 0x2fedea99);
    assert_eq!(inibin_hash("Foo", "Bar"), 0x3897aa2f);
}

#[test]
fn hash_of_empty_names_is_the_separator() {
    assert_eq!(SEPARATOR, b'*');
    assert_eq!(inibin_hash("", ""), 42);
}

#[test]
fn hash_ignores_ascii_case() {
    let h = inibin_hash("Foo", "Bar");
    assert_eq!(h, inibin_hash("foo", "bar"));
    assert_eq!(h, inibin_hash("FOO", "BAR"));
    assert_eq!(h, inibin_hash("fOO", "bAR"));
    assert_eq!(
        inibin_incremental_hash(7, "MixedCase"),
        inibin_incremental_hash(7, "mixedcase")
    );
}

#[test]
fn hash_keeps_case_outside_ascii() {
    // The two letters differ in their second UTF-8 byte, which is no ASCII
    // letter and is hashed as it stands.
    assert_ne!(inibin_hash("\u{e9}", ""), inibin_hash("\u{c9}", ""));
    assert_eq!(inibin_hash("\u{e9}", "\u{c9}"), 0x897de78a);
}

#[test]
fn hash_tells_section_from_field() {
    assert_ne!(inibin_hash("ab", "c"), inibin_hash("a", "bc"));
    assert_ne!(inibin_hash("a", "b"), inibin_hash("b", "a"));
}

#[test]
fn hash_chain_on_several_pairs() {
    let pairs = [
        ("", ""),
        ("", "x"),
        ("Section", ""),
        ("Stats", "Health"),
        ("UPPER", "lower"),
        ("\u{e9}t\u{e9}", "na\u{ef}ve"),
    ];
    for (section, ident) in pairs {
        assert_eq!(
            inibin_hash(section, ident),
            inibin_incremental_hash(inibin_hash(section, ""), ident)
        );
    }
}

#[test]
fn incremental_hash_of_nothing_is_the_seed() {
    assert_eq!(inibin_incremental_hash(5, ""), 5);
    assert_eq!(inibin_incremental_hash(0xffff_ffff, ""), 0xffff_ffff);
}

#[test]
fn incremental_hash_one_step() {
    assert_eq!(HASH_MULTIPLIER, 65599);
    assert_eq!(inibin_incremental_hash(1, "A"), 65599 + 97);
    assert_eq!(inibin_incremental_hash(1, "a"), 65599 + 97);
}

#[test]
fn incremental_hash_wraps() {
    assert_eq!(inibin_incremental_hash(0xffff_ffff, "z"), 4294901819);
}

#[test]
fn incremental_hash_composes() {
    let once = inibin_incremental_hash(3, "HelloWorld");
    let twice = inibin_incremental_hash(inibin_incremental_hash(3, "Hello"), "World");
    assert_eq!(once, twice);
}

#[test]
fn to_lower_maps_only_capital_letters() {
    assert_eq!(to_lower(b'A'), b'a');
    assert_eq!(to_lower(b'M'), b'm');
    assert_eq!(to_lower(b'Z'), b'z');
    assert_eq!(to_lower(b'@'), b'@');
    assert_eq!(to_lower(b'['), b'[');
    assert_eq!(to_lower(b'a'), b'a');
    assert_eq!(to_lower(b'z'), b'z');
    assert_eq!(to_lower(b'0'), b'0');
    assert_eq!(to_lower(0), 0);
    assert_eq!(to_lower(0xc9), 0xc9);
    assert_eq!(to_lower(0xff), 0xff);
}

#[test]
fn to_lower_is_idempotent() {
    for b in 0..=255u8 {
        assert_eq!(to_lower(to_lower(b)), to_lower(b));
    }
}

#[test]
fn is_bit_set_reads_single_bits() {
    assert!(is_bit_set(0b0000_0001, 0));
    assert!(!is_bit_set(0b0000_0001, 1));
    assert!(is_bit_set(0b0010_0000, 5));
    assert!(!is_bit_set(0b0010_0000, 4));
    assert!(is_bit_set(0x1000, 12));
    assert!(is_bit_set(0x8000, 15));
    assert!(!is_bit_set(0x7fff, 15));
    assert!(!is_bit_set(0, 7));
    for bit in 0..16u8 {
        assert!(is_bit_set(0xffff, bit));
        assert_eq!(is_bit_set(1 << bit, bit), true);
    }
}
