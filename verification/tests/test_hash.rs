use circe::ast::nodes::{Command, CommandComponent};
use circe::db::{Database, DatabaseObject};
use circe::hash::CirceHash;
use circe::register::{Reg, Reg16, Reg32, Reg64, Reg8, RegisterTake};

#[test]
fn hash_of_unsigned_integers_is_the_value() {
    assert_eq!(0u8.hash(), 0);
    assert_eq!(255u8.hash(), 255);
    assert_eq!(65535u16.hash(), 65535);
    assert_eq!(u32::MAX.hash(), 4294967295);
    assert_eq!(u64::MAX.hash(), u64::MAX);
    assert_eq!(12345usize.hash(), 12345);
}

#[test]
fn hash_of_signed_integers_is_shifted() {
    assert_eq!(0i8.hash(), 63);
    assert_eq!((-63i8).hash(), 0);
    assert_eq!(64i8.hash(), 127);
    assert_eq!((-64i8).hash(), u64::MAX);
    assert_eq!((-128i8).hash(), u64::MAX - 64);
    assert_eq!(0i16.hash(), 16383);
    assert_eq!(0i32.hash(), 1073741823);
    assert_eq!(1i64.hash(), 4611686018427387904);
    assert_eq!(0isize.hash(), (isize::MAX / 2) as u64);
    // beyond the middle of the range the sum wraps round
    assert_eq!(65i8.hash(), (-128i8) as u64);
    assert_eq!(i8::MAX.hash(), (-66i8) as u64);
    assert_eq!(i64::MAX.hash(), (i64::MIN + i64::MAX / 2 - 1) as u64);
}

#[test]
fn hash_of_bool_and_char() {
    assert_eq!(true.hash(), 1);
    assert_eq!(false.hash(), 0);
    assert_eq!('a'.hash(), 97);
    assert_eq!('\u{20ac}'.hash(), 0x20ac);
}

#[test]
fn hash_of_text_rotates_by_position() {
    assert_eq!("".to_string().hash(), 0);
    assert_eq!("a".to_string().hash(), 97);
    // 'b' is 98; rotated right by one it is 49
    assert_eq!("ab".to_string().hash(), 97 ^ 49);
    // 'c' is 99; its lowest bit comes back in at the top
    assert_eq!("ac".to_string().hash(), 97 ^ 49 ^ (1u64 << 63));
    assert_eq!("abc".to_string().hash(), 97 ^ 49 ^ (24 | (3u64 << 62)));
    assert_ne!("ab".to_string().hash(), "ba".to_string().hash());
}

#[test]
fn hash_of_text_rotation_starts_again_after_64() {
    let long: String = std::iter::repeat('\u{1}').take(65).collect();
    // the bits of the first 64 characters fill the word; the 65th undoes bit 0
    assert_eq!(long.hash(), u64::MAX - 1);
    let full: String = std::iter::repeat('\u{1}').take(64).collect();
    assert_eq!(full.hash(), u64::MAX);
}

#[test]
fn hash_of_containers() {
    assert_eq!(None::<u8>.hash(), 0);
    assert_eq!(Some(7u8).hash(), 7);
    assert_eq!(Vec::<u8>::new().hash(), 0);
    assert_eq!(vec![97u8, 98].hash(), 97 ^ 49);
    assert_eq!(vec![1u64, 1, 1].hash(), 1 | (1 << 63) | (1 << 62));
    assert_eq!(vec!["ab".to_string(), "a".to_string()].hash(), (97 ^ 49) ^ (48 | (1 << 63)));
    assert_eq!(Box::new(9u32).hash(), 9);
    assert_eq!((&9u32).hash(), 9);
    assert_eq!(Some(vec![true, true]).hash(), 1 | (1 << 63));
    assert_eq!([97u8, 98].hash(), 97 ^ 49);
    assert_eq!([0u8; 0].hash(), 0);
    let slice: &[u8] = &[97, 98, 99];
    assert_eq!(slice.hash(), 97 ^ 49 ^ (24 | (3u64 << 62)));
}

fn keyword(text: &str) -> CommandComponent {
    CommandComponent::Keyword(text.to_string())
}

#[test]
fn database_object_component() {
    assert_eq!(keyword("ab").get_lookups(), vec![97 ^ 49]);
    assert_eq!(keyword("ab").get_conversion(), "ab");
    let literal = CommandComponent::Literal("a b".to_string());
    assert_eq!(literal.get_lookups(), vec!["a b".to_string().hash()]);
    assert_eq!(literal.get_conversion(), "'a b'");
    assert_eq!(CommandComponent::Literal("".to_string()).get_conversion(), "''");
}

#[test]
fn database_object_command() {
    let command = Command {
        components: vec![keyword("say"), CommandComponent::Literal("hi".to_string())],
        modifiers: vec![vec![keyword("add"), keyword("a")], vec![], vec![keyword("b")]],
    };
    assert_eq!(command.get_conversion(), "say 'hi' | add a | | b ");
    let expected: Vec<u64> = ["say", "hi", "add", "a", "b"]
        .iter()
        .map(|text| text.to_string().hash())
        .collect();
    assert_eq!(command.get_lookups(), expected);
    let empty = Command { components: vec![], modifiers: vec![] };
    assert_eq!(empty.get_conversion(), "");
    assert_eq!(empty.get_lookups(), Vec::<u64>::new());
}

#[test]
fn database_starts_empty() {
    let _first = Database::new();
    let _second = Database::default();
}

#[test]
fn register_holds_its_value() {
    let mut reg: Reg<Reg16> = Reg::new(7);
    assert_eq!(reg.value(), 7);
    reg.set_value(65535);
    assert_eq!(reg.value(), 65535);
    let copy = reg;
    assert_eq!(copy.value(), reg.value());
    assert_eq!(Reg::<Reg8>::size(), 8);
    assert_eq!(Reg::<Reg16>::size(), 16);
    assert_eq!(Reg::<Reg32>::size(), 32);
    assert_eq!(Reg::<Reg64>::size(), 64);
}

#[test]
fn register_takes_from_narrower_registers() {
    let mut narrow: Reg<Reg8> = Reg::new(200);
    let mut wide: Reg<Reg64> = Reg::new(u64::MAX);
    assert_eq!(wide.take(&mut narrow).value(), 200);
    assert_eq!(wide.value(), 200);
    assert_eq!(narrow.value(), 200);

    let mut middle: Reg<Reg32> = Reg::new(0);
    let mut source: Reg<Reg16> = Reg::new(65535);
    middle.take(&mut source);
    assert_eq!(middle.value(), 65535);
    let mut same: Reg<Reg32> = Reg::new(1);
    same.take(&mut middle);
    assert_eq!(same.value(), 65535);
    wide.take(&mut same).take(&mut narrow);
    assert_eq!(wide.value(), 200);
}
