use wasm_fixture::greeting::{hello_world, hello_world_rename};
use wasm_fixture::hello_world::hello_world as hello_name;
use wasm_fixture::person::Person;
use wasm_fixture::scalars::{bool_print, char_print, i16, i32, i64, i8, str, string_fn, u16, u32, u64, u8};
use wasm_fixture::sums::{i16_sum, i32_sum, i64_sum, i8_sum, u16_sum, u32_sum, u64_sum, u8_sum};

#[test]
fn unsigned_identities_keep_extremes() {
    assert_eq!(u8(0), 0);
    assert_eq!(u8(u8::MAX), u8::MAX);
    assert_eq!(u16(u16::MAX), u16::MAX);
    assert_eq!(u32(u32::MAX), u32::MAX);
    assert_eq!(u64(u64::MAX), u64::MAX);
    assert_eq!(u64(12345), 12345);
}

#[test]
fn signed_identities_keep_extremes() {
    assert_eq!(i8(i8::MIN), i8::MIN);
    assert_eq!(i8(i8::MAX), i8::MAX);
    assert_eq!(i16(i16::MIN), i16::MIN);
    assert_eq!(i32(-7), -7);
    assert_eq!(i64(i64::MIN), i64::MIN);
    assert_eq!(i64(i64::MAX), i64::MAX);
}

#[test]
fn char_and_bool_identities() {
    assert_eq!(char_print('a'), 'a');
    assert_eq!(char_print('\u{10FFFF}'), '\u{10FFFF}');
    assert_eq!(char_print('\0'), '\0');
    assert!(bool_print(true));
    assert!(!bool_print(false));
}

#[test]
fn text_identities_keep_code_points() {
    assert_eq!(str(""), "");
    assert_eq!(str("a\0b"), "a\0b");
    assert_eq!(str("héllo, 世界"), "héllo, 世界");
    assert_eq!(string_fn(String::new()), "");
    assert_eq!(string_fn("x\0y\u{1F600}".to_string()), "x\0y\u{1F600}");
}

#[test]
fn sums_of_one_two_three() {
    assert_eq!(u8_sum(vec![1, 2, 3]), 6);
    assert_eq!(u16_sum(vec![1, 2, 3]), 6);
    assert_eq!(u32_sum(vec![1, 2, 3]), 6);
    assert_eq!(u64_sum(vec![1, 2, 3]), 6);
    assert_eq!(i8_sum(vec![1, 2, 3]), 6);
    assert_eq!(i16_sum(vec![1, 2, 3]), 6);
    assert_eq!(i32_sum(vec![1, 2, 3]), 6);
    assert_eq!(i64_sum(vec![1, 2, 3]), 6);
}

#[test]
fn sums_of_empty_are_zero() {
    assert_eq!(u8_sum(vec![]), 0);
    assert_eq!(u16_sum(vec![]), 0);
    assert_eq!(u32_sum(vec![]), 0);
    assert_eq!(u64_sum(vec![]), 0);
    assert_eq!(i8_sum(vec![]), 0);
    assert_eq!(i16_sum(vec![]), 0);
    assert_eq!(i32_sum(vec![]), 0);
    assert_eq!(i64_sum(vec![]), 0);
}

#[test]
fn sums_of_single_value() {
    assert_eq!(u8_sum(vec![u8::MAX]), u8::MAX);
    assert_eq!(u16_sum(vec![40000]), 40000);
    assert_eq!(u32_sum(vec![u32::MAX]), u32::MAX);
    assert_eq!(u64_sum(vec![u64::MAX]), u64::MAX);
    assert_eq!(i8_sum(vec![i8::MIN]), i8::MIN);
    assert_eq!(i16_sum(vec![-300]), -300);
    assert_eq!(i32_sum(vec![i32::MIN]), i32::MIN);
    assert_eq!(i64_sum(vec![i64::MAX]), i64::MAX);
}

#[test]
fn sums_wrap_on_overflow() {
    assert_eq!(u8_sum(vec![200, 100]), 44);
    assert_eq!(u16_sum(vec![u16::MAX, 2]), 1);
    assert_eq!(u32_sum(vec![u32::MAX, u32::MAX]), u32::MAX - 1);
    assert_eq!(u64_sum(vec![u64::MAX, 1]), 0);
    assert_eq!(i8_sum(vec![100, 100]), -56);
    assert_eq!(i16_sum(vec![i16::MIN, -1]), i16::MAX);
    assert_eq!(i32_sum(vec![i32::MAX, 1]), i32::MIN);
    assert_eq!(i64_sum(vec![i64::MIN, i64::MIN]), 0);
}

#[test]
fn sums_wrap_back_into_range() {
    assert_eq!(u8_sum(vec![255, 255, 2]), 0);
    assert_eq!(i8_sum(vec![127, 1, -1]), 127);
    assert_eq!(i32_sum(vec![i32::MAX, 1, -1]), i32::MAX);
}

#[test]
fn sums_ignore_order() {
    assert_eq!(u8_sum(vec![250, 3, 9, 1]), u8_sum(vec![1, 9, 250, 3]));
    assert_eq!(i16_sum(vec![-5, 30000, 4000]), i16_sum(vec![4000, -5, 30000]));
    assert_eq!(i64_sum(vec![i64::MAX, 5, -9]), i64_sum(vec![-9, i64::MAX, 5]));
    assert_eq!(u64_sum(vec![7, u64::MAX, 2]), u64_sum(vec![2, 7, u64::MAX]));
}

#[test]
fn constant_greetings() {
    assert_eq!(hello_world(), "Hello, World!");
    assert_eq!(hello_world_rename(), "Hello, World!");
}

#[test]
fn greeting_by_name() {
    assert_eq!(hello_name("Ada".to_string()), "Hello, Ada!");
    assert_eq!(hello_name(String::new()), "Hello, !");
    assert_eq!(hello_name("Zoë".to_string()), "Hello, Zoë!");
}

#[test]
fn person_keeps_name_and_age() {
    let p = Person::new("Ada".to_string(), 36);
    assert_eq!(p.name, "Ada");
    assert_eq!(p.age, 36);
    let q = Person::new(String::new(), u64::MAX);
    assert_eq!(q.name, "");
    assert_eq!(q.age, u64::MAX);
    let r = Person::new("Grace Hopper 李".to_string(), 0);
    assert_eq!(r.name, "Grace Hopper 李");
    assert_eq!(r.age, 0);
    let c = r.clone();
    assert_eq!(c.name, r.name);
    assert_eq!(c.age, r.age);
}
