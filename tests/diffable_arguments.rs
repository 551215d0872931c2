use bumpalo::collections::String as BumpString;
use bumpalo::Bump;
use mutation_stream::diffable_arguments::{
    min_size, DiffableArguments, Entry, IntoEntry, StaticSegments, Writable,
};

fn segments(id: u64, segments: &'static [&'static str]) -> StaticSegments {
    StaticSegments { id, segments }
}

fn render(entries: &[Entry]) -> String {
    let statics: &'static [&'static str] = &["<", ">"];
    let bump = Bump::new();
    let args = DiffableArguments { static_segments: segments(7, statics), dynamic_segments: entries };
    let text = args.to_bump_str(&bump).as_str().to_owned();
    text
}

fn written<W: Writable>(w: W) -> String {
    let bump = Bump::new();
    let mut s = BumpString::new_in(&bump);
    w.write(&mut s);
    let text = s.as_str().to_owned();
    text
}

#[test]
fn displays() {
    for num in 0..10000i32 {
        let entries = ["world".into_entry(), num.into_entry()];
        let diffable = DiffableArguments {
            static_segments: segments(1, &["hello ", ", ", " welcome"]),
            dynamic_segments: &entries,
        };
        let bump = Bump::new();
        let string = diffable.to_bump_str(&bump);
        assert_eq!(string, format!("hello world, {num} welcome"));
    }
}

#[test]
fn formats_string_and_number_slots() {
    let entries = [Entry::Str("world"), Entry::I64(42)];
    let args = DiffableArguments {
        static_segments: segments(2, &["hello ", ", ", " welcome"]),
        dynamic_segments: &entries,
    };
    let bump = Bump::new();
    assert_eq!(args.to_bump_str(&bump), "hello world, 42 welcome");
}

#[test]
fn formats_least_i8_through_slot() {
    assert_eq!(render(&[(-128i8).into_entry()]), "<-128>");
    assert_eq!(render(&[i32::MIN.into_entry()]), "<-2147483648>");
    assert_eq!(render(&[i16::MIN.into_entry()]), "<-32768>");
}

#[test]
fn formats_each_kind_of_value() {
    assert_eq!(render(&[Entry::U64(0)]), "<0>");
    assert_eq!(render(&[Entry::U64(u64::MAX)]), "<18446744073709551615>");
    assert_eq!(render(&[Entry::Usize(1234)]), "<1234>");
    assert_eq!(render(&[Entry::I64(-7)]), "<-7>");
    assert_eq!(render(&[Entry::I64(i64::MAX)]), "<9223372036854775807>");
    assert_eq!(render(&[Entry::Bool(true)]), "<true>");
    assert_eq!(render(&[Entry::Bool(false)]), "<false>");
    assert_eq!(render(&[Entry::Char('é')]), "<é>");
    assert_eq!(render(&[Entry::Str("")]), "<>");
}

#[test]
fn least_i64_is_written_in_full() {
    assert_eq!(render(&[Entry::I64(i64::MIN)]), "<-9223372036854775808>");
}

#[test]
fn writable_integers() {
    assert_eq!(written(0u8), "0");
    assert_eq!(written(255u8), "255");
    assert_eq!(written(65535u16), "65535");
    assert_eq!(written(10u32), "10");
    assert_eq!(written(u128::MAX), "340282366920938463463374607431768211455");
    assert_eq!(written(99usize), "99");
    assert_eq!(written(-1i8), "-1");
    assert_eq!(written(i8::MIN), "-128");
    assert_eq!(written(i16::MIN), "-32768");
    assert_eq!(written(-300i32), "-300");
    assert_eq!(written(i64::MIN), "-9223372036854775808");
    assert_eq!(written(i32::MIN), "-2147483648");
    assert_eq!(written(i128::MIN), "-170141183460469231731687303715884105728");
    assert_eq!(written(isize::MIN), format!("{}", isize::MIN));
    assert_eq!(written(i128::MAX), "170141183460469231731687303715884105727");
    assert_eq!(written(-5isize), "-5");
}

#[test]
fn write_appends_to_existing_text() {
    let bump = Bump::new();
    let mut s = BumpString::from_str_in("n=", &bump);
    42u64.write(&mut s);
    (-3i64).write(&mut s);
    assert_eq!(s, "n=42-3");
}

#[test]
fn into_entry_picks_the_slot_kind() {
    assert!(matches!(5u8.into_entry(), Entry::U64(5)));
    assert!(matches!(5u16.into_entry(), Entry::U64(5)));
    assert!(matches!(5u32.into_entry(), Entry::U64(5)));
    assert!(matches!(5usize.into_entry(), Entry::Usize(5)));
    assert!(matches!((-5i8).into_entry(), Entry::I64(-5)));
    assert!(matches!((-5i16).into_entry(), Entry::I64(-5)));
    assert!(matches!(true.into_entry(), Entry::Bool(true)));
    assert!(matches!('x'.into_entry(), Entry::Char('x')));
    assert!(matches!("s".into_entry(), Entry::Str("s")));
}

#[test]
fn single_string_slot_is_borrowed() {
    let entries = [Entry::Str("only")];
    let args = DiffableArguments { static_segments: segments(3, &["", ""]), dynamic_segments: &entries };
    assert_eq!(args.to_str(), Some("only"));
    let bump = Bump::new();
    assert_eq!(args.to_bump_str(&bump), "only");
}

#[test]
fn other_shapes_are_not_borrowed() {
    let number = [Entry::U64(1)];
    let args = DiffableArguments { static_segments: segments(3, &["", ""]), dynamic_segments: &number };
    assert_eq!(args.to_str(), None);
    let text = [Entry::Str("a")];
    let args = DiffableArguments { static_segments: segments(4, &["x", ""]), dynamic_segments: &text };
    assert_eq!(args.to_str(), None);
    let two = [Entry::Str("a"), Entry::Str("b")];
    let args = DiffableArguments { static_segments: segments(5, &["", "", ""]), dynamic_segments: &two };
    assert_eq!(args.to_str(), None);
}

#[test]
fn equal_for_same_template_and_equal_values() {
    let owned = String::from("same");
    let a_entries = [Entry::Str("same"), Entry::U64(3)];
    let b_entries = [Entry::Str(owned.as_str()), Entry::U64(3)];
    let statics: &'static [&'static str] = &["a", "b", "c"];
    let a = DiffableArguments { static_segments: segments(9, statics), dynamic_segments: &a_entries };
    let b = DiffableArguments { static_segments: segments(9, statics), dynamic_segments: &b_entries };
    assert!(a == b);
    assert!(a == a);
}

#[test]
fn unequal_for_other_template_or_values() {
    let entries = [Entry::U64(3)];
    let other = [Entry::U64(4)];
    let kind = [Entry::Usize(3)];
    let a = DiffableArguments { static_segments: segments(1, &["x", "y"]), dynamic_segments: &entries };
    let b = DiffableArguments { static_segments: segments(2, &["x", "y"]), dynamic_segments: &entries };
    let c = DiffableArguments { static_segments: segments(1, &["x", "y"]), dynamic_segments: &other };
    let d = DiffableArguments { static_segments: segments(1, &["x", "y"]), dynamic_segments: &kind };
    assert!(a != b);
    assert!(a != c);
    assert!(a != d);
}

#[test]
fn entries_compare_by_content() {
    let owned = String::from("abc");
    assert!(Entry::Str("abc") == Entry::Str(owned.as_str()));
    assert!(Entry::Str("abc") != Entry::Str("abd"));
    assert!(Entry::Str("ab") != Entry::Str("abc"));
    assert!(Entry::Char('a') != Entry::Str("a"));
    assert!(Entry::I64(1) == Entry::I64(1));
}

#[test]
fn min_size_sums_static_bytes() {
    assert_eq!(min_size(&["hello ", ", ", " welcome"]), 16);
    assert_eq!(min_size(&[]), 0);
    assert_eq!(min_size(&["é"]), 2);
}
