//! Rendering of a template's static text interleaved with its dynamic values
//! into one string, with decimal digits written straight into the output.
use vstd::prelude::*;
use vstd::string::StringSliceAdditionalSpecFns;
use vstd::utf8::encode_utf8_decode_utf8;

use bumpalo::collections::String as BumpString;
use bumpalo::Bump;

verus! {

/// One dynamic value of a template.
#[derive(Debug, Clone, Copy)]
pub enum Entry<'a> {
    U64(u64),
    Usize(usize),
    I64(i64),
    Bool(bool),
    Char(char),
    Str(&'a str),
}

/// The static text of an interned template. Templates are interned by the
/// layer above: one `id` always comes with the same `segments`, so two
/// handles are compared by `id` alone.
#[derive(Debug, Clone, Copy)]
pub struct StaticSegments {
    pub id: u64,
    pub segments: &'static [&'static str],
}

/// A template's static segments together with the values of its slots:
/// segment 0, value 0, segment 1, value 1, ..., and the last segment.
#[derive(Debug, Clone, Copy)]
pub struct DiffableArguments<'a> {
    pub static_segments: StaticSegments,
    pub dynamic_segments: &'a [Entry<'a>],
}

pub open spec fn digit_char(d: nat) -> char {
    ((48 + d) as u8) as char
}

/// The decimal digits of `n`, most significant first, without leading zeros.
pub open spec fn decimal(n: nat) -> Seq<char>
    decreases n,
{
    if n < 10 {
        seq![digit_char(n)]
    } else {
        decimal(n / 10).push(digit_char(n % 10))
    }
}

/// The decimal text of an integer, with a minus sign when negative.
pub open spec fn int_text(v: int) -> Seq<char> {
    if v < 0 {
        seq!['-'] + decimal((-v) as nat)
    } else {
        decimal(v as nat)
    }
}

pub open spec fn bool_text(b: bool) -> Seq<char> {
    if b {
        "true"@
    } else {
        "false"@
    }
}

/// The text that the formatter writes for a value.
pub open spec fn entry_text(e: Entry<'_>) -> Seq<char> {
    match e {
        Entry::U64(u) => decimal(u as nat),
        Entry::Usize(u) => decimal(u as nat),
        Entry::I64(i) => int_text(i as int),
        Entry::Bool(b) => bool_text(b),
        Entry::Char(c) => seq![c],
        Entry::Str(s) => s@,
    }
}

/// The first `k` static segments, each followed by the text the formatter
/// writes for its value.
pub open spec fn rendered_prefix(statics: Seq<&str>, values: Seq<Entry<'_>>, k: nat) -> Seq<char>
    decreases k,
{
    if k == 0 {
        seq![]
    } else {
        rendered_prefix(statics, values, (k - 1) as nat) + statics[k - 1]@ + entry_text(
            values[k - 1],
        )
    }
}

/// What the formatter produces: the static segments interleaved with the
/// values' texts, ending with the last static segment.
pub open spec fn formatted(statics: Seq<&str>, values: Seq<Entry<'_>>) -> Seq<char> {
    rendered_prefix(statics, values, values.len()) + statics[values.len() as int]@
}

/// The straightforward concatenation, read from the front: the first static
/// segment, the text of the first value, then the same for the rest.
pub open spec fn interleaved(statics: Seq<&str>, values: Seq<Entry<'_>>) -> Seq<char>
    decreases values.len(),
{
    if values.len() == 0 {
        statics[0]@
    } else {
        statics[0]@ + entry_text(values[0]) + interleaved(statics.drop_first(), values.drop_first())
    }
}

/// The single-slot shape: two empty static segments around one string value.
pub open spec fn is_single_str(a: DiffableArguments<'_>) -> bool {
    &&& a.static_segments.segments@.len() == 2
    &&& a.static_segments.segments@[0]@.len() == 0
    &&& a.static_segments.segments@[1]@.len() == 0
    &&& a.dynamic_segments@.len() == 1
    &&& a.dynamic_segments@[0] is Str
}

/// The total byte length of the static segments.
pub open spec fn static_len(statics: Seq<&str>) -> nat
    decreases statics.len(),
{
    if statics.len() == 0 {
        0
    } else {
        static_len(statics.drop_last()) + statics.last().spec_bytes().len()
    }
}

/// Two values are equal when they are of one kind and hold equal contents.
pub open spec fn entries_equal(a: Entry<'_>, b: Entry<'_>) -> bool {
    match (a, b) {
        (Entry::U64(x), Entry::U64(y)) => x == y,
        (Entry::Usize(x), Entry::Usize(y)) => x == y,
        (Entry::I64(x), Entry::I64(y)) => x == y,
        (Entry::Bool(x), Entry::Bool(y)) => x == y,
        (Entry::Char(x), Entry::Char(y)) => x == y,
        (Entry::Str(x), Entry::Str(y)) => x@ == y@,
        _ => false,
    }
}

/// Two argument sets are equal when they come from the same interned
/// template and their values are equal one by one.
pub open spec fn arguments_equal(a: DiffableArguments<'_>, b: DiffableArguments<'_>) -> bool {
    &&& a.static_segments.id == b.static_segments.id
    &&& a.dynamic_segments@.len() == b.dynamic_segments@.len()
    &&& forall|i: int|
        0 <= i < a.dynamic_segments@.len() ==> entries_equal(
            #[trigger] a.dynamic_segments@[i],
            b.dynamic_segments@[i],
        )
}

#[verifier::external_type_specification]
#[verifier::external_body]
pub struct ExBump<const MIN_ALIGN: usize>(Bump<MIN_ALIGN>);

#[verifier::external_type_specification]
#[verifier::external_body]
pub struct ExBumpString<'bump>(BumpString<'bump>);

/// The characters that an arena-allocated string holds.
pub uninterp spec fn bump_chars(s: BumpString<'_>) -> Seq<char>;

/// Relies on bumpalo's `String::with_capacity_in`: an empty string in the
/// arena, with room for `capacity` bytes.
#[verifier::external_body]
fn bump_string_with_capacity<'b>(capacity: usize, bump: &'b Bump) -> (r: BumpString<'b>)
    requires
        capacity <= isize::MAX,
    ensures
        bump_chars(r) == Seq::<char>::empty(),
{
    BumpString::with_capacity_in(capacity, bump)
}

/// Relies on bumpalo's `String::push_str`: appends the characters of `s`.
#[verifier::external_body]
fn bump_push_str(into: &mut BumpString<'_>, s: &str)
    ensures
        bump_chars(*final(into)) == bump_chars(*old(into)) + s@,
{
    into.push_str(s);
}

/// Relies on bumpalo's `String::push`: appends one character.
#[verifier::external_body]
fn bump_push(into: &mut BumpString<'_>, c: char)
    ensures
        bump_chars(*final(into)) == bump_chars(*old(into)).push(c),
{
    into.push(c);
}

/// Appends the decimal digits of `n`, most significant first, without
/// allocating: the leading digits are written before the last one.
fn write_decimal(n: u128, into: &mut BumpString<'_>)
    ensures
        bump_chars(*final(into)) == bump_chars(*old(into)) + decimal(n as nat),
    decreases n,
{
    if n >= 10 {
        write_decimal(n / 10, into);
    }
    bump_push(into, (48u8 + (n % 10) as u8) as char);
    assert(bump_chars(*into) =~= bump_chars(*old(into)) + decimal(n as nat));
}

/// Appends a minus sign when `negative`, then the digits of `magnitude`.
fn write_signed(negative: bool, magnitude: u128, into: &mut BumpString<'_>)
    ensures
        bump_chars(*final(into)) == bump_chars(*old(into)) + if negative {
            seq!['-'] + decimal(magnitude as nat)
        } else {
            decimal(magnitude as nat)
        },
{
    if negative {
        bump_push(into, '-');
    }
    write_decimal(magnitude, into);
    assert(bump_chars(*into) =~= bump_chars(*old(into)) + if negative {
        seq!['-'] + decimal(magnitude as nat)
    } else {
        decimal(magnitude as nat)
    });
}


/// The text that a value of an integer type is written as.
pub trait Writable: Sized {
    /// The text that `write` appends.
    spec fn written_text(self) -> Seq<char>;

    /// Appends the value's text to `into`.
    fn write(self, into: &mut BumpString<'_>)
        ensures
            bump_chars(*final(into)) == bump_chars(*old(into)) + self.written_text(),
    ;
}

impl Writable for u8 {
    open spec fn written_text(self) -> Seq<char> {
        decimal(self as nat)
    }

    fn write(self, into: &mut BumpString<'_>) {
        write_decimal(self as u128, into);
    }
}

impl Writable for u16 {
    open spec fn written_text(self) -> Seq<char> {
        decimal(self as nat)
    }

    fn write(self, into: &mut BumpString<'_>) {
        write_decimal(self as u128, into);
    }
}

impl Writable for u32 {
    open spec fn written_text(self) -> Seq<char> {
        decimal(self as nat)
    }

    fn write(self, into: &mut BumpString<'_>) {
        write_decimal(self as u128, into);
    }
}

impl Writable for u64 {
    open spec fn written_text(self) -> Seq<char> {
        decimal(self as nat)
    }

    fn write(self, into: &mut BumpString<'_>) {
        write_decimal(self as u128, into);
    }
}

impl Writable for u128 {
    open spec fn written_text(self) -> Seq<char> {
        decimal(self as nat)
    }

    fn write(self, into: &mut BumpString<'_>) {
        write_decimal(self, into);
    }
}

impl Writable for usize {
    open spec fn written_text(self) -> Seq<char> {
        decimal(self as nat)
    }

    fn write(self, into: &mut BumpString<'_>) {
        write_decimal(self as u128, into);
    }
}

impl Writable for i8 {
    open spec fn written_text(self) -> Seq<char> {
        int_text(self as int)
    }

    fn write(self, into: &mut BumpString<'_>) {
        let negative = self < 0;
        let magnitude: u128 = if !negative {
            self as u128
        } else if self == i8::MIN {
            (i8::MAX as u128) + 1
        } else {
            (-self) as u128
        };
        write_signed(negative, magnitude, into);
    }
}

impl Writable for i16 {
    open spec fn written_text(self) -> Seq<char> {
        int_text(self as int)
    }

    fn write(self, into: &mut BumpString<'_>) {
        let negative = self < 0;
        let magnitude: u128 = if !negative {
            self as u128
        } else if self == i16::MIN {
            (i16::MAX as u128) + 1
        } else {
            (-self) as u128
        };
        write_signed(negative, magnitude, into);
    }
}

impl Writable for i32 {
    open spec fn written_text(self) -> Seq<char> {
        int_text(self as int)
    }

    fn write(self, into: &mut BumpString<'_>) {
        let negative = self < 0;
        let magnitude: u128 = if !negative {
            self as u128
        } else if self == i32::MIN {
            (i32::MAX as u128) + 1
        } else {
            (-self) as u128
        };
        write_signed(negative, magnitude, into);
    }
}

impl Writable for i64 {
    open spec fn written_text(self) -> Seq<char> {
        int_text(self as int)
    }

    fn write(self, into: &mut BumpString<'_>) {
        let negative = self < 0;
        let magnitude: u128 = if !negative {
            self as u128
        } else if self == i64::MIN {
            (i64::MAX as u128) + 1
        } else {
            (-self) as u128
        };
        write_signed(negative, magnitude, into);
    }
}

impl Writable for i128 {
    open spec fn written_text(self) -> Seq<char> {
        int_text(self as int)
    }

    fn write(self, into: &mut BumpString<'_>) {
        let negative = self < 0;
        let magnitude: u128 = if !negative {
            self as u128
        } else if self == i128::MIN {
            (i128::MAX as u128) + 1
        } else {
            (-self) as u128
        };
        write_signed(negative, magnitude, into);
    }
}

impl Writable for isize {
    open spec fn written_text(self) -> Seq<char> {
        int_text(self as int)
    }

    fn write(self, into: &mut BumpString<'_>) {
        let negative = self < 0;
        let magnitude: u128 = if !negative {
            self as u128
        } else if self == isize::MIN {
            (isize::MAX as u128) + 1
        } else {
            (-self) as u128
        };
        write_signed(negative, magnitude, into);
    }
}


/// Conversion of a value into a template slot.
pub trait IntoEntry<'a>: Sized {
    /// The slot that `into_entry` makes.
    spec fn spec_entry(self) -> Entry<'a>;

    fn into_entry(self) -> (e: Entry<'a>)
        ensures
            e == self.spec_entry(),
    ;
}

impl<'a> IntoEntry<'a> for &'a str {
    open spec fn spec_entry(self) -> Entry<'a> {
        Entry::Str(self)
    }

    fn into_entry(self) -> Entry<'a> {
        Entry::Str(self)
    }
}

impl<'a> IntoEntry<'a> for u64 {
    open spec fn spec_entry(self) -> Entry<'a> {
        Entry::U64(self)
    }

    fn into_entry(self) -> Entry<'a> {
        Entry::U64(self)
    }
}

impl<'a> IntoEntry<'a> for u32 {
    open spec fn spec_entry(self) -> Entry<'a> {
        Entry::U64(self as u64)
    }

    fn into_entry(self) -> Entry<'a> {
        Entry::U64(self as u64)
    }
}

impl<'a> IntoEntry<'a> for u16 {
    open spec fn spec_entry(self) -> Entry<'a> {
        Entry::U64(self as u64)
    }

    fn into_entry(self) -> Entry<'a> {
        Entry::U64(self as u64)
    }
}

impl<'a> IntoEntry<'a> for u8 {
    open spec fn spec_entry(self) -> Entry<'a> {
        Entry::U64(self as u64)
    }

    fn into_entry(self) -> Entry<'a> {
        Entry::U64(self as u64)
    }
}

impl<'a> IntoEntry<'a> for usize {
    open spec fn spec_entry(self) -> Entry<'a> {
        Entry::Usize(self)
    }

    fn into_entry(self) -> Entry<'a> {
        Entry::Usize(self)
    }
}

impl<'a> IntoEntry<'a> for i64 {
    open spec fn spec_entry(self) -> Entry<'a> {
        Entry::I64(self)
    }

    fn into_entry(self) -> Entry<'a> {
        Entry::I64(self)
    }
}

impl<'a> IntoEntry<'a> for i32 {
    open spec fn spec_entry(self) -> Entry<'a> {
        Entry::I64(self as i64)
    }

    fn into_entry(self) -> Entry<'a> {
        Entry::I64(self as i64)
    }
}

impl<'a> IntoEntry<'a> for i16 {
    open spec fn spec_entry(self) -> Entry<'a> {
        Entry::I64(self as i64)
    }

    fn into_entry(self) -> Entry<'a> {
        Entry::I64(self as i64)
    }
}

impl<'a> IntoEntry<'a> for i8 {
    open spec fn spec_entry(self) -> Entry<'a> {
        Entry::I64(self as i64)
    }

    fn into_entry(self) -> Entry<'a> {
        Entry::I64(self as i64)
    }
}

impl<'a> IntoEntry<'a> for bool {
    open spec fn spec_entry(self) -> Entry<'a> {
        Entry::Bool(self)
    }

    fn into_entry(self) -> Entry<'a> {
        Entry::Bool(self)
    }
}

impl<'a> IntoEntry<'a> for char {
    open spec fn spec_entry(self) -> Entry<'a> {
        Entry::Char(self)
    }

    fn into_entry(self) -> Entry<'a> {
        Entry::Char(self)
    }
}

/// Appends the text of one value.
fn write_entry(e: &Entry<'_>, into: &mut BumpString<'_>)
    ensures
        bump_chars(*final(into)) == bump_chars(*old(into)) + entry_text(*e),
{
    match e {
        Entry::U64(u) => u.write(into),
        Entry::Usize(u) => u.write(into),
        Entry::I64(i) => i.write(into),
        Entry::Bool(b) => {
            proof {
                reveal_strlit("true");
                reveal_strlit("false");
            }
            if *b {
                bump_push_str(into, "true");
            } else {
                bump_push_str(into, "false");
            }
        },
        Entry::Char(c) => bump_push(into, *c),
        Entry::Str(s) => bump_push_str(into, s),
    }
}

/// Whether two strings hold the same characters, compared byte by byte.
fn str_equal(a: &str, b: &str) -> (r: bool)
    ensures
        r == (a@ == b@),
{
    let x = a.as_bytes();
    let y = b.as_bytes();
    proof {
        encode_utf8_decode_utf8(a@);
        encode_utf8_decode_utf8(b@);
    }
    if x.len() != y.len() {
        return false;
    }
    let mut i: usize = 0;
    while i < x.len()
        invariant
            x@.len() == y@.len(),
            x@ == a.spec_bytes(),
            y@ == b.spec_bytes(),
            i <= x@.len(),
            forall|j: int| 0 <= j < i ==> x@[j] == y@[j],
        decreases x@.len() - i,
    {
        if x[i] != y[i] {
            return false;
        }
        i = i + 1;
    }
    assert(x@ =~= y@);
    true
}

/// Whether two values are equal: of one kind, with equal contents.
fn entry_equal(a: &Entry<'_>, b: &Entry<'_>) -> (r: bool)
    ensures
        r == entries_equal(*a, *b),
{
    match (a, b) {
        (Entry::U64(x), Entry::U64(y)) => *x == *y,
        (Entry::Usize(x), Entry::Usize(y)) => *x == *y,
        (Entry::I64(x), Entry::I64(y)) => *x == *y,
        (Entry::Bool(x), Entry::Bool(y)) => *x == *y,
        (Entry::Char(x), Entry::Char(y)) => *x == *y,
        (Entry::Str(x), Entry::Str(y)) => str_equal(x, y),
        _ => false,
    }
}

impl<'a> PartialEq for Entry<'a> {
    fn eq(&self, other: &Self) -> (r: bool) {
        entry_equal(self, other)
    }
}

impl<'a> vstd::std_specs::cmp::PartialEqSpecImpl for Entry<'a> {
    open spec fn obeys_eq_spec() -> bool {
        true
    }

    open spec fn eq_spec(&self, other: &Self) -> bool {
        entries_equal(*self, *other)
    }
}

proof fn lemma_static_len_prefix(statics: Seq<&str>, k: int)
    requires
        0 <= k <= statics.len(),
    ensures
        static_len(statics.take(k)) <= static_len(statics),
    decreases statics.len() - k,
{
    if k < statics.len() {
        lemma_static_len_prefix(statics, k + 1);
        assert(statics.take(k + 1).drop_last() =~= statics.take(k));
    } else {
        assert(statics.take(k) =~= statics);
    }
}

/// The total byte length of the static segments: a tight lower bound on the
/// length of the formatted text.
pub fn min_size(slice: &[&str]) -> (size: usize)
    requires
        static_len(slice@) <= usize::MAX,
    ensures
        size == static_len(slice@),
{
    let mut idx: usize = 0;
    let mut size: usize = 0;
    assert(slice@.take(0) =~= Seq::<&str>::empty());
    while idx < slice.len()
        invariant
            idx <= slice@.len(),
            size == static_len(slice@.take(idx as int)),
            static_len(slice@) <= usize::MAX,
        decreases slice@.len() - idx,
    {
        let s = slice[idx];
        proof {
            assert(slice@.take(idx + 1).drop_last() =~= slice@.take(idx as int));
            lemma_static_len_prefix(slice@, idx + 1);
        }
        size = size + s.len();
        idx = idx + 1;
    }
    assert(slice@.take(slice@.len() as int) =~= slice@);
    size
}

impl<'a> DiffableArguments<'a> {
    /// The single string value, borrowed, when the arguments are exactly two
    /// empty static segments around one string value; the text is then what
    /// `to_bump_str` would build.
    pub fn to_str(&self) -> (r: Option<&'a str>)
        ensures
            r is Some <==> is_single_str(*self),
            r matches Some(s) ==> self.dynamic_segments@[0] == Entry::Str(s) && s@ == formatted(
                self.static_segments.segments@,
                self.dynamic_segments@,
            ),
    {
        let segments = self.static_segments.segments;
        if segments.len() == 2 && self.dynamic_segments.len() == 1 && segments[0].is_empty()
            && segments[1].is_empty() {
            match self.dynamic_segments[0] {
                Entry::Str(s) => {
                    proof {
                        reveal_with_fuel(rendered_prefix, 2);
                        assert(formatted(segments@, self.dynamic_segments@) =~= s@);
                    }
                    Some(s)
                },
                _ => None,
            }
        } else {
            None
        }
    }

    /// Renders the static segments interleaved with the values' texts into
    /// one string in `bump`, allocated with room for the static text.
    pub fn to_bump_str<'b>(self, bump: &'b Bump) -> (r: BumpString<'b>)
        requires
            self.static_segments.segments@.len() == self.dynamic_segments@.len() + 1,
            static_len(self.static_segments.segments@) <= isize::MAX,
        ensures
            bump_chars(r) == formatted(self.static_segments.segments@, self.dynamic_segments@),
    {
        let statics = self.static_segments.segments;
        let values = self.dynamic_segments;
        let mut out = bump_string_with_capacity(min_size(statics), bump);
        let mut i: usize = 0;
        while i < values.len()
            invariant
                statics@.len() == values@.len() + 1,
                i <= values@.len(),
                bump_chars(out) == rendered_prefix(statics@, values@, i as nat),
            decreases values@.len() - i,
        {
            bump_push_str(&mut out, statics[i]);
            write_entry(&values[i], &mut out);
            i = i + 1;
        }
        bump_push_str(&mut out, statics[values.len()]);
        out
    }
}

impl<'a> PartialEq for DiffableArguments<'a> {
    /// Equal when both come from the same interned template and their values
    /// are equal one by one.
    fn eq(&self, other: &Self) -> (r: bool) {
        if self.static_segments.id != other.static_segments.id {
            return false;
        }
        if self.dynamic_segments.len() != other.dynamic_segments.len() {
            return false;
        }
        let mut i: usize = 0;
        while i < self.dynamic_segments.len()
            invariant
                self.dynamic_segments@.len() == other.dynamic_segments@.len(),
                i <= self.dynamic_segments@.len(),
                forall|j: int|
                    0 <= j < i ==> entries_equal(
                        #[trigger] self.dynamic_segments@[j],
                        other.dynamic_segments@[j],
                    ),
            decreases self.dynamic_segments@.len() - i,
        {
            if !entry_equal(&self.dynamic_segments[i], &other.dynamic_segments[i]) {
                return false;
            }
            i = i + 1;
        }
        true
    }
}

impl<'a> vstd::std_specs::cmp::PartialEqSpecImpl for DiffableArguments<'a> {
    open spec fn obeys_eq_spec() -> bool {
        true
    }

    open spec fn eq_spec(&self, other: &Self) -> bool {
        arguments_equal(*self, *other)
    }
}

proof fn lemma_prefix_first(statics: Seq<&str>, values: Seq<Entry<'_>>, k: nat)
    requires
        1 <= k <= values.len(),
        statics.len() == values.len() + 1,
    ensures
        rendered_prefix(statics, values, k) == statics[0]@ + entry_text(values[0])
            + rendered_prefix(statics.drop_first(), values.drop_first(), (k - 1) as nat),
    decreases k,
{
    if k == 1 {
        assert(rendered_prefix(statics, values, 0) == Seq::<char>::empty());
        assert(rendered_prefix(statics.drop_first(), values.drop_first(), 0) == Seq::<char>::empty());
        assert(rendered_prefix(statics, values, 1) =~= statics[0]@ + entry_text(values[0]));
    } else {
        lemma_prefix_first(statics, values, (k - 1) as nat);
        assert(statics.drop_first()[k - 2] == statics[k - 1]);
        assert(values.drop_first()[k - 2] == values[k - 1]);
        assert(rendered_prefix(statics, values, k) =~= statics[0]@ + entry_text(values[0])
            + rendered_prefix(statics.drop_first(), values.drop_first(), (k - 1) as nat));
    }
}

/// Formatting gives exactly the straightforward interleaving: the first
/// static segment, the text of the first value, then the rest in the same
/// way. Every integer is written with its own sign and magnitude, the least
/// value of each width included.
pub proof fn lemma_format_round_trip(statics: Seq<&str>, values: Seq<Entry<'_>>)
    requires
        statics.len() == values.len() + 1,
    ensures
        formatted(statics, values) == interleaved(statics, values),
        forall|i: int|
            0 <= i < values.len() ==> (#[trigger] values[i] matches Entry::I64(v) ==> entry_text(
                values[i],
            ) == if v < 0 {
                seq!['-'] + decimal((-v) as nat)
            } else {
                decimal(v as nat)
            }),
    decreases values.len(),
{
    if values.len() > 0 {
        lemma_format_round_trip(statics.drop_first(), values.drop_first());
        lemma_prefix_first(statics, values, values.len());
        assert(statics.drop_first()[values.len() - 1] == statics[values.len() as int]);
        assert(formatted(statics, values) =~= interleaved(statics, values));
    } else {
        assert(formatted(statics, values) =~= interleaved(statics, values));
    }
}

/// Argument sets of one template whose values are equal one by one are
/// equal; argument sets of two different templates are unequal whatever
/// text their segments hold; and strings compare by content.
pub proof fn lemma_equality_consistency(a: DiffableArguments<'_>, b: DiffableArguments<'_>)
    ensures
        (a.static_segments.id == b.static_segments.id && a.dynamic_segments@.len()
            == b.dynamic_segments@.len() && forall|i: int|
            0 <= i < a.dynamic_segments@.len() ==> entries_equal(
                #[trigger] a.dynamic_segments@[i],
                b.dynamic_segments@[i],
            )) ==> arguments_equal(a, b),
        a.static_segments.id != b.static_segments.id ==> !arguments_equal(a, b),
        arguments_equal(a, a),
        forall|x: &str, y: &str| #[trigger] entries_equal(Entry::Str(x), Entry::Str(y)) <==> x@ == y@,
{
}

} // verus!
