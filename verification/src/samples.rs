//! Cell types written out by hand, field by field and variant by variant:
//! a record that holds text, a record of no fields that marks a user input,
//! and sums with and without payloads, each with the variant it defaults
//! to.

use crate::codec::{encoding, Format, OnChain};
use crate::le::lemma_digits_len;
use crate::record::{
    default_or, field_default, lemma_pair_round_trip, pair_body, pair_fixed_size, pair_parse,
    pair_width, put_field, read_pair, seal,
};
use crate::sum::{
    carried, lemma_variant_carried, lemma_variant_tag, read_carried, read_tag, variant_body,
    variant_tag, write_bare, write_carrying,
};
use vstd::prelude::*;

verus! {

/// A person: an age and a name.
pub struct Person {
    pub age: u16,
    pub name: String,
}

impl DeepView for Person {
    type V = (u16, Seq<char>);

    open spec fn deep_view(&self) -> (u16, Seq<char>) {
        (self.age, self.name@)
    }
}

impl Person {
    /// A person of the given fields.
    pub fn onchain_new(age: u16, name: String) -> (r: Person)
        ensures
            r.deep_view() == (age, name@),
    {
        Person { age, name }
    }
}

/// The default person is the composition of its fields' defaults.
pub proof fn lemma_person_default()
    ensures
        Person::default_value() == (u16::default_value(), String::default_value()),
{
}

impl Format for Person {
    open spec fn fixed_width() -> Option<u64> {
        pair_width::<u16, String>()
    }

    open spec fn body(v: (u16, Seq<char>)) -> Seq<u8> {
        pair_body::<u16, String>(v.0, v.1)
    }

    open spec fn parse(bytes: Seq<u8>) -> Option<(u16, Seq<char>)> {
        pair_parse::<u16, String>(bytes)
    }

    open spec fn default_value() -> (u16, Seq<char>) {
        (default_or::<u16>(None), default_or::<String>(None))
    }

    open spec fn encodable(v: (u16, Seq<char>)) -> bool {
        &&& String::encodable(v.1)
        &&& pair_body::<u16, String>(v.0, v.1).len() <= u64::MAX
    }

    open spec fn logical_id() -> Option<Seq<char>> {
        Some("person"@)
    }

    open spec fn user_input() -> bool {
        false
    }

    proof fn lemma_round_trip(v: (u16, Seq<char>)) {
        lemma_pair_round_trip::<u16, String>(v.0, v.1);
    }
}

impl OnChain for Person {
    fn _capacity(&self) -> u64 {
        proof {
            lemma_digits_len(pair_body::<u16, String>(self.age, self.name@).len(), 8);
        }
        8 + self.age._capacity() + self.name._capacity()
    }

    fn _id() -> Option<&'static str> {
        Some("person")
    }

    fn _to_bytes(&self) -> Vec<u8> {
        let mut result: Vec<u8> = Vec::new();
        put_field::<u16>(&mut result, &self.age);
        put_field::<String>(&mut result, &self.name);
        seal(Person::_fixed_size(), result)
    }

    fn _from_bytes(bytes: &[u8]) -> Option<Self> {
        match read_pair::<u16, String>(bytes) {
            Some((age, name)) => Some(Person { age, name }),
            None => None,
        }
    }

    fn _fixed_size() -> Option<u64> {
        pair_fixed_size::<u16, String>()
    }

    fn _eq(&self, other: &Self) -> bool {
        if !self.age._eq(&other.age) {
            return false;
        }
        if !self.name._eq(&other.name) {
            return false;
        }
        true
    }

    fn _default() -> Self {
        Person { age: field_default::<u16>(None), name: field_default::<String>(None) }
    }

    fn _user_input() -> bool {
        false
    }
}

/// A record of no fields, for a contract that takes a user input and reads
/// nothing from it. It takes no bytes.
pub struct Test {}

impl DeepView for Test {
    type V = ();

    open spec fn deep_view(&self) -> () {
        ()
    }
}

impl Format for Test {
    open spec fn fixed_width() -> Option<u64> {
        Some(0)
    }

    open spec fn body(v: ()) -> Seq<u8> {
        Seq::empty()
    }

    open spec fn parse(bytes: Seq<u8>) -> Option<()> {
        Some(())
    }

    open spec fn default_value() -> () {
        ()
    }

    open spec fn encodable(v: ()) -> bool {
        true
    }

    open spec fn logical_id() -> Option<Seq<char>> {
        None
    }

    open spec fn user_input() -> bool {
        true
    }

    proof fn lemma_round_trip(v: ()) {
    }
}

impl OnChain for Test {
    fn _capacity(&self) -> u64 {
        0
    }

    fn _id() -> Option<&'static str> {
        None
    }

    fn _to_bytes(&self) -> Vec<u8> {
        seal(Test::_fixed_size(), Vec::new())
    }

    fn _from_bytes(bytes: &[u8]) -> Option<Self> {
        Some(Test {})
    }

    fn _fixed_size() -> Option<u64> {
        Some(0)
    }

    fn _eq(&self, other: &Self) -> bool {
        true
    }

    fn _default() -> Self {
        Test {}
    }

    fn _user_input() -> bool {
        true
    }
}

/// A sum of a text, a number and nothing.
pub enum EnumTest {
    AA(String),
    BB(u32),
    CC,
}

/// What a value of `EnumTest` is, as plain values.
pub enum EnumTestView {
    AA(Seq<char>),
    BB(u32),
    CC,
}

impl DeepView for EnumTest {
    type V = EnumTestView;

    open spec fn deep_view(&self) -> EnumTestView {
        match self {
            EnumTest::AA(x) => EnumTestView::AA(x.deep_view()),
            EnumTest::BB(x) => EnumTestView::BB(x.deep_view()),
            EnumTest::CC => EnumTestView::CC,
        }
    }
}

impl EnumTest {
    /// An index that names no variant does not decode.
    pub proof fn lemma_unknown_tag(bytes: Seq<u8>)
        requires
            variant_tag(bytes) matches Some((tag, _)) && tag >= 3,
        ensures
            Self::parse(bytes) is None,
    {
    }
}

impl Format for EnumTest {
    open spec fn fixed_width() -> Option<u64> {
        None
    }

    open spec fn body(v: EnumTestView) -> Seq<u8> {
        match v {
            EnumTestView::AA(x) => variant_body(0, encoding::<String>(x)),
            EnumTestView::BB(x) => variant_body(1, encoding::<u32>(x)),
            EnumTestView::CC => variant_body(2, Seq::empty()),
        }
    }

    open spec fn parse(bytes: Seq<u8>) -> Option<EnumTestView> {
        match variant_tag(bytes) {
            Some((tag, rest)) => {
                if tag == 0 {
                    match carried::<String>(rest) {
                        Some(x) => Some(EnumTestView::AA(x)),
                        None => None,
                    }
                } else if tag == 1 {
                    match carried::<u32>(rest) {
                        Some(x) => Some(EnumTestView::BB(x)),
                        None => None,
                    }
                } else if tag == 2 {
                    Some(EnumTestView::CC)
                } else {
                    None
                }
            },
            None => None,
        }
    }

    /// The variant that carries nothing is the default.
    open spec fn default_value() -> EnumTestView {
        EnumTestView::CC
    }

    open spec fn encodable(v: EnumTestView) -> bool {
        &&& Self::body(v).len() <= u64::MAX
        &&& match v {
            EnumTestView::AA(x) => String::encodable(x),
            EnumTestView::BB(x) => u32::encodable(x),
            EnumTestView::CC => true,
        }
    }

    open spec fn logical_id() -> Option<Seq<char>> {
        None
    }

    open spec fn user_input() -> bool {
        false
    }

    proof fn lemma_round_trip(v: EnumTestView) {
        match v {
            EnumTestView::AA(x) => {
                lemma_variant_carried::<String>(0, x);
            },
            EnumTestView::BB(x) => {
                lemma_variant_carried::<u32>(1, x);
            },
            EnumTestView::CC => {
                lemma_variant_tag(2, Seq::empty());
            },
        }
    }
}

impl OnChain for EnumTest {
    fn _capacity(&self) -> u64 {
        proof {
            lemma_digits_len(Self::body(self.deep_view()).len(), 8);
        }
        match self {
            EnumTest::AA(x) => {
                proof {
                    lemma_variant_tag(0, encoding::<String>(x.deep_view()));
                }
                9 + x._capacity()
            },
            EnumTest::BB(x) => {
                proof {
                    lemma_variant_tag(1, encoding::<u32>(x.deep_view()));
                }
                9 + x._capacity()
            },
            EnumTest::CC => {
                proof {
                    lemma_variant_tag(2, Seq::empty());
                }
                9
            },
        }
    }

    fn _id() -> Option<&'static str> {
        None
    }

    fn _to_bytes(&self) -> Vec<u8> {
        match self {
            EnumTest::AA(x) => write_carrying::<String>(0, x),
            EnumTest::BB(x) => write_carrying::<u32>(1, x),
            EnumTest::CC => write_bare(2),
        }
    }

    fn _from_bytes(bytes: &[u8]) -> Option<Self> {
        match read_tag(bytes) {
            Some((tag, rest)) => {
                if tag == 0 {
                    match read_carried::<String>(rest) {
                        Some(x) => Some(EnumTest::AA(x)),
                        None => None,
                    }
                } else if tag == 1 {
                    match read_carried::<u32>(rest) {
                        Some(x) => Some(EnumTest::BB(x)),
                        None => None,
                    }
                } else if tag == 2 {
                    Some(EnumTest::CC)
                } else {
                    None
                }
            },
            None => None,
        }
    }

    fn _fixed_size() -> Option<u64> {
        None
    }

    fn _eq(&self, other: &Self) -> bool {
        match (self, other) {
            (EnumTest::AA(a), EnumTest::AA(b)) => a._eq(b),
            (EnumTest::BB(a), EnumTest::BB(b)) => a._eq(b),
            (EnumTest::CC, EnumTest::CC) => true,
            _ => false,
        }
    }

    fn _default() -> Self {
        EnumTest::CC
    }

    fn _user_input() -> bool {
        false
    }
}

/// A sum of three variants that carry nothing.
pub enum EnumTest1 {
    AA,
    BB,
    CC,
}

/// What a value of `EnumTest1` is, as plain values.
pub enum EnumTest1View {
    AA,
    BB,
    CC,
}

impl DeepView for EnumTest1 {
    type V = EnumTest1View;

    open spec fn deep_view(&self) -> EnumTest1View {
        match self {
            EnumTest1::AA => EnumTest1View::AA,
            EnumTest1::BB => EnumTest1View::BB,
            EnumTest1::CC => EnumTest1View::CC,
        }
    }
}

impl EnumTest1 {
    /// An index that names no variant does not decode.
    pub proof fn lemma_unknown_tag(bytes: Seq<u8>)
        requires
            variant_tag(bytes) matches Some((tag, _)) && tag >= 3,
        ensures
            Self::parse(bytes) is None,
    {
    }
}

impl Format for EnumTest1 {
    open spec fn fixed_width() -> Option<u64> {
        None
    }

    open spec fn body(v: EnumTest1View) -> Seq<u8> {
        match v {
            EnumTest1View::AA => variant_body(0, Seq::empty()),
            EnumTest1View::BB => variant_body(1, Seq::empty()),
            EnumTest1View::CC => variant_body(2, Seq::empty()),
        }
    }

    open spec fn parse(bytes: Seq<u8>) -> Option<EnumTest1View> {
        match variant_tag(bytes) {
            Some((tag, rest)) => {
                if tag == 0 {
                    Some(EnumTest1View::AA)
                } else if tag == 1 {
                    Some(EnumTest1View::BB)
                } else if tag == 2 {
                    Some(EnumTest1View::CC)
                } else {
                    None
                }
            },
            None => None,
        }
    }

    /// The second variant is the default.
    open spec fn default_value() -> EnumTest1View {
        EnumTest1View::BB
    }

    open spec fn encodable(v: EnumTest1View) -> bool {
        &&& Self::body(v).len() <= u64::MAX
        &&& match v {
            EnumTest1View::AA => true,
            EnumTest1View::BB => true,
            EnumTest1View::CC => true,
        }
    }

    open spec fn logical_id() -> Option<Seq<char>> {
        None
    }

    open spec fn user_input() -> bool {
        false
    }

    proof fn lemma_round_trip(v: EnumTest1View) {
        match v {
            EnumTest1View::AA => {
                lemma_variant_tag(0, Seq::empty());
            },
            EnumTest1View::BB => {
                lemma_variant_tag(1, Seq::empty());
            },
            EnumTest1View::CC => {
                lemma_variant_tag(2, Seq::empty());
            },
        }
    }
}

impl OnChain for EnumTest1 {
    fn _capacity(&self) -> u64 {
        proof {
            lemma_digits_len(Self::body(self.deep_view()).len(), 8);
        }
        match self {
            EnumTest1::AA => {
                proof {
                    lemma_variant_tag(0, Seq::empty());
                }
                9
            },
            EnumTest1::BB => {
                proof {
                    lemma_variant_tag(1, Seq::empty());
                }
                9
            },
            EnumTest1::CC => {
                proof {
                    lemma_variant_tag(2, Seq::empty());
                }
                9
            },
        }
    }

    fn _id() -> Option<&'static str> {
        None
    }

    fn _to_bytes(&self) -> Vec<u8> {
        match self {
            EnumTest1::AA => write_bare(0),
            EnumTest1::BB => write_bare(1),
            EnumTest1::CC => write_bare(2),
        }
    }

    fn _from_bytes(bytes: &[u8]) -> Option<Self> {
        match read_tag(bytes) {
            Some((tag, rest)) => {
                if tag == 0 {
                    Some(EnumTest1::AA)
                } else if tag == 1 {
                    Some(EnumTest1::BB)
                } else if tag == 2 {
                    Some(EnumTest1::CC)
                } else {
                    None
                }
            },
            None => None,
        }
    }

    fn _fixed_size() -> Option<u64> {
        None
    }

    fn _eq(&self, other: &Self) -> bool {
        match (self, other) {
            (EnumTest1::AA, EnumTest1::AA) => true,
            (EnumTest1::BB, EnumTest1::BB) => true,
            (EnumTest1::CC, EnumTest1::CC) => true,
            _ => false,
        }
    }

    fn _default() -> Self {
        EnumTest1::BB
    }

    fn _user_input() -> bool {
        false
    }
}

/// A sum whose default variant carries an explicit default.
pub enum EnumTest2 {
    AA(u8),
    BB(u32),
    CC,
}

/// What a value of `EnumTest2` is, as plain values.
pub enum EnumTest2View {
    AA(u8),
    BB(u32),
    CC,
}

impl DeepView for EnumTest2 {
    type V = EnumTest2View;

    open spec fn deep_view(&self) -> EnumTest2View {
        match self {
            EnumTest2::AA(x) => EnumTest2View::AA(x.deep_view()),
            EnumTest2::BB(x) => EnumTest2View::BB(x.deep_view()),
            EnumTest2::CC => EnumTest2View::CC,
        }
    }
}

impl EnumTest2 {
    /// An index that names no variant does not decode.
    pub proof fn lemma_unknown_tag(bytes: Seq<u8>)
        requires
            variant_tag(bytes) matches Some((tag, _)) && tag >= 3,
        ensures
            Self::parse(bytes) is None,
    {
    }
}

impl Format for EnumTest2 {
    open spec fn fixed_width() -> Option<u64> {
        None
    }

    open spec fn body(v: EnumTest2View) -> Seq<u8> {
        match v {
            EnumTest2View::AA(x) => variant_body(0, encoding::<u8>(x)),
            EnumTest2View::BB(x) => variant_body(1, encoding::<u32>(x)),
            EnumTest2View::CC => variant_body(2, Seq::empty()),
        }
    }

    open spec fn parse(bytes: Seq<u8>) -> Option<EnumTest2View> {
        match variant_tag(bytes) {
            Some((tag, rest)) => {
                if tag == 0 {
                    match carried::<u8>(rest) {
                        Some(x) => Some(EnumTest2View::AA(x)),
                        None => None,
                    }
                } else if tag == 1 {
                    match carried::<u32>(rest) {
                        Some(x) => Some(EnumTest2View::BB(x)),
                        None => None,
                    }
                } else if tag == 2 {
                    Some(EnumTest2View::CC)
                } else {
                    None
                }
            },
            None => None,
        }
    }

    /// The second variant is the default, and carries 4.
    open spec fn default_value() -> EnumTest2View {
        EnumTest2View::BB(default_or::<u32>(Some(4u32)))
    }

    open spec fn encodable(v: EnumTest2View) -> bool {
        &&& Self::body(v).len() <= u64::MAX
        &&& match v {
            EnumTest2View::AA(x) => u8::encodable(x),
            EnumTest2View::BB(x) => u32::encodable(x),
            EnumTest2View::CC => true,
        }
    }

    open spec fn logical_id() -> Option<Seq<char>> {
        None
    }

    open spec fn user_input() -> bool {
        false
    }

    proof fn lemma_round_trip(v: EnumTest2View) {
        match v {
            EnumTest2View::AA(x) => {
                lemma_variant_carried::<u8>(0, x);
            },
            EnumTest2View::BB(x) => {
                lemma_variant_carried::<u32>(1, x);
            },
            EnumTest2View::CC => {
                lemma_variant_tag(2, Seq::empty());
            },
        }
    }
}

impl OnChain for EnumTest2 {
    fn _capacity(&self) -> u64 {
        proof {
            lemma_digits_len(Self::body(self.deep_view()).len(), 8);
        }
        match self {
            EnumTest2::AA(x) => {
                proof {
                    lemma_variant_tag(0, encoding::<u8>(x.deep_view()));
                }
                9 + x._capacity()
            },
            EnumTest2::BB(x) => {
                proof {
                    lemma_variant_tag(1, encoding::<u32>(x.deep_view()));
                }
                9 + x._capacity()
            },
            EnumTest2::CC => {
                proof {
                    lemma_variant_tag(2, Seq::empty());
                }
                9
            },
        }
    }

    fn _id() -> Option<&'static str> {
        None
    }

    fn _to_bytes(&self) -> Vec<u8> {
        match self {
            EnumTest2::AA(x) => write_carrying::<u8>(0, x),
            EnumTest2::BB(x) => write_carrying::<u32>(1, x),
            EnumTest2::CC => write_bare(2),
        }
    }

    fn _from_bytes(bytes: &[u8]) -> Option<Self> {
        match read_tag(bytes) {
            Some((tag, rest)) => {
                if tag == 0 {
                    match read_carried::<u8>(rest) {
                        Some(x) => Some(EnumTest2::AA(x)),
                        None => None,
                    }
                } else if tag == 1 {
                    match read_carried::<u32>(rest) {
                        Some(x) => Some(EnumTest2::BB(x)),
                        None => None,
                    }
                } else if tag == 2 {
                    Some(EnumTest2::CC)
                } else {
                    None
                }
            },
            None => None,
        }
    }

    fn _fixed_size() -> Option<u64> {
        None
    }

    fn _eq(&self, other: &Self) -> bool {
        match (self, other) {
            (EnumTest2::AA(a), EnumTest2::AA(b)) => a._eq(b),
            (EnumTest2::BB(a), EnumTest2::BB(b)) => a._eq(b),
            (EnumTest2::CC, EnumTest2::CC) => true,
            _ => false,
        }
    }

    fn _default() -> Self {
        EnumTest2::BB(field_default::<u32>(Some(4)))
    }

    fn _user_input() -> bool {
        false
    }
}

/// A sum whose default variant carries the default of its payload.
pub enum EnumTest3 {
    AA(u8),
    BB(u32),
    CC,
}

/// What a value of `EnumTest3` is, as plain values.
pub enum EnumTest3View {
    AA(u8),
    BB(u32),
    CC,
}

impl DeepView for EnumTest3 {
    type V = EnumTest3View;

    open spec fn deep_view(&self) -> EnumTest3View {
        match self {
            EnumTest3::AA(x) => EnumTest3View::AA(x.deep_view()),
            EnumTest3::BB(x) => EnumTest3View::BB(x.deep_view()),
            EnumTest3::CC => EnumTest3View::CC,
        }
    }
}

impl EnumTest3 {
    /// An index that names no variant does not decode.
    pub proof fn lemma_unknown_tag(bytes: Seq<u8>)
        requires
            variant_tag(bytes) matches Some((tag, _)) && tag >= 3,
        ensures
            Self::parse(bytes) is None,
    {
    }
}

impl Format for EnumTest3 {
    open spec fn fixed_width() -> Option<u64> {
        None
    }

    open spec fn body(v: EnumTest3View) -> Seq<u8> {
        match v {
            EnumTest3View::AA(x) => variant_body(0, encoding::<u8>(x)),
            EnumTest3View::BB(x) => variant_body(1, encoding::<u32>(x)),
            EnumTest3View::CC => variant_body(2, Seq::empty()),
        }
    }

    open spec fn parse(bytes: Seq<u8>) -> Option<EnumTest3View> {
        match variant_tag(bytes) {
            Some((tag, rest)) => {
                if tag == 0 {
                    match carried::<u8>(rest) {
                        Some(x) => Some(EnumTest3View::AA(x)),
                        None => None,
                    }
                } else if tag == 1 {
                    match carried::<u32>(rest) {
                        Some(x) => Some(EnumTest3View::BB(x)),
                        None => None,
                    }
                } else if tag == 2 {
                    Some(EnumTest3View::CC)
                } else {
                    None
                }
            },
            None => None,
        }
    }

    /// The second variant is the default, and carries the default of its payload.
    open spec fn default_value() -> EnumTest3View {
        EnumTest3View::BB(default_or::<u32>(None))
    }

    open spec fn encodable(v: EnumTest3View) -> bool {
        &&& Self::body(v).len() <= u64::MAX
        &&& match v {
            EnumTest3View::AA(x) => u8::encodable(x),
            EnumTest3View::BB(x) => u32::encodable(x),
            EnumTest3View::CC => true,
        }
    }

    open spec fn logical_id() -> Option<Seq<char>> {
        None
    }

    open spec fn user_input() -> bool {
        false
    }

    proof fn lemma_round_trip(v: EnumTest3View) {
        match v {
            EnumTest3View::AA(x) => {
                lemma_variant_carried::<u8>(0, x);
            },
            EnumTest3View::BB(x) => {
                lemma_variant_carried::<u32>(1, x);
            },
            EnumTest3View::CC => {
                lemma_variant_tag(2, Seq::empty());
            },
        }
    }
}

impl OnChain for EnumTest3 {
    fn _capacity(&self) -> u64 {
        proof {
            lemma_digits_len(Self::body(self.deep_view()).len(), 8);
        }
        match self {
            EnumTest3::AA(x) => {
                proof {
                    lemma_variant_tag(0, encoding::<u8>(x.deep_view()));
                }
                9 + x._capacity()
            },
            EnumTest3::BB(x) => {
                proof {
                    lemma_variant_tag(1, encoding::<u32>(x.deep_view()));
                }
                9 + x._capacity()
            },
            EnumTest3::CC => {
                proof {
                    lemma_variant_tag(2, Seq::empty());
                }
                9
            },
        }
    }

    fn _id() -> Option<&'static str> {
        None
    }

    fn _to_bytes(&self) -> Vec<u8> {
        match self {
            EnumTest3::AA(x) => write_carrying::<u8>(0, x),
            EnumTest3::BB(x) => write_carrying::<u32>(1, x),
            EnumTest3::CC => write_bare(2),
        }
    }

    fn _from_bytes(bytes: &[u8]) -> Option<Self> {
        match read_tag(bytes) {
            Some((tag, rest)) => {
                if tag == 0 {
                    match read_carried::<u8>(rest) {
                        Some(x) => Some(EnumTest3::AA(x)),
                        None => None,
                    }
                } else if tag == 1 {
                    match read_carried::<u32>(rest) {
                        Some(x) => Some(EnumTest3::BB(x)),
                        None => None,
                    }
                } else if tag == 2 {
                    Some(EnumTest3::CC)
                } else {
                    None
                }
            },
            None => None,
        }
    }

    fn _fixed_size() -> Option<u64> {
        None
    }

    fn _eq(&self, other: &Self) -> bool {
        match (self, other) {
            (EnumTest3::AA(a), EnumTest3::AA(b)) => a._eq(b),
            (EnumTest3::BB(a), EnumTest3::BB(b)) => a._eq(b),
            (EnumTest3::CC, EnumTest3::CC) => true,
            _ => false,
        }
    }

    fn _default() -> Self {
        EnumTest3::BB(field_default::<u32>(None))
    }

    fn _user_input() -> bool {
        false
    }
}

} // verus!
