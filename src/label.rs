use vstd::prelude::*;

verus! {

/// A table or column name: a plain string, a 32-bit hash whose text is
/// unknown, or a hash together with the name it was resolved to.
#[derive(Clone, Debug, PartialEq)]
pub enum Label {
    Hash(u32),
    String(String),
    Resolved(u32, String),
}

/// What a label is, with a name seen as its characters.
pub enum LabelView {
    Hash(u32),
    Name(Seq<char>),
    Resolved(u32, Seq<char>),
}

impl View for Label {
    type V = LabelView;

    open spec fn view(&self) -> LabelView {
        match self {
            Label::Hash(h) => LabelView::Hash(*h),
            Label::String(s) => LabelView::Name(s@),
            Label::Resolved(h, s) => LabelView::Resolved(*h, s@),
        }
    }
}

/// The lowercase hexadecimal digit for `d` (which must be below 16).
pub open spec fn hex_digit(d: u32) -> char {
    if d == 0 { '0' } else if d == 1 { '1' } else if d == 2 { '2' } else if d == 3 { '3' }
    else if d == 4 { '4' } else if d == 5 { '5' } else if d == 6 { '6' } else if d == 7 { '7' }
    else if d == 8 { '8' } else if d == 9 { '9' } else if d == 10 { 'a' } else if d == 11 { 'b' }
    else if d == 12 { 'c' } else if d == 13 { 'd' } else if d == 14 { 'e' } else { 'f' }
}

/// The value of a hexadecimal digit, either case; `None` for any other character.
pub open spec fn hex_value(c: char) -> Option<u32> {
    if '0' <= c && c <= '9' {
        Some((c as u32 - '0' as u32) as u32)
    } else if 'a' <= c && c <= 'f' {
        Some((c as u32 - 'a' as u32 + 10) as u32)
    } else if 'A' <= c && c <= 'F' {
        Some((c as u32 - 'A' as u32 + 10) as u32)
    } else {
        None
    }
}

/// The `i`-th of the eight hexadecimal digits of `h`, most significant first.
pub open spec fn nibble(h: u32, i: int) -> u32 {
    (h >> ((28 - 4 * i) as u32)) & 15u32
}

/// `h` written as exactly eight lowercase hexadecimal digits.
pub open spec fn hex8(h: u32) -> Seq<char> {
    Seq::new(8, |i: int| hex_digit(nibble(h, i)))
}

/// Whether `s` is exactly eight hexadecimal digits.
pub open spec fn is_hex8(s: Seq<char>) -> bool {
    s.len() == 8 && forall|i: int| 0 <= i < 8 ==> (#[trigger] hex_value(s[i])).is_some()
}

/// The number spelled by the first `n` hexadecimal digits of `s`.
pub open spec fn hex_prefix_value(s: Seq<char>, n: nat) -> u32
    decreases n,
{
    if n == 0 {
        0
    } else {
        (hex_prefix_value(s, (n - 1) as nat) << 4u32) | hex_value(s[n - 1]).unwrap()
    }
}

/// The number that eight hexadecimal digits spell, if `s` is such.
pub open spec fn parse_hex8(s: Seq<char>) -> Option<u32> {
    if is_hex8(s) {
        Some(hex_prefix_value(s, 8))
    } else {
        None
    }
}

/// The text under which a label stands in documents and file names: a plain
/// or resolved name as it is, a hash as its eight hexadecimal digits.
pub open spec fn label_text(l: LabelView) -> Seq<char> {
    match l {
        LabelView::Hash(h) => hex8(h),
        LabelView::Name(s) => s,
        LabelView::Resolved(_, s) => s,
    }
}

/// Whether the label was originally a hash, resolved to a name or not.
pub open spec fn is_hashed(l: LabelView) -> bool {
    !(l is Name)
}

/// The label that reading back the text and hash flag of `l` gives: a
/// resolved name is hashed again, anything else comes back as it was.
pub open spec fn restored(l: LabelView) -> LabelView {
    match l {
        LabelView::Resolved(_, s) => LabelView::Hash(hash_of_text(s)),
        _ => l,
    }
}

/// The murmur3 hash that the BDAT format gives a name.
pub uninterp spec fn murmur3_of(s: Seq<char>) -> u32;

/// The hash that a hashed name read back from a document stands for: eight
/// hexadecimal digits are that hash, any other text is hashed.
pub open spec fn hash_of_text(text: Seq<char>) -> u32 {
    match parse_hex8(text) {
        Some(h) => h,
        None => murmur3_of(text),
    }
}

/// The label that `text` denotes: with `hashed` set the hash of
/// `hash_of_text`, otherwise the plain name `text`.
pub open spec fn label_of_text(text: Seq<char>, hashed: bool) -> LabelView {
    if hashed {
        LabelView::Hash(hash_of_text(text))
    } else {
        LabelView::Name(text)
    }
}

/// A label read back from its own text and hash flag is `restored(l)`: the
/// label itself unless it is a resolved name.
pub proof fn lemma_label_text_round_trip(l: LabelView)
    ensures
        label_of_text(label_text(l), is_hashed(l)) == restored(l),
{
    if let LabelView::Hash(h) = l {
        lemma_hex8_round_trip(h);
    }
}

/// A hash resolved to the name it was made from (a name that is not itself
/// eight hexadecimal digits) comes back as that hash.
pub proof fn lemma_resolved_restores_hash(h: u32, n: Seq<char>)
    requires
        murmur3_of(n) == h,
        parse_hex8(n) is None,
    ensures
        restored(LabelView::Resolved(h, n)) == LabelView::Hash(h),
{
}

/// Relies on `{:08x}` formatting of std: eight lowercase hexadecimal digits,
/// zero-padded on the left.
#[verifier::external_body]
fn format_hex8(h: u32) -> (r: String)
    ensures
        r@ == hex8(h),
{
    format!("{:08x}", h)
}

/// Relies on bdat::hash::murmur3_str: the hash of the name's UTF-8 bytes.
#[verifier::external_body]
fn murmur3_str(s: &str) -> (r: u32)
    ensures
        r == murmur3_of(s@),
{
    bdat::hash::murmur3_str(s)
}

proof fn lemma_hex_digit_value(d: u32)
    requires
        d < 16,
    ensures
        hex_value(hex_digit(d)) == Some(d),
{
}

/// Reading back the eight digits of a hash gives the hash.
pub proof fn lemma_hex8_round_trip(h: u32)
    ensures
        parse_hex8(hex8(h)) == Some(h),
{
    let s = hex8(h);
    assert forall|i: int| 0 <= i < 8 implies #[trigger] hex_value(s[i]) == Some(nibble(h, i)) by {
        let x = h >> ((28 - 4 * i) as u32);
        assert(x & 15u32 < 16u32) by (bit_vector);
        lemma_hex_digit_value(nibble(h, i));
    }
    reveal_with_fuel(hex_prefix_value, 9);
    let n0 = nibble(h, 0);
    let n1 = nibble(h, 1);
    let n2 = nibble(h, 2);
    let n3 = nibble(h, 3);
    let n4 = nibble(h, 4);
    let n5 = nibble(h, 5);
    let n6 = nibble(h, 6);
    let n7 = nibble(h, 7);
    let a1 = (0u32 << 4u32) | n0;
    let a2 = (a1 << 4u32) | n1;
    let a3 = (a2 << 4u32) | n2;
    let a4 = (a3 << 4u32) | n3;
    let a5 = (a4 << 4u32) | n4;
    let a6 = (a5 << 4u32) | n5;
    let a7 = (a6 << 4u32) | n6;
    let a8 = (a7 << 4u32) | n7;
    assert(a8 == h) by (bit_vector)
        requires
            n0 == (h >> 28u32) & 15u32,
            n1 == (h >> 24u32) & 15u32,
            n2 == (h >> 20u32) & 15u32,
            n3 == (h >> 16u32) & 15u32,
            n4 == (h >> 12u32) & 15u32,
            n5 == (h >> 8u32) & 15u32,
            n6 == (h >> 4u32) & 15u32,
            n7 == (h >> 0u32) & 15u32,
            a1 == (0u32 << 4u32) | n0,
            a2 == (a1 << 4u32) | n1,
            a3 == (a2 << 4u32) | n2,
            a4 == (a3 << 4u32) | n3,
            a5 == (a4 << 4u32) | n4,
            a6 == (a5 << 4u32) | n5,
            a7 == (a6 << 4u32) | n6,
            a8 == (a7 << 4u32) | n7,
    ;
}

impl Label {
    /// A copy of the label.
    pub fn copy(&self) -> (r: Label)
        ensures
            r@ == self@,
    {
        match self {
            Label::Hash(h) => Label::Hash(*h),
            Label::String(s) => Label::String(s.clone()),
            Label::Resolved(h, s) => Label::Resolved(*h, s.clone()),
        }
    }

    /// Whether the label was originally a hash, resolved to a name or not.
    pub fn is_hash(&self) -> (r: bool)
        ensures
            r == is_hashed(self@),
    {
        !matches!(self, Label::String(_))
    }

    /// The text that stands for the label in documents and file names.
    pub fn text(&self) -> (r: String)
        ensures
            r@ == label_text(self@),
    {
        match self {
            Label::Hash(h) => format_hex8(*h),
            Label::String(s) => s.clone(),
            Label::Resolved(_, s) => s.clone(),
        }
    }

    /// The label that a name read back from a document denotes.
    pub fn parse(text: &str, hashed: bool) -> (r: Label)
        ensures
            r@ == label_of_text(text@, hashed),
    {
        if !hashed {
            return Label::String(text.to_owned());
        }
        match read_hex8(text) {
            Some(h) => Label::Hash(h),
            None => Label::Hash(murmur3_str(text)),
        }
    }
}

/// The number that `s` spells when it is exactly eight hexadecimal digits.
pub fn read_hex8(s: &str) -> (r: Option<u32>)
    ensures
        r == parse_hex8(s@),
{
    let n = s.unicode_len();
    if n != 8 {
        return None;
    }
    let mut v: u32 = 0;
    let mut i: usize = 0;
    while i < 8
        invariant
            n == s@.len() == 8,
            0 <= i <= 8,
            forall|j: int| 0 <= j < i ==> (#[trigger] hex_value(s@[j])).is_some(),
            v == hex_prefix_value(s@, i as nat),
        decreases 8 - i,
    {
        let c = s.get_char(i);
        let d: u32 = if '0' <= c && c <= '9' {
            (c as u32) - ('0' as u32)
        } else if 'a' <= c && c <= 'f' {
            (c as u32) - ('a' as u32) + 10
        } else if 'A' <= c && c <= 'F' {
            (c as u32) - ('A' as u32) + 10
        } else {
            return None;
        };
        assert(hex_value(c) == Some(d));
        v = (v << 4u32) | d;
        i = i + 1;
    }
    Some(v)
}

} // verus!
