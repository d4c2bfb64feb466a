//! The parameters of a prepared statement: which position a placeholder
//! stands for, and the types of the parameters in the order in which the
//! client binds their values.

use vstd::prelude::*;
use vstd::string::*;
use crate::schema::{DataType, DataTypeView};
use crate::text::chars_of;

verus! {

/// The most parameters that a statement can have.
pub const MAX_PARAMETERS: usize = 65535;

/// Whether `c` is a decimal digit.
pub open spec fn is_digit(c: char) -> bool {
    0x30 <= c as u32 <= 0x39
}

/// Whether `s` is made of decimal digits alone.
pub open spec fn all_digits(s: Seq<char>) -> bool {
    forall|i: int| 0 <= i < s.len() ==> is_digit(#[trigger] s[i])
}

/// The number that the decimal digits of `s` write.
pub open spec fn decimal_value(s: Seq<char>) -> nat
    decreases s.len(),
{
    if s.len() == 0 {
        0
    } else {
        decimal_value(s.drop_last()) * 10 + (s.last() as u32 - 0x30) as nat
    }
}

/// The position that a placeholder stands for, counted from one: `$n`
/// stands for `n`, where `n` is written in decimal digits and lies between
/// one and the most parameters a statement can have. Any other id stands
/// for no position.
pub open spec fn placeholder_number(id: Seq<char>) -> Option<nat> {
    if id.len() >= 2 && id[0] == '$' && all_digits(id.skip(1)) && 1 <= decimal_value(id.skip(1))
        <= MAX_PARAMETERS {
        Some(decimal_value(id.skip(1)))
    } else {
        None
    }
}

/// The highest position that any of the placeholders stands for; zero
/// where none stands for a position.
pub open spec fn highest_placeholder(ids: Seq<Seq<char>>) -> nat
    decreases ids.len(),
{
    if ids.len() == 0 {
        0
    } else {
        let before = highest_placeholder(ids.drop_last());
        match placeholder_number(ids.last()) {
            Some(n) => if n > before {
                n
            } else {
                before
            },
            None => before,
        }
    }
}

/// Where the first placeholder for position `n` stands among the ids, if
/// there is one.
pub open spec fn placeholder_index(ids: Seq<Seq<char>>, n: nat) -> Option<int>
    decreases ids.len(),
{
    if ids.len() == 0 {
        None
    } else {
        match placeholder_index(ids.drop_last(), n) {
            Some(i) => Some(i),
            None => if placeholder_number(ids.last()) == Some(n) {
                Some(ids.len() - 1)
            } else {
                None
            },
        }
    }
}

/// The ids of a list of placeholders with their types.
pub open spec fn ids_of(types: Seq<(Seq<char>, Option<DataTypeView>)>) -> Seq<Seq<char>> {
    types.map_values(|entry: (Seq<char>, Option<DataTypeView>)| entry.0)
}

/// The type of the parameter at position `n`: that of the first
/// placeholder for the position, or none where there is no such
/// placeholder or its type is not known.
pub open spec fn placeholder_type(
    types: Seq<(Seq<char>, Option<DataTypeView>)>,
    n: nat,
) -> Option<DataTypeView> {
    match placeholder_index(ids_of(types), n) {
        Some(i) => types[i].1,
        None => None,
    }
}

/// The digits that come first write no more than all the digits.
proof fn lemma_decimal_value_grows(s: Seq<char>, k: int)
    requires
        0 <= k <= s.len(),
        all_digits(s),
    ensures
        decimal_value(s.take(k)) <= decimal_value(s),
    decreases s.len(),
{
    if k == s.len() {
        assert(s.take(k) =~= s);
    } else {
        let front = s.drop_last();
        assert forall|i: int| 0 <= i < front.len() implies is_digit(#[trigger] front[i]) by {
            assert(front[i] == s[i]);
        }
        lemma_decimal_value_grows(front, k);
        assert(front.take(k) =~= s.take(k));
        assert(is_digit(s[s.len() - 1]));
    }
}

/// A placeholder that is found among the first ids is the one found among
/// all of them, and it stands among the first.
proof fn lemma_placeholder_index_stays(ids: Seq<Seq<char>>, k: int, n: nat)
    requires
        0 <= k <= ids.len(),
        placeholder_index(ids.take(k), n) is Some,
    ensures
        placeholder_index(ids, n) == placeholder_index(ids.take(k), n),
    decreases ids.len(),
{
    if k == ids.len() {
        assert(ids.take(k) =~= ids);
    } else {
        assert(ids.drop_last().take(k) =~= ids.take(k));
        lemma_placeholder_index_stays(ids.drop_last(), k, n);
    }
}

/// The position that a placeholder stands for, counted from one.
pub fn placeholder_position(id: &str) -> (position: Option<usize>)
    ensures
        match position {
            Some(n) => placeholder_number(id@) == Some(n as nat),
            None => placeholder_number(id@) is None,
        },
{
    let chars = chars_of(id);
    if chars.len() < 2 || chars[0] != '$' {
        return None;
    }
    let ghost digits = chars@.skip(1);
    let mut value: usize = 0;
    let mut i: usize = 1;
    assert(digits.take(0) =~= Seq::<char>::empty());
    while i < chars.len()
        invariant
            1 <= i <= chars.len(),
            chars@ == id@,
            chars@[0] == '$',
            digits == chars@.skip(1),
            all_digits(digits.take(i - 1)),
            value == decimal_value(digits.take(i - 1)),
            value <= MAX_PARAMETERS,
        decreases chars.len() - i,
    {
        let code = chars[i] as u32;
        assert(digits[i - 1] == chars@[i as int]);
        if code < 0x30 || code > 0x39 {
            assert(!is_digit(digits[i - 1]));
            assert(!all_digits(digits));
            return None;
        }
        proof {
            assert(digits.take(i as int).drop_last() =~= digits.take(i - 1));
            assert(digits.take(i as int).last() == digits[i - 1]);
            assert forall|j: int| 0 <= j < i implies is_digit(#[trigger] digits.take(i as int)[j]) by {
                if j < i - 1 {
                    assert(digits.take(i - 1)[j] == digits.take(i as int)[j]);
                }
            }
        }
        let next = value * 10 + (code - 0x30) as usize;
        assert(next == decimal_value(digits.take(i as int)));
        if next > MAX_PARAMETERS {
            proof {
                if all_digits(digits) {
                    lemma_decimal_value_grows(digits, i as int);
                }
            }
            return None;
        }
        value = next;
        i += 1;
    }
    assert(digits.take(chars.len() - 1) =~= digits);
    if value == 0 {
        None
    } else {
        Some(value)
    }
}

/// Where the first placeholder for position `n` stands among the ids.
fn index_of(ids: &Vec<String>, n: usize) -> (found: Option<usize>)
    ensures
        match found {
            Some(i) => i < ids.len() && placeholder_index(ids.deep_view(), n as nat) == Some(
                i as int,
            ),
            None => placeholder_index(ids.deep_view(), n as nat) is None,
        },
{
    let ghost all = ids.deep_view();
    let mut i: usize = 0;
    assert(all.take(0) =~= Seq::<Seq<char>>::empty());
    while i < ids.len()
        invariant
            i <= ids.len(),
            all == ids.deep_view(),
            placeholder_index(all.take(i as int), n as nat) is None,
        decreases ids.len() - i,
    {
        proof {
            assert(all.take(i as int + 1).drop_last() =~= all.take(i as int));
            assert(all.take(i as int + 1).last() == all[i as int]);
            assert(all[i as int] == ids[i as int]@);
        }
        if let Some(position) = placeholder_position(ids[i].as_str()) {
            if position == n {
                proof {
                    lemma_placeholder_index_stays(all, i as int + 1, n as nat);
                }
                return Some(i);
            }
        }
        i += 1;
    }
    assert(all.take(ids.len() as int) =~= all);
    None
}

/// Puts the placeholders of a statement in the order of their positions:
/// for each position from `$1` to the highest that any placeholder stands
/// for, where the first placeholder for it stands among the ids, or
/// nothing where no placeholder stands for it.
pub fn ordered_placeholders(ids: &Vec<String>) -> (ordered: Vec<Option<usize>>)
    ensures
        ordered.len() == highest_placeholder(ids.deep_view()),
        forall|k: int|
            0 <= k < ordered.len() ==> (match #[trigger] ordered[k] {
                Some(i) => i < ids.len() && placeholder_index(ids.deep_view(), (k + 1) as nat)
                    == Some(i as int),
                None => placeholder_index(ids.deep_view(), (k + 1) as nat) is None,
            }),
{
    let ghost all = ids.deep_view();
    let mut highest: usize = 0;
    let mut i: usize = 0;
    assert(all.take(0) =~= Seq::<Seq<char>>::empty());
    while i < ids.len()
        invariant
            i <= ids.len(),
            all == ids.deep_view(),
            highest == highest_placeholder(all.take(i as int)),
            highest <= MAX_PARAMETERS,
        decreases ids.len() - i,
    {
        proof {
            assert(all.take(i as int + 1).drop_last() =~= all.take(i as int));
            assert(all.take(i as int + 1).last() == all[i as int]);
            assert(all[i as int] == ids[i as int]@);
        }
        if let Some(position) = placeholder_position(ids[i].as_str()) {
            if position > highest {
                highest = position;
            }
        }
        i += 1;
    }
    assert(all.take(ids.len() as int) =~= all);
    let mut ordered: Vec<Option<usize>> = Vec::new();
    let mut k: usize = 0;
    while k < highest
        invariant
            k <= highest <= MAX_PARAMETERS,
            ordered.len() == k,
            forall|j: int|
                0 <= j < k ==> (match #[trigger] ordered[j] {
                    Some(i) => i < ids.len() && placeholder_index(ids.deep_view(), (j + 1) as nat)
                        == Some(i as int),
                    None => placeholder_index(ids.deep_view(), (j + 1) as nat) is None,
                }),
        decreases highest - k,
    {
        ordered.push(index_of(ids, k + 1));
        k += 1;
    }
    ordered
}

/// The types of a statement's parameters in the order of their positions:
/// the first is that of `$1`, and there are as many as the highest
/// position that a placeholder stands for. A position that no placeholder
/// gives a type for has none.
pub fn ordered_param_types(types: &Vec<(String, Option<DataType>)>) -> (ordered: Vec<
    Option<DataType>,
>)
    ensures
        ordered.len() == highest_placeholder(ids_of(types.deep_view())),
        forall|k: int|
            0 <= k < ordered.len() ==> (#[trigger] ordered[k]).deep_view() == placeholder_type(
                types.deep_view(),
                (k + 1) as nat,
            ),
{
    let mut ids: Vec<String> = Vec::new();
    let mut i: usize = 0;
    while i < types.len()
        invariant
            i <= types.len(),
            ids.len() == i,
            forall|j: int| 0 <= j < i ==> (#[trigger] ids[j])@ == types.deep_view()[j].0,
        decreases types.len() - i,
    {
        assert(types.deep_view()[i as int] == types[i as int].deep_view());
        ids.push(types[i].0.clone());
        i += 1;
    }
    assert(ids.deep_view() =~= ids_of(types.deep_view()));
    let positions = ordered_placeholders(&ids);
    let mut ordered: Vec<Option<DataType>> = Vec::new();
    let mut k: usize = 0;
    while k < positions.len()
        invariant
            k <= positions.len(),
            ordered.len() == k,
            ids.deep_view() == ids_of(types.deep_view()),
            ids.len() == types.len(),
            forall|j: int|
                0 <= j < positions.len() ==> (match #[trigger] positions[j] {
                    Some(i) => i < ids.len() && placeholder_index(ids.deep_view(), (j + 1) as nat)
                        == Some(i as int),
                    None => placeholder_index(ids.deep_view(), (j + 1) as nat) is None,
                }),
            forall|j: int|
                0 <= j < k ==> (#[trigger] ordered[j]).deep_view() == placeholder_type(
                    types.deep_view(),
                    (j + 1) as nat,
                ),
        decreases positions.len() - k,
    {
        let data_type = match positions[k] {
            Some(at) => {
                assert(types.deep_view()[at as int] == types[at as int].deep_view());
                match &types[at].1 {
                    Some(data_type) => Some(data_type.duplicate()),
                    None => None,
                }
            },
            None => None,
        };
        ordered.push(data_type);
        k += 1;
    }
    ordered
}

/// How the bytes of a bound value in binary format are read.
#[derive(Debug, Clone, Copy, PartialEq, Eq, Structural)]
pub enum BinaryDecoding {
    /// As a text in UTF-8.
    Text,
    /// As a big-endian integer of four bytes.
    Int4,
    /// As a big-endian integer of eight bytes.
    Int8,
    /// As one byte that is zero for false.
    Bool,
    /// Not at all: the type has no binary reading here.
    Unsupported,
}

/// The reading of a bound value in binary format, by the type of its
/// parameter: a text for `Utf8` and for a parameter of unknown type, an
/// integer for `Int32` and `Int64`, a truth value for `Boolean`, and none
/// for every other type.
pub open spec fn binary_decoding_of(data_type: Option<DataTypeView>) -> BinaryDecoding {
    match data_type {
        None => BinaryDecoding::Text,
        Some(DataTypeView::Utf8) => BinaryDecoding::Text,
        Some(DataTypeView::Int32) => BinaryDecoding::Int4,
        Some(DataTypeView::Int64) => BinaryDecoding::Int8,
        Some(DataTypeView::Boolean) => BinaryDecoding::Bool,
        Some(_) => BinaryDecoding::Unsupported,
    }
}

/// How a bound value in binary format is read.
pub fn binary_decoding(data_type: &Option<DataType>) -> (decoding: BinaryDecoding)
    ensures
        decoding == binary_decoding_of(data_type.deep_view()),
{
    match data_type {
        None => BinaryDecoding::Text,
        Some(DataType::Utf8) => BinaryDecoding::Text,
        Some(DataType::Int32) => BinaryDecoding::Int4,
        Some(DataType::Int64) => BinaryDecoding::Int8,
        Some(DataType::Boolean) => BinaryDecoding::Bool,
        Some(_) => BinaryDecoding::Unsupported,
    }
}

} // verus!
