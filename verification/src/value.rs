//! Attribute values as typed values: integers, flags and texts, and the
//! typed attributes of an element.

use crate::error::Error;
use crate::text::chars_of;
use crate::xml::{Element, Node};
use vstd::prelude::*;
use vstd::string::StringExecFns;

verus! {

/// Whether `c` is one of the digits `0` to `9`.
pub open spec fn is_digit(c: char) -> bool {
    '0' <= c <= '9'
}

/// The number that the decimal digits `digits` write; `None` where there is
/// no digit or something else than a digit.
pub open spec fn decimal(digits: Seq<char>) -> Option<nat>
    decreases digits.len(),
{
    if digits.len() == 0 || !is_digit(digits.last()) {
        None
    } else {
        let unit = (digits.last() as u32 - '0' as u32) as nat;
        if digits.len() == 1 {
            Some(unit)
        } else {
            match decimal(digits.drop_last()) {
                Some(tens) => Some(tens * 10 + unit),
                None => None,
            }
        }
    }
}

/// The integer that `text` writes: decimal digits, with `+` or `-` before
/// them or nothing.
pub open spec fn integer(text: Seq<char>) -> Option<int> {
    if text.len() > 0 && text[0] == '-' {
        match decimal(text.skip(1)) {
            Some(magnitude) => Some(-(magnitude as int)),
            None => None,
        }
    } else if text.len() > 0 && text[0] == '+' {
        match decimal(text.skip(1)) {
            Some(magnitude) => Some(magnitude as int),
            None => None,
        }
    } else {
        match decimal(text) {
            Some(magnitude) => Some(magnitude as int),
            None => None,
        }
    }
}

/// The integer that `text` writes, where it lies from `least` to `most`.
pub open spec fn integer_within(text: Seq<char>, least: int, most: int) -> Option<int> {
    match integer(text) {
        Some(value) => if least <= value <= most {
            Some(value)
        } else {
            None
        },
        None => None,
    }
}

/// The flag that `text` writes: `1` or `true`, `0` or `false`.
pub open spec fn flag(text: Seq<char>) -> Option<bool> {
    if text == "1"@ || text == "true"@ {
        Some(true)
    } else if text == "0"@ || text == "false"@ {
        Some(false)
    } else {
        None
    }
}

/// Digits that write a number still write one with a digit more, and no
/// smaller one; anything else written behind them spoils the number.
pub proof fn lemma_decimal_grows(digits: Seq<char>, n: int)
    requires
        0 < n <= digits.len(),
    ensures
        decimal(digits.take(n)) is None ==> decimal(digits) is None,
        decimal(digits) matches Some(whole) ==> decimal(digits.take(n)) matches Some(part)
            && part <= whole,
    decreases digits.len() - n,
{
    if n == digits.len() {
        assert(digits.take(n) =~= digits);
    } else {
        let front = digits.drop_last();
        assert(front.take(n) =~= digits.take(n));
        lemma_decimal_grows(front, n);
    }
}

/// Reads the integer that `text` writes, where it lies from `least` to
/// `most`.
pub fn parse_integer(text: &str, least: i64, most: i64) -> (r: Option<i64>)
    ensures
        match r {
            Some(value) => integer_within(text@, least as int, most as int) == Some(value as int),
            None => integer_within(text@, least as int, most as int) is None,
        },
{
    let chars = chars_of(text);
    let negative = chars.len() > 0 && chars[0] == '-';
    let signed = chars.len() > 0 && (chars[0] == '-' || chars[0] == '+');
    let first: usize = if signed {
        1
    } else {
        0
    };
    let ghost digits = chars@.skip(first as int);
    if first >= chars.len() {
        assert(digits.len() == 0);
        return None;
    }
    let limit: i128 = 9_223_372_036_854_775_808;
    let mut magnitude: i128 = 0;
    let mut i: usize = first;
    proof {
        if !signed {
            assert(digits =~= text@);
        }
    }
    while i < chars.len()
        invariant
            first <= i <= chars@.len(),
            first < chars@.len(),
            digits == chars@.skip(first as int),
            integer(text@) == match decimal(digits) {
                Some(m) => Some(
                    if negative {
                        -(m as int)
                    } else {
                        m as int
                    },
                ),
                None => None,
            },
            0 <= magnitude <= limit == 9_223_372_036_854_775_808,
            i > first ==> decimal(digits.take(i - first)) == Some(magnitude as nat),
            i == first ==> magnitude == 0,
        decreases chars@.len() - i,
    {
        let c = chars[i];
        let ghost upto = digits.take(i + 1 - first);
        proof {
            assert(upto.last() == c);
            assert(upto.drop_last() =~= digits.take(i - first));
            lemma_decimal_grows(digits, i + 1 - first);
        }
        if !('0' <= c && c <= '9') {
            return None;
        }
        magnitude = magnitude * 10 + (c as u32 - '0' as u32) as i128;
        if magnitude > limit {
            return None;
        }
        i += 1;
    }
    assert(digits.take(digits.len() as int) =~= digits);
    let value: i128 = if negative {
        -magnitude
    } else {
        magnitude
    };
    if (least as i128) <= value && value <= (most as i128) {
        Some(value as i64)
    } else {
        None
    }
}

/// Reads the flag that `text` writes.
pub fn parse_flag(text: &str) -> (r: Option<bool>)
    ensures
        r == flag(text@),
{
    if crate::xml::same_text(text, "1") || crate::xml::same_text(text, "true") {
        Some(true)
    } else if crate::xml::same_text(text, "0") || crate::xml::same_text(text, "false") {
        Some(false)
    } else {
        None
    }
}

impl Node {
    /// The attribute `name` as an integer of 32 bits.
    pub open spec fn number(self, name: Seq<char>) -> Option<int> {
        match self.attribute(name) {
            Some(value) => integer_within(value, i32::MIN as int, i32::MAX as int),
            None => None,
        }
    }

    /// The attribute `name` as an integer of 64 bits.
    pub open spec fn long_number(self, name: Seq<char>) -> Option<int> {
        match self.attribute(name) {
            Some(value) => integer_within(value, i64::MIN as int, i64::MAX as int),
            None => None,
        }
    }

    /// The attribute `name` as a flag.
    pub open spec fn switch(self, name: Seq<char>) -> Option<bool> {
        match self.attribute(name) {
            Some(value) => flag(value),
            None => None,
        }
    }
}

impl Element {
    /// The attribute `name`, which the element must have.
    pub fn text_of(&self, name: &str) -> (r: Result<String, Error>)
        ensures
            match r {
                Ok(value) => self.deep_view().attribute(name@) == Some(value@),
                Err(e) => self.deep_view().attribute(name@) is None && e is Xml,
            },
    {
        match self.attribute(name) {
            Some(value) => Ok(String::from_str(value)),
            None => Err(Error::Xml(String::from_str("missing attribute `").concat(name).concat("`"))),
        }
    }

    /// The attribute `name`, where the element has it.
    pub fn optional_text(&self, name: &str) -> (r: Option<String>)
        ensures
            r.deep_view() == self.deep_view().attribute(name@),
    {
        match self.attribute(name) {
            Some(value) => Some(String::from_str(value)),
            None => None,
        }
    }

    /// The attribute `name` as an integer of 32 bits: the element must have
    /// it, and it must write one.
    pub fn number_of(&self, name: &str) -> (r: Result<i32, Error>)
        ensures
            match r {
                Ok(value) => self.deep_view().number(name@) == Some(value as int),
                Err(e) => self.deep_view().number(name@) is None && e is Xml,
            },
    {
        match self.attribute(name) {
            Some(value) => match parse_integer(value, i32::MIN as i64, i32::MAX as i64) {
                Some(number) => Ok(number as i32),
                None => Err(
                    Error::Xml(
                        String::from_str("attribute `").concat(name).concat("` is no integer"),
                    ),
                ),
            },
            None => Err(Error::Xml(String::from_str("missing attribute `").concat(name).concat("`"))),
        }
    }

    /// The attribute `name` as an integer of 64 bits: the element must have
    /// it, and it must write one.
    pub fn long_number_of(&self, name: &str) -> (r: Result<i64, Error>)
        ensures
            match r {
                Ok(value) => self.deep_view().long_number(name@) == Some(value as int),
                Err(e) => self.deep_view().long_number(name@) is None && e is Xml,
            },
    {
        match self.attribute(name) {
            Some(value) => match parse_integer(value, i64::MIN, i64::MAX) {
                Some(number) => Ok(number),
                None => Err(
                    Error::Xml(
                        String::from_str("attribute `").concat(name).concat("` is no integer"),
                    ),
                ),
            },
            None => Err(Error::Xml(String::from_str("missing attribute `").concat(name).concat("`"))),
        }
    }

    /// The attribute `name` as a flag: the element must have it, and it
    /// must write one.
    pub fn switch_of(&self, name: &str) -> (r: Result<bool, Error>)
        ensures
            match r {
                Ok(value) => self.deep_view().switch(name@) == Some(value),
                Err(e) => self.deep_view().switch(name@) is None && e is Xml,
            },
    {
        match self.attribute(name) {
            Some(value) => match parse_flag(value) {
                Some(on) => Ok(on),
                None => Err(
                    Error::Xml(String::from_str("attribute `").concat(name).concat("` is no flag")),
                ),
            },
            None => Err(Error::Xml(String::from_str("missing attribute `").concat(name).concat("`"))),
        }
    }
}

/// The values that `read` finds in `nodes`, one for each in their order;
/// `None` where it finds none in one of them.
pub open spec fn all_of<T>(nodes: Seq<Node>, read: spec_fn(Node) -> Option<T>) -> Option<Seq<T>>
    decreases nodes.len(),
{
    if nodes.len() == 0 {
        Some(Seq::empty())
    } else {
        match (all_of(nodes.drop_last(), read), read(nodes.last())) {
            (Some(front), Some(last)) => Some(front.push(last)),
            _ => None,
        }
    }
}

/// Where `read` finds nothing in one of the nodes, `all_of` finds nothing.
pub proof fn lemma_all_of_fails<T>(nodes: Seq<Node>, read: spec_fn(Node) -> Option<T>, i: int)
    requires
        0 <= i < nodes.len(),
        read(nodes[i]) is None,
    ensures
        all_of(nodes, read) is None,
    decreases nodes.len(),
{
    if i < nodes.len() - 1 {
        lemma_all_of_fails(nodes.drop_last(), read, i);
    }
}

/// `all_of` goes through the nodes one by one.
pub proof fn lemma_all_of_step<T>(nodes: Seq<Node>, read: spec_fn(Node) -> Option<T>, i: int)
    requires
        0 <= i < nodes.len(),
    ensures
        all_of(nodes.take(i + 1), read) == match (all_of(nodes.take(i), read), read(nodes[i])) {
            (Some(front), Some(last)) => Some(front.push(last)),
            _ => None,
        },
{
    assert(nodes.take(i + 1).drop_last() =~= nodes.take(i));
    assert(nodes.take(i + 1).last() == nodes[i]);
}

} // verus!
