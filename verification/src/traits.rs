//! Numbers written for a reader: a comma between each group of three digits.

use crate::number::{decimal, decimal_chars};
use crate::text::{
    after_first, before_first, chars_of, collect_string, head_before_first, push_all,
    tail_after_first,
};
use vstd::prelude::*;
use vstd::utf8::encode_utf8;

verus! {

/// Values that can be written with thousands separators.
pub trait Commas {
    /// The text that `commas` returns.
    spec fn commas_text(&self) -> Seq<char>;

    /// The value as text, its whole part in groups of three.
    fn commas(&self) -> (out: String)
        ensures
            out@ == self.commas_text(),
    ;
}

/// The number of bytes that `s` takes in UTF-8.
pub open spec fn byte_len(s: Seq<char>) -> nat {
    encode_utf8(s).len()
}

/// The first `upto` characters of `whole`, a comma put in front of each
/// character but the first that has a multiple of three bytes' worth of
/// positions from itself to the end.
pub open spec fn grouped(whole: Seq<char>, upto: int) -> Seq<char>
    decreases upto,
{
    if upto <= 0 {
        Seq::empty()
    } else {
        let index = upto - 1;
        let front = grouped(whole, index);
        if (byte_len(whole) - index) % 3 == 0 && index != 0 {
            front.push(',').push(whole[index])
        } else {
            front.push(whole[index])
        }
    }
}

/// `text` with its part in front of the first `.` grouped. The part behind
/// the point is kept as it is; a point with nothing behind it is dropped.
pub open spec fn with_commas(text: Seq<char>) -> Seq<char> {
    let whole = before_first(text, '.');
    let fraction = after_first(text, seq!['.']);
    if fraction.len() == 0 {
        grouped(whole, whole.len() as int)
    } else {
        grouped(whole, whole.len() as int) + seq!['.'] + fraction
    }
}

/// A text takes at least one byte per character.
pub proof fn lemma_byte_len(s: Seq<char>)
    ensures
        byte_len(s) >= s.len(),
    decreases s.len(),
{
    if s.len() > 0 {
        lemma_byte_len(s.drop_first());
    }
}

/// Writes `text` with thousands separators.
pub fn group_thousands(text: &[char]) -> (out: Vec<char>)
    ensures
        out@ == with_commas(text@),
{
    let point: Vec<char> = vec!['.'];
    assert(point@ == seq!['.']);
    let whole = head_before_first(text, '.');
    let fraction = tail_after_first(text, point.as_slice());
    let whole_text = collect_string(whole.as_slice());
    let bytes: usize = whole_text.as_str().as_bytes().len();
    proof {
        lemma_byte_len(whole@);
    }
    let mut out: Vec<char> = Vec::new();
    let mut index: usize = 0;
    while index < whole.len()
        invariant
            index <= whole.len(),
            bytes == byte_len(whole@),
            bytes >= whole.len(),
            out@ == grouped(whole@, index as int),
        decreases whole.len() - index,
    {
        if (bytes - index) % 3 == 0 && index != 0 {
            out.push(',');
        }
        out.push(whole[index]);
        index += 1;
    }
    if fraction.len() > 0 {
        out.push('.');
        push_all(&mut out, fraction.as_slice());
    }
    out
}

impl Commas for str {
    open spec fn commas_text(&self) -> Seq<char> {
        with_commas(self@)
    }

    fn commas(&self) -> (out: String) {
        let text = chars_of(self);
        collect_string(group_thousands(text.as_slice()).as_slice())
    }
}

impl Commas for u64 {
    open spec fn commas_text(&self) -> Seq<char> {
        with_commas(decimal(*self as nat))
    }

    fn commas(&self) -> (out: String) {
        let text = decimal_chars(*self);
        collect_string(group_thousands(text.as_slice()).as_slice())
    }
}

impl Commas for usize {
    open spec fn commas_text(&self) -> Seq<char> {
        with_commas(decimal(*self as nat))
    }

    fn commas(&self) -> (out: String) {
        let text = decimal_chars(*self as u64);
        collect_string(group_thousands(text.as_slice()).as_slice())
    }
}

} // verus!
