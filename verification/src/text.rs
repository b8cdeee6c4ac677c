//! The text shown for a node: the bytes of its span, cut to a budget, with the full
//! length appended where something was cut, and, in the tree, quoted with newlines
//! escaped.

use crate::model::Span;
use vstd::prelude::*;

verus! {

/// The longest text, in bytes, that is shown whole.
pub const TEXT_BUDGET: usize = 100;

/// The bytes of `code` that `span` covers; nothing where the span does not lie in `code`.
pub open spec fn span_text(code: Seq<u8>, span: Span) -> Seq<u8> {
    if span.start_byte <= span.end_byte <= code.len() {
        code.subrange(span.start_byte as int, span.end_byte as int)
    } else {
        Seq::empty()
    }
}

/// A byte that continues a UTF-8 character begun earlier.
pub open spec fn is_continuation(byte: u8) -> bool {
    128 <= byte < 192
}

/// The last place at or before `at` where `text` can be cut without splitting a UTF-8
/// character.
pub open spec fn cut_point(text: Seq<u8>, at: nat) -> nat
    decreases at,
{
    if at == 0 || at >= text.len() || !is_continuation(text[at as int]) {
        at
    } else {
        cut_point(text, (at - 1) as nat)
    }
}

/// The part of `text` that is shown: all of it within the budget, else its beginning up
/// to the last whole character within the budget.
pub open spec fn shown_part(text: Seq<u8>) -> Seq<u8> {
    if text.len() <= TEXT_BUDGET {
        text
    } else {
        text.subrange(0, cut_point(text, TEXT_BUDGET as nat) as int)
    }
}

/// `n` in decimal digits.
pub open spec fn decimal(n: nat) -> Seq<u8>
    decreases n,
{
    if n < 10 {
        seq![(48 + n) as u8]
    } else {
        decimal(n / 10).push((48 + n % 10) as u8)
    }
}

/// What follows a text that was cut: `... (N)`, where `N` is the length of the whole
/// text in bytes. Nothing follows a text that is shown whole.
pub open spec fn length_suffix(text: Seq<u8>) -> Seq<u8> {
    if text.len() <= TEXT_BUDGET {
        Seq::empty()
    } else {
        seq![46u8, 46u8, 46u8, 32u8, 40u8] + decimal(text.len()) + seq![41u8]
    }
}

/// `text` with each newline replaced by a backslash and the letter `n`.
pub open spec fn escaped(text: Seq<u8>) -> Seq<u8>
    decreases text.len(),
{
    if text.len() == 0 {
        Seq::empty()
    } else if text.last() == 10 {
        escaped(text.drop_last()) + seq![92u8, 110u8]
    } else {
        escaped(text.drop_last()).push(text.last())
    }
}

/// The text of a leaf as a row of the tree shows it: the shown part, escaped and between
/// double quotes, then the length suffix.
pub open spec fn quoted_text(text: Seq<u8>) -> Seq<u8> {
    seq![34u8] + escaped(shown_part(text)) + seq![34u8] + length_suffix(text)
}

/// The text of a node as the details panel shows it: the shown part as it is, then the
/// length suffix.
pub open spec fn plain_text(text: Seq<u8>) -> Seq<u8> {
    shown_part(text) + length_suffix(text)
}

/// The bytes of `code` that `span` covers.
pub fn slice_text(code: &Vec<u8>, span: Span) -> (text: Vec<u8>)
    ensures
        text@ == span_text(code@, span),
{
    let mut text: Vec<u8> = Vec::new();
    if span.start_byte <= span.end_byte && span.end_byte <= code.len() {
        let mut i: usize = span.start_byte;
        while i < span.end_byte
            invariant
                span.start_byte <= i <= span.end_byte <= code.len(),
                text@ == code@.subrange(span.start_byte as int, i as int),
            decreases span.end_byte - i,
        {
            text.push(code[i]);
            assert(text@ =~= code@.subrange(span.start_byte as int, i + 1));
            i = i + 1;
        }
    }
    text
}

/// Appends `n` in decimal digits.
fn push_decimal(out: &mut Vec<u8>, n: usize)
    ensures
        final(out)@ == old(out)@ + decimal(n as nat),
    decreases n,
{
    if n >= 10 {
        push_decimal(out, n / 10);
    }
    out.push(48 + (n % 10) as u8);
    assert(out@ =~= old(out)@ + decimal(n as nat));
}

/// Appends the length suffix of `text`.
fn push_suffix(out: &mut Vec<u8>, text: &Vec<u8>)
    ensures
        final(out)@ == old(out)@ + length_suffix(text@),
{
    if text.len() > TEXT_BUDGET {
        out.push(46);
        out.push(46);
        out.push(46);
        out.push(32);
        out.push(40);
        push_decimal(out, text.len());
        out.push(41);
        assert(out@ =~= old(out)@ + length_suffix(text@));
    } else {
        assert(out@ =~= old(out)@ + length_suffix(text@));
    }
}

/// How many bytes of `text` are shown.
fn shown_len(text: &Vec<u8>) -> (len: usize)
    ensures
        len <= text.len(),
        text@.subrange(0, len as int) == shown_part(text@),
{
    if text.len() <= TEXT_BUDGET {
        assert(text@.subrange(0, text.len() as int) =~= text@);
        text.len()
    } else {
        let mut at: usize = TEXT_BUDGET;
        while at > 0 && 128 <= text[at] && text[at] < 192
            invariant
                at <= TEXT_BUDGET < text.len(),
                cut_point(text@, at as nat) == cut_point(text@, TEXT_BUDGET as nat),
            decreases at,
        {
            at = at - 1;
        }
        at
    }
}

/// The text of a leaf as a row of the tree shows it.
pub fn display_text(text: &Vec<u8>) -> (shown: Vec<u8>)
    ensures
        shown@ == quoted_text(text@),
{
    let len = shown_len(text);
    let mut shown: Vec<u8> = Vec::new();
    shown.push(34);
    let mut i: usize = 0;
    while i < len
        invariant
            i <= len <= text.len(),
            shown@ == seq![34u8] + escaped(text@.subrange(0, i as int)),
        decreases len - i,
    {
        let ghost longer = text@.subrange(0, i + 1);
        assert(longer.drop_last() =~= text@.subrange(0, i as int));
        if text[i] == 10 {
            shown.push(92);
            shown.push(110);
        } else {
            shown.push(text[i]);
        }
        assert(shown@ =~= seq![34u8] + escaped(longer));
        i = i + 1;
    }
    shown.push(34);
    push_suffix(&mut shown, text);
    assert(shown@ =~= quoted_text(text@));
    shown
}

/// The text of a node as the details panel shows it.
pub fn detail_text(text: &Vec<u8>) -> (shown: Vec<u8>)
    ensures
        shown@ == plain_text(text@),
{
    let len = shown_len(text);
    let mut shown: Vec<u8> = Vec::new();
    let mut i: usize = 0;
    while i < len
        invariant
            i <= len <= text.len(),
            shown@ == text@.subrange(0, i as int),
        decreases len - i,
    {
        shown.push(text[i]);
        assert(shown@ =~= text@.subrange(0, i + 1));
        i = i + 1;
    }
    push_suffix(&mut shown, text);
    shown
}

} // verus!
